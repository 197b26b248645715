//! The control plane's decisions: routing, status codes, binding, the
//! client's endpoint resolution, the orchestrator, and the terminal.

use emulot::{
    decode_status, listen_plan, match_route, parse_id, percent_decode, terminal_step,
    ClientConfig, ConfigStorage, Connection, Error, ErrorKind, GuestConfig, Key, ListenPlan,
    Orchestrator, Route, TerminalStep, UrlParts,
};

fn kind_status(kind: ErrorKind) -> u16 {
    emulot::Error::new(kind, "x").status_code()
}

#[test]
fn canonical_status_mapping() {
    assert_eq!(kind_status(ErrorKind::AlreadyRunning), 304);
    assert_eq!(kind_status(ErrorKind::AlreadyStopped), 304);
    assert_eq!(kind_status(ErrorKind::AlreadyExists), 409);
    assert_eq!(kind_status(ErrorKind::NoSuchEntity), 404);
    assert_eq!(kind_status(ErrorKind::Pending), 503);
    assert_eq!(kind_status(ErrorKind::IOError), 500);
    assert_eq!(kind_status(ErrorKind::StorageError), 500);
    assert_eq!(kind_status(ErrorKind::QMPError), 500);
}

#[test]
fn client_decodes_statuses_back() {
    assert!(decode_status(200, String::new()).is_ok());
    let err = decode_status(404, "gone".to_string()).unwrap_err();
    assert_eq!(err.kind(), ErrorKind::NoSuchEntity);
    assert_eq!(err.message(), "gone");
    let err = decode_status(409, "dup".to_string()).unwrap_err();
    assert_eq!(err.kind(), ErrorKind::AlreadyExists);
    let err = decode_status(503, "busy".to_string()).unwrap_err();
    assert_eq!(err.kind(), ErrorKind::Pending);
    let err = decode_status(500, "boom".to_string()).unwrap_err();
    assert_eq!(err.kind(), ErrorKind::IOError);
}

#[test]
fn error_display_strings() {
    assert_eq!(Error::new(ErrorKind::IOError, "lost pipe").display_string(), "i/o error: lost pipe");
    assert_eq!(Error::new(ErrorKind::StorageError, "locked").display_string(), "storage error: locked");
    assert_eq!(Error::new(ErrorKind::EncodingError, "bad escape").display_string(), "encoding error: bad escape");
    assert_eq!(Error::new(ErrorKind::DaemonError, "no scheme").display_string(), "daemon error: no scheme");
    assert_eq!(Error::new(ErrorKind::QMPError, "QMP A: b").display_string(), "QMP A: b");
    assert_eq!(Error::new(ErrorKind::AlreadyRunning, "").display_string(), "Already running.");
    assert_eq!(Error::new(ErrorKind::NoSuchEntity, "").display_string(), "No such entity.");
}

#[test]
fn routes_resolve() {
    assert!(matches!(match_route("GET", "/health"), Some(Route::Health)));
    assert!(matches!(match_route("GET", "/guests/list"), Some(Route::List)));
    match match_route("GET", "/guests/lookup/vm1") {
        Some(Route::Lookup(name)) => assert_eq!(name, "vm1"),
        _ => panic!("lookup route"),
    }
    match match_route("POST", "/guests/create/vm1") {
        Some(Route::Create(name)) => assert_eq!(name, "vm1"),
        _ => panic!("create route"),
    }
    match match_route("POST", "/guests/start/7") {
        Some(Route::Start(id)) => assert_eq!(id, 7),
        _ => panic!("start route"),
    }
    match match_route("POST", "/guests/shutdown/7") {
        Some(Route::Shutdown(id)) => assert_eq!(id, 7),
        _ => panic!("shutdown route"),
    }
    match match_route("DELETE", "/guests/remove/3") {
        Some(Route::Remove(id)) => assert_eq!(id, 3),
        _ => panic!("remove route"),
    }
}

#[test]
fn routes_refuse_what_they_do_not_own() {
    assert!(match_route("PUT", "/health").is_none());
    assert!(match_route("GET", "/guests/unknown").is_none());
    assert!(match_route("POST", "/guests/create/a/b").is_none());
    assert!(match_route("POST", "/guests/create/").is_none());
    assert!(match_route("POST", "/guests/start/vm1").is_none());
    assert!(match_route("DELETE", "/guests/remove/").is_none());
}

#[test]
fn id_parsing() {
    assert_eq!(parse_id("0"), Some(0));
    assert_eq!(parse_id("512"), Some(512));
    assert_eq!(parse_id("9223372036854775807"), Some(9223372036854775807));
    assert_eq!(parse_id(""), None);
    assert_eq!(parse_id("12a"), None);
    assert_eq!(parse_id("-3"), None);
    assert_eq!(parse_id("99999999999999999999"), None);
}

#[test]
fn percent_decoding() {
    assert_eq!(percent_decode("/run/user/daemon.sock").unwrap(), "/run/user/daemon.sock");
    assert_eq!(percent_decode("/tmp/a%20b").unwrap(), "/tmp/a b");
    let err = percent_decode("/tmp/a%2").unwrap_err();
    assert_eq!(err.kind(), ErrorKind::EncodingError);
    assert_eq!(err.message(), "Expect encoding chars");
    let err = percent_decode("/tmp/a%41").unwrap_err();
    assert_eq!(err.kind(), ErrorKind::EncodingError);
    assert_eq!(err.message(), "Unsupported encoding");
}

#[test]
fn listen_plans() {
    match listen_plan("tcp", "127.0.0.1", Some(8080), "").unwrap() {
        ListenPlan::Tcp { host, port } => {
            assert_eq!(host, "127.0.0.1");
            assert_eq!(port, 8080);
        },
        _ => panic!("tcp plan"),
    }
    match listen_plan("unix", "", None, "/run%20dir/d.sock").unwrap() {
        ListenPlan::Unix { path } => assert_eq!(path, "/run dir/d.sock"),
        _ => panic!("unix plan"),
    }
    let err = listen_plan("tcp", "localhost", None, "").unwrap_err();
    assert_eq!(err.kind(), ErrorKind::DaemonError);
    let err = listen_plan("ftp", "h", Some(1), "").unwrap_err();
    assert_eq!(err.kind(), ErrorKind::DaemonError);
}

#[test]
fn health_answers() {
    assert_eq!(emulot::health_text(true).unwrap(), "Ready");
    let err = emulot::health_text(false).unwrap_err();
    assert_eq!(err.kind(), ErrorKind::Pending);
    assert_eq!(err.message(), "Unable to access database");
}

#[test]
fn environment_overrides() {
    assert_eq!(emulot::env_override(Some("a".to_string()), "b".to_string()), "a");
    assert_eq!(emulot::env_override(None, "b".to_string()), "b");
    assert_eq!(emulot::default_storage_uri("/run/user/1000"), "/run/user/1000/storage.db");
}

#[test]
fn client_endpoint_resolution() {
    let unix = ClientConfig {
        url: UrlParts {
            scheme: "unix".to_string(),
            host: String::new(),
            port: None,
            path: "/run%20time/daemon.sock".to_string(),
        },
    };
    let ready = unix.builder().endpoint("/guests/list").unwrap();
    match ready.connection() {
        Some(Connection::Unix { socket, url }) => {
            assert_eq!(socket, "/run time/daemon.sock");
            assert_eq!(url, "http://localhost/guests/list");
        },
        _ => panic!("unix connection"),
    }

    let tcp = ClientConfig {
        url: UrlParts {
            scheme: "tcp".to_string(),
            host: "127.0.0.1".to_string(),
            port: Some(4321),
            path: String::new(),
        },
    };
    let ready = tcp.builder().endpoint("/guests/lookup/vm1").unwrap();
    match ready.connection() {
        Some(Connection::Tcp { url }) => {
            assert_eq!(url, "http://127.0.0.1:4321/guests/lookup/vm1");
        },
        _ => panic!("tcp connection"),
    }

    let bad = ClientConfig {
        url: UrlParts {
            scheme: "gopher".to_string(),
            host: String::new(),
            port: None,
            path: String::new(),
        },
    };
    let err = bad.builder().endpoint("/x").unwrap_err();
    assert_eq!(err.kind(), ErrorKind::DaemonError);
}

#[test]
fn combined_schemes_resolve() {
    // Any plus-joined combination of valid components resolves; a unix
    // component decides for the socket wherever it stands.
    for scheme in ["http+unix", "unix+http", "http+tcp", "tcp+http"] {
        let config = ClientConfig {
            url: UrlParts {
                scheme: scheme.to_string(),
                host: "localhost".to_string(),
                port: None,
                path: "/tmp/d.sock".to_string(),
            },
        };
        let ready = config.builder().endpoint("/health").unwrap();
        match (scheme.contains("unix"), ready.connection()) {
            (true, Some(Connection::Unix { socket, .. })) => assert_eq!(socket, "/tmp/d.sock"),
            (false, Some(Connection::Tcp { url })) => assert_eq!(url, "http://localhost/health"),
            _ => panic!("wrong transport for {scheme}"),
        }
    }
    // A scheme without a transport has nowhere to connect.
    let plain = ClientConfig {
        url: UrlParts {
            scheme: "http".to_string(),
            host: String::new(),
            port: None,
            path: String::new(),
        },
    };
    let err = plain.builder().endpoint("/x").unwrap_err();
    assert_eq!(err.kind(), ErrorKind::DaemonError);
}

#[test]
fn orchestrator_run_and_shutdown() {
    let mut store = ConfigStorage::new("storage.db").unwrap();
    store.insert("vm1", GuestConfig::new("x86_64".to_string(), 512)).unwrap();
    let mut orchestrator = Orchestrator::new(store, "/var/cache/guests");

    // An unknown id is refused before anything is spawned.
    let err = orchestrator.run_begin(9, false).unwrap_err();
    assert_eq!(err.kind(), ErrorKind::NoSuchEntity);
    let err = orchestrator.shutdown_plan(9, false).unwrap_err();
    assert_eq!(err.kind(), ErrorKind::NoSuchEntity);

    // Hydration assigns the per-guest cache directory.
    assert_eq!(orchestrator.guest_storage_dir(1), "/var/cache/guests/1");
    let plan = orchestrator.run_begin(1, false).unwrap();
    assert_eq!(plan.program, "qemu-system-x86_64");

    // The second run of a running id resolves AlreadyRunning; once the
    // child has exited, the second shutdown resolves AlreadyStopped.
    orchestrator.run_commit(1);
    let err = orchestrator.run_begin(1, false).unwrap_err();
    assert_eq!(err.kind(), ErrorKind::AlreadyRunning);
    assert_eq!(err.display_string(), "Already running.");
    let command = orchestrator.shutdown_plan(1, false).unwrap();
    assert_eq!(command.execute, emulot::Execute::SystemPowerDown);
    let err = orchestrator.shutdown_plan(1, true).unwrap_err();
    assert_eq!(err.kind(), ErrorKind::AlreadyStopped);
}

#[test]
fn terminal_decisions() {
    match terminal_step(Key::Enter, false, true) {
        TerminalStep::Forward(bytes) => assert_eq!(bytes, b"\n".to_vec()),
        _ => panic!("enter forwards a newline"),
    }
    match terminal_step(Key::Backspace, false, true) {
        TerminalStep::Forward(bytes) => assert_eq!(bytes, b"\x7f".to_vec()),
        _ => panic!("backspace forwards delete"),
    }
    match terminal_step(Key::Char('x'), false, true) {
        TerminalStep::Forward(bytes) => assert_eq!(bytes, b"x".to_vec()),
        _ => panic!("characters pass through"),
    }
    assert!(matches!(terminal_step(Key::Char('c'), true, true), TerminalStep::Detach));
    assert!(matches!(terminal_step(Key::Char('c'), false, true), TerminalStep::Forward(_)));
    assert!(matches!(terminal_step(Key::Enter, false, false), TerminalStep::Ignore));
    assert!(matches!(terminal_step(Key::Other, false, true), TerminalStep::LogUnknown));
}

#[test]
fn sqlite_errors_project_onto_the_taxonomy() {
    let err = emulot::sqlite_error(false, Some(2067), "UNIQUE constraint failed".to_string());
    assert_eq!(err.kind(), ErrorKind::AlreadyExists);
    let err = emulot::sqlite_error(true, None, "no rows".to_string());
    assert_eq!(err.kind(), ErrorKind::NoSuchEntity);
    let err = emulot::sqlite_error(false, Some(14), "unable to open".to_string());
    assert_eq!(err.kind(), ErrorKind::StorageError);
    let err = emulot::sqlite_error(false, None, "disk gone".to_string());
    assert_eq!(err.kind(), ErrorKind::StorageError);
}
