//! Round trips of the wire formats: a document encoded and read back —
//! through real JSON and TOML text — comes back equal.  Also the file
//! reference codec and the digest underneath remote caching.

use emulot::{
    labeled_from_json, labeled_to_json, listing_to_json, BootConfig, File, GuestConfig,
    JsonValue, Labeled, MachineConfig, MessageDigest, NetworkDeviceConfig, PropMap, SmpConfig,
};

fn to_serde(v: &JsonValue) -> serde_json::Value {
    match v {
        JsonValue::UInt(n) => serde_json::Value::from(*n),
        JsonValue::Text(s) => serde_json::Value::String(s.clone()),
        JsonValue::Arr(items) => serde_json::Value::Array(items.iter().map(to_serde).collect()),
        JsonValue::Obj(entries) => {
            let mut map = serde_json::Map::new();
            for (key, value) in entries {
                map.insert(key.clone(), to_serde(value));
            }
            serde_json::Value::Object(map)
        },
    }
}

fn from_serde(v: &serde_json::Value) -> JsonValue {
    match v {
        serde_json::Value::Number(n) => JsonValue::UInt(n.as_u64().unwrap()),
        serde_json::Value::String(s) => JsonValue::Text(s.clone()),
        serde_json::Value::Array(items) => JsonValue::Arr(items.iter().map(from_serde).collect()),
        serde_json::Value::Object(map) => JsonValue::Obj(
            map.iter().map(|(k, v)| (k.clone(), from_serde(v))).collect(),
        ),
        other => panic!("no such value in a guest document: {other:?}"),
    }
}

fn to_toml(v: &JsonValue) -> toml::Value {
    match v {
        JsonValue::UInt(n) => toml::Value::Integer(i64::try_from(*n).unwrap()),
        JsonValue::Text(s) => toml::Value::String(s.clone()),
        JsonValue::Arr(items) => toml::Value::Array(items.iter().map(to_toml).collect()),
        JsonValue::Obj(entries) => {
            let mut table = toml::map::Map::new();
            for (key, value) in entries {
                table.insert(key.clone(), to_toml(value));
            }
            toml::Value::Table(table)
        },
    }
}

fn from_toml(v: &toml::Value) -> JsonValue {
    match v {
        toml::Value::Integer(n) => JsonValue::UInt(u64::try_from(*n).unwrap()),
        toml::Value::String(s) => JsonValue::Text(s.clone()),
        toml::Value::Array(items) => JsonValue::Arr(items.iter().map(from_toml).collect()),
        toml::Value::Table(table) => JsonValue::Obj(
            table.iter().map(|(k, v)| (k.clone(), from_toml(v))).collect(),
        ),
        other => panic!("no such value in a guest document: {other:?}"),
    }
}

fn sample_config() -> GuestConfig {
    let mut config = GuestConfig::new("x86_64".to_string(), 512);
    config.cpu = Some("host".to_string());
    config.accel = Some("kvm".to_string());
    config.boot = Some(BootConfig { order: Some("cd".to_string()) });
    config.smp = Some(SmpConfig { cores: Some(4) });
    config.bios = Some(File::Local("/usr/share/bios.bin".to_string()));
    let mut machine_props = PropMap::new();
    machine_props.insert("highmem".to_string(), "on".to_string());
    config.machine = Some(
        MachineConfig { machine_type: "virt".to_string(), props: Some(machine_props) },
    );
    let mut drive_options = PropMap::new();
    drive_options.insert("file".to_string(), "disk.img".to_string());
    drive_options.insert("if".to_string(), "virtio".to_string());
    config.drive = Some(vec![emulot::DriveConfig { options: drive_options }]);
    let mut net_props = PropMap::new();
    net_props.insert("id".to_string(), "n1".to_string());
    config.netdev = Some(
        vec![NetworkDeviceConfig { device_type: "user".to_string(), props: Some(net_props) }],
    );
    config
}

#[test]
fn json_round_trip() {
    let config = sample_config();
    let text = serde_json::to_string(&to_serde(&config.to_json())).unwrap();
    let parsed: serde_json::Value = serde_json::from_str(&text).unwrap();
    let decoded = GuestConfig::from_json(&from_serde(&parsed)).unwrap();
    assert_eq!(decoded, config);
}

#[test]
fn toml_round_trip() {
    let config = sample_config();
    let text = toml::to_string(&to_toml(&config.to_json())).unwrap();
    let parsed: toml::Value = toml::from_str(&text).unwrap();
    let decoded = GuestConfig::from_json(&from_toml(&parsed)).unwrap();
    assert_eq!(decoded, config);
}

#[test]
fn minimal_document_round_trip() {
    let config = GuestConfig::new("aarch64".to_string(), 128);
    let text = serde_json::to_string(&to_serde(&config.to_json())).unwrap();
    assert_eq!(text, "{\"arch\":\"aarch64\",\"display\":\"none\",\"memory\":128}");
    let parsed: serde_json::Value = serde_json::from_str(&text).unwrap();
    let decoded = GuestConfig::from_json(&from_serde(&parsed)).unwrap();
    assert_eq!(decoded, config);
}

#[test]
fn unknown_top_level_keys_are_tolerated() {
    let parsed: serde_json::Value = serde_json::from_str(
        "{\"arch\":\"x86_64\",\"memory\":64,\"flavour\":\"plain\"}",
    )
    .unwrap();
    let decoded = GuestConfig::from_json(&from_serde(&parsed)).unwrap();
    assert_eq!(decoded.arch, "x86_64");
    assert_eq!(decoded.memory, 64);
    assert_eq!(decoded.display, "none");
}

#[test]
fn missing_required_fields_are_refused() {
    let parsed: serde_json::Value = serde_json::from_str("{\"memory\":64}").unwrap();
    let err = GuestConfig::from_json(&from_serde(&parsed)).unwrap_err();
    assert_eq!(err.kind(), emulot::ErrorKind::EncodingError);
}

#[test]
fn labeled_single_entry_round_trip() {
    let labeled = Labeled::new("vm1", 1isize);
    let doc = labeled_to_json(&labeled);
    let text = serde_json::to_string(&to_serde(&doc)).unwrap();
    assert_eq!(text, "{\"vm1\":1}");
    let parsed: serde_json::Value = serde_json::from_str(&text).unwrap();
    let back = labeled_from_json(&from_serde(&parsed)).unwrap();
    assert_eq!(back.label(), "vm1");
    assert_eq!(*back.item(), 1);
}

#[test]
fn labeled_rejects_many_keys() {
    let parsed: serde_json::Value = serde_json::from_str("{\"a\":1,\"b\":2}").unwrap();
    let err = labeled_from_json(&from_serde(&parsed)).unwrap_err();
    assert_eq!(err.message(), "Too many labels");
    let parsed: serde_json::Value = serde_json::from_str("{}").unwrap();
    let err = labeled_from_json(&from_serde(&parsed)).unwrap_err();
    assert_eq!(err.message(), "Missing labeled value");
}

#[test]
fn listing_serializes_as_single_entry_objects() {
    let listing = vec![Labeled::new("vm1", 1isize), Labeled::new("vm2", 2isize)];
    let doc = listing_to_json(&listing);
    let text = serde_json::to_string(&to_serde(&doc)).unwrap();
    assert_eq!(text, "[{\"vm1\":1},{\"vm2\":2}]");
}

#[test]
fn local_file() {
    let file = File::from_string("/path/to/file");
    assert_eq!(file, File::Local("/path/to/file".to_string()));
    assert_eq!(file.to_text(), "/path/to/file");
}

#[test]
fn remote_file() {
    let file = File::from_string("http://localhost/path/to/file");
    assert_eq!(file, File::Remote("http://localhost/path/to/file".to_string()));
    assert_eq!(file.to_text(), "http://localhost/path/to/file");
}

#[test]
fn remote_files_are_stored_canonically() {
    // The URL library lowercases the scheme and host and fills in the
    // root path: the stored text, and so the digested text, is the
    // canonical form.
    let file = File::from_string("HTTP://LocalHost");
    assert_eq!(file, File::Remote("http://localhost/".to_string()));
}

#[test]
fn sha256() {
    let digest = MessageDigest::calculate("SHA256", &[]).unwrap();
    assert_eq!(
        digest,
        [
            0xe3, 0xb0, 0xc4, 0x42, 0x98, 0xfc, 0x1c, 0x14, 0x9a, 0xfb, 0xf4, 0xc8, 0x99, 0x6f,
            0xb9, 0x24, 0x27, 0xae, 0x41, 0xe4, 0x64, 0x9b, 0x93, 0x4c, 0xa4, 0x95, 0x99, 0x1b,
            0x78, 0x52, 0xb8, 0x55
        ]
    )
}

#[test]
fn remote_cache_path_is_content_addressed() {
    let url = "http://localhost/image.bin";
    let file = File::from_string(url);
    let path = file.cache_path("/var/cache").unwrap();
    assert!(path.starts_with("/var/cache/"));
    let name = &path["/var/cache/".len()..];
    // The cache name is the uppercase-hex SHA3-256 of the URL text, two
    // digits per byte, so distinct digests never share a name.
    let reference = MessageDigest::calculate("SHA3-256", url.as_bytes()).unwrap();
    let mut expected = String::new();
    for byte in reference {
        expected.push_str(&format!("{byte:02X}"));
    }
    assert_eq!(name, expected);
    assert_eq!(name.len(), 64);
    assert!(emulot::File::should_refetch(Some(10), Some(5)));
    assert!(!emulot::File::should_refetch(Some(5), Some(10)));
    assert!(emulot::File::should_refetch(None, Some(10)));
    assert!(emulot::File::should_refetch(Some(5), None));
}
