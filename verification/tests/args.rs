//! The argument renderings of the configuration fragments and of whole
//! documents.

use emulot::{
    BootConfig, DriveConfig, FilesystemDeviceConfig, GuestConfig, MachineConfig,
    NetworkDeviceConfig, PropMap, SecurityModel, SmpConfig,
};

#[test]
fn boot_args() {
    let config = BootConfig { order: None };
    assert_eq!(config.as_args().unwrap().len(), 0);
}

#[test]
fn smp_args() {
    let config = SmpConfig { cores: None };
    assert_eq!(config.as_args().unwrap().len(), 0);
    let config = SmpConfig { cores: Some(4) };
    let binding = config.as_args().unwrap();
    let mut args = binding.iter();
    assert_eq!(args.next(), Some(&"-smp".to_string()));
    assert_eq!(args.next(), Some(&"cores=4".to_string()));
}

#[test]
fn machine_args() {
    let config = MachineConfig { machine_type: "virt".to_string(), props: None };
    let args = config.as_args().unwrap();
    assert_eq!(args.len(), 2);
    assert_eq!(args[0], "-machine");
    assert_eq!(args[1], "virt");
}

#[test]
fn args_with_props() {
    let mut config = MachineConfig { machine_type: "virt".to_string(), props: Some(PropMap::new()) };
    config.props.as_mut().unwrap().insert("highmem".to_string(), "on".to_string());
    let args = config.as_args().unwrap();
    assert_eq!(args.len(), 2);
    assert_eq!(args[0], "-machine");
    assert_eq!(args[1], "virt,highmem=on");
}

#[test]
fn as_args_no_props() {
    let device = NetworkDeviceConfig { device_type: "user".to_string(), props: Some(PropMap::new()) };
    let expected = vec!["-netdev".to_string(), "user".to_string()];
    assert_eq!(device.as_args().unwrap(), expected);
}

#[test]
fn as_args_with_props() {
    let mut props = PropMap::new();
    props.insert("id".to_string(), "n1".to_string());
    props.insert("net".to_string(), "192.168.0.1/24".to_string());
    let device = NetworkDeviceConfig { device_type: "user".to_string(), props: Some(props) };
    let expected = vec!["-netdev".to_string(), "user,id=n1,net=192.168.0.1/24".to_string()];
    assert_eq!(device.as_args().unwrap(), expected);
}

#[test]
fn filesystem_args() {
    let config = FilesystemDeviceConfig {
        driver: "local".to_string(),
        path: "/path/to/file".to_string(),
        mount_tag: "vol0".to_string(),
        security_model: SecurityModel::NoModel,
        options: None,
    };
    let args = config.as_args().unwrap();
    assert_eq!(args.len(), 2);
    assert_eq!(args[0], "-fsdev");
    assert_eq!(args[1], "local,path=/path/to/file,mount_tag=vol0,security_model=none");
}

#[test]
fn args_with_options() {
    let mut config = FilesystemDeviceConfig {
        driver: "local".to_string(),
        path: "/path/to/file".to_string(),
        mount_tag: "vol0".to_string(),
        security_model: SecurityModel::NoModel,
        options: Some(PropMap::new()),
    };
    config.options.as_mut().unwrap().insert("id".to_string(), "vol0".to_string());
    let args = config.as_args().unwrap();
    assert_eq!(args.len(), 2);
    assert_eq!(args[0], "-fsdev");
    assert_eq!(args[1], "local,path=/path/to/file,mount_tag=vol0,security_model=none,id=vol0");
}

#[test]
fn full_command_rendering() {
    let mut config = GuestConfig::new("x86_64".to_string(), 512);
    let mut props = PropMap::new();
    props.insert("highmem".to_string(), "on".to_string());
    config.machine = Some(MachineConfig { machine_type: "virt".to_string(), props: Some(props) });
    let plan = config.as_cmd("").unwrap();
    assert_eq!(plan.program, "qemu-system-x86_64");
    let expected = vec![
        "-machine".to_string(),
        "virt,highmem=on".to_string(),
        "-m".to_string(),
        "512".to_string(),
        "-display".to_string(),
        "none".to_string(),
    ];
    assert_eq!(plan.args, expected);
}

#[test]
fn empty_boot_and_smp_elided() {
    let mut config = GuestConfig::new("x86_64".to_string(), 256);
    config.boot = Some(BootConfig { order: None });
    config.smp = Some(SmpConfig { cores: None });
    let plan = config.as_cmd("").unwrap();
    assert!(!plan.args.contains(&"-boot".to_string()));
    assert!(!plan.args.contains(&"-smp".to_string()));
}

#[test]
fn render_ignores_insertion_order() {
    let mut forward = PropMap::new();
    forward.insert("alpha".to_string(), "1".to_string());
    forward.insert("beta".to_string(), "2".to_string());
    let mut backward = PropMap::new();
    backward.insert("beta".to_string(), "2".to_string());
    backward.insert("alpha".to_string(), "1".to_string());
    let a = MachineConfig { machine_type: "virt".to_string(), props: Some(forward) };
    let b = MachineConfig { machine_type: "virt".to_string(), props: Some(backward) };
    assert_eq!(a.as_args().unwrap(), b.as_args().unwrap());
}

#[test]
fn drive_renders_sorted_options() {
    let mut options = PropMap::new();
    options.insert("if".to_string(), "virtio".to_string());
    options.insert("file".to_string(), "disk.img".to_string());
    let drive = DriveConfig { options };
    let expected = vec!["-drive".to_string(), "file=disk.img,if=virtio".to_string()];
    assert_eq!(drive.as_args().unwrap(), expected);
    let empty = DriveConfig { options: PropMap::new() };
    let expected_empty = vec!["-drive".to_string(), String::new()];
    assert_eq!(empty.as_args().unwrap(), expected_empty);
}

#[test]
fn cpu_accel_and_memory_order() {
    let mut config = GuestConfig::new("aarch64".to_string(), 2048);
    config.cpu = Some("cortex-a72".to_string());
    config.accel = Some("kvm".to_string());
    let plan = config.as_cmd("/var/cache").unwrap();
    let expected = vec![
        "-cpu".to_string(),
        "cortex-a72".to_string(),
        "-accel".to_string(),
        "kvm".to_string(),
        "-m".to_string(),
        "2048".to_string(),
        "-display".to_string(),
        "none".to_string(),
    ];
    assert_eq!(plan.args, expected);
}
