use vume::config::{config_path, vume_home, Config, NetworkConfig, RawConfig, RawNetworkConfig};

fn no_settings() -> RawConfig {
    RawConfig {
        kernel: None,
        firecracker: None,
        ssh_key: None,
        zfs_pool: None,
        vcpu: None,
        mem: None,
        network: None,
    }
}

fn default_config() -> Config {
    Config::load(vume_home(None), no_settings())
}

#[test]
fn test_defaults_no_env_no_file() {
    let cfg = default_config();

    assert_eq!(cfg.home, "/opt/vume");
    assert_eq!(cfg.kernel, "/opt/vume/vmlinux");
    assert_eq!(cfg.firecracker, "/opt/vume/firecracker");
    assert_eq!(cfg.ssh_key, "/opt/vume/vume_key");
    assert_eq!(cfg.zfs_pool, "vume");
    assert_eq!(cfg.vcpu, 2);
    assert_eq!(cfg.mem, 1024);
    assert_eq!(cfg.network.bridge, "br0");
    assert_eq!(cfg.network.subnet, "172.16.0");
    assert!(cfg.network.outbound_if.is_none());
}

#[test]
fn test_vume_home_env() {
    let cfg = Config::load(vume_home(Some("/custom/path")), no_settings());

    assert_eq!(cfg.home, "/custom/path");
    assert_eq!(cfg.kernel, "/custom/path/vmlinux");
    assert_eq!(cfg.firecracker, "/custom/path/firecracker");
    assert_eq!(cfg.ssh_key, "/custom/path/vume_key");
}

#[test]
fn test_network_accessors() {
    let nc = NetworkConfig {
        bridge: "br0".to_string(),
        subnet: "10.0.0".to_string(),
        outbound_if: Some("eth1".to_string()),
    };

    assert_eq!(nc.bridge_ip(), "10.0.0.1");
    assert_eq!(nc.bridge_cidr(), "10.0.0.0/24");
}

#[test]
fn test_allocate_ip() {
    let nc = NetworkConfig {
        bridge: "br0".to_string(),
        subnet: "172.16.0".to_string(),
        outbound_if: None,
    };

    assert_eq!(nc.allocate_ip(&Vec::new()).unwrap(), "172.16.0.2");
    assert_eq!(
        nc.allocate_ip(&vec!["172.16.0.2".to_string()]).unwrap(),
        "172.16.0.3"
    );
    assert_eq!(
        nc.allocate_ip(&vec!["172.16.0.2".to_string(), "172.16.0.3".to_string()])
            .unwrap(),
        "172.16.0.4"
    );
}

#[test]
fn test_config_accessors() {
    let cfg = default_config();
    assert_eq!(cfg.vms_dir(), "/opt/vume/vms");
    assert_eq!(cfg.db_path(), "/opt/vume/vume.db");
    assert_eq!(cfg.zvol_path("vm123"), "/dev/zvol/vume/vm123");
    assert_eq!(cfg.zfs_dataset("foo"), "vume/foo");
}

#[test]
fn allocate_ip_skips_used_and_exhausts_pool() {
    let nc = NetworkConfig {
        bridge: "br0".to_string(),
        subnet: "10.1.2".to_string(),
        outbound_if: None,
    };
    let mut used: Vec<String> = (2..=99).map(|i| format!("10.1.2.{i}")).collect();
    assert_eq!(nc.allocate_ip(&used).unwrap(), "10.1.2.100");
    used.extend((100..=254).map(|i| format!("10.1.2.{i}")));
    assert!(nc.allocate_ip(&used).is_none());
    used.retain(|ip| ip != "10.1.2.254");
    assert_eq!(nc.allocate_ip(&used).unwrap(), "10.1.2.254");
}

#[test]
fn load_takes_file_settings_over_defaults() {
    let raw = RawConfig {
        kernel: Some("/k/vmlinux".to_string()),
        firecracker: None,
        ssh_key: Some("/keys/id".to_string()),
        zfs_pool: Some("tank".to_string()),
        vcpu: Some(4),
        mem: None,
        network: Some(RawNetworkConfig {
            bridge: None,
            subnet: Some("10.9.9".to_string()),
            outbound_if: Some("wlan0".to_string()),
        }),
    };
    let cfg = Config::load("/srv/vume/".to_string(), raw);
    assert_eq!(cfg.kernel, "/k/vmlinux");
    assert_eq!(cfg.firecracker, "/srv/vume/firecracker");
    assert_eq!(cfg.ssh_key, "/keys/id");
    assert_eq!(cfg.zfs_pool, "tank");
    assert_eq!(cfg.vcpu, 4);
    assert_eq!(cfg.mem, 1024);
    assert_eq!(cfg.network.bridge, "br0");
    assert_eq!(cfg.network.subnet, "10.9.9");
    assert_eq!(cfg.network.outbound_if.as_deref(), Some("wlan0"));
    assert_eq!(cfg.zvol_path("a"), "/dev/zvol/tank/a");
}

#[test]
fn config_path_and_values() {
    assert_eq!(config_path("/opt/vume"), "/opt/vume/vume.toml");
    assert_eq!(config_path(""), "vume.toml");
    let cfg = default_config();
    assert_eq!(cfg.value_of("vcpu").as_deref(), Some("2"));
    assert_eq!(cfg.value_of("mem").as_deref(), Some("1024"));
    assert_eq!(cfg.value_of("network.outbound_if").as_deref(), Some(""));
    assert_eq!(cfg.value_of("network.bridge").as_deref(), Some("br0"));
    assert!(cfg.value_of("nope").is_none());
}
