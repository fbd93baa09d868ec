use sushi::config::{validate, Config, ConfigError};

#[test]
fn relay_mode_needs_only_local_address() {
    let config = Config {
        server: true,
        tun_ip: None,
        udp_local_ip: "0.0.0.0:7000".to_string(),
        udp_remote_ip: None,
    };
    assert!(validate(&config).is_ok());
}

#[test]
fn point_to_point_complete_is_accepted() {
    let config = Config {
        server: false,
        tun_ip: Some("10.0.0.2".to_string()),
        udp_local_ip: "0.0.0.0:7000".to_string(),
        udp_remote_ip: Some("192.0.2.1:7000".to_string()),
    };
    assert!(validate(&config).is_ok());
}

#[test]
fn missing_tun_address_is_fatal() {
    let config = Config {
        server: false,
        tun_ip: None,
        udp_local_ip: "0.0.0.0:7000".to_string(),
        udp_remote_ip: Some("192.0.2.1:7000".to_string()),
    };
    assert_eq!(validate(&config), Err(ConfigError::MissingTunAddress));
}

#[test]
fn missing_remote_address_is_fatal() {
    let config = Config {
        server: false,
        tun_ip: Some("10.0.0.2".to_string()),
        udp_local_ip: "0.0.0.0:7000".to_string(),
        udp_remote_ip: None,
    };
    assert_eq!(validate(&config), Err(ConfigError::MissingRemoteAddress));
}

#[test]
fn tun_address_is_checked_before_remote() {
    let config = Config {
        server: false,
        tun_ip: None,
        udp_local_ip: "0.0.0.0:7000".to_string(),
        udp_remote_ip: None,
    };
    assert_eq!(validate(&config), Err(ConfigError::MissingTunAddress));
}
