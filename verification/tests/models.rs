use hostfs::models::{parse_host_type, parse_port, Host, HostConfig, HostType, User};

#[test]
fn host_type_wire_names() {
    assert_eq!(HostType::Local.as_str(), "local");
    assert_eq!(HostType::Http.as_str(), "http");
    assert_eq!(HostType::Sftp.as_str(), "sftp");
}

#[test]
fn host_type_parsing() {
    assert_eq!(parse_host_type("local"), Some(HostType::Local));
    assert_eq!(parse_host_type("http"), Some(HostType::Http));
    assert_eq!(parse_host_type("sftp"), Some(HostType::Sftp));
    assert_eq!(parse_host_type("LOCAL"), None);
    assert_eq!(parse_host_type("ftp"), None);
    assert_eq!(parse_host_type(""), None);
}

#[test]
fn host_type_round_trip() {
    for t in [HostType::Local, HostType::Http, HostType::Sftp] {
        assert_eq!(parse_host_type(t.as_str()), Some(t));
    }
}

#[test]
fn port_parsing() {
    assert_eq!(parse_port("22"), Some(22));
    assert_eq!(parse_port("2222"), Some(2222));
    assert_eq!(parse_port("65535"), Some(65535));
    assert_eq!(parse_port("0"), Some(0));
    assert_eq!(parse_port("007"), Some(7));
}

#[test]
fn port_parsing_rejects() {
    assert_eq!(parse_port("65536"), None);
    assert_eq!(parse_port(""), None);
    assert_eq!(parse_port("12a"), None);
    assert_eq!(parse_port("-1"), None);
    assert_eq!(parse_port("99999999999999999999"), None);
    assert_eq!(parse_port(" 22"), None);
}

#[test]
fn new_user_has_uuid_and_fields() {
    let u = User::new("alice".to_string(), "$2b$hash".to_string());
    assert_eq!(u.id.len(), 36);
    assert_eq!(u.username, "alice");
    assert_eq!(u.password_hash, "$2b$hash");
    let v = User::new("bob".to_string(), "h".to_string());
    assert_ne!(u.id, v.id);
}

#[test]
fn user_info_leaves_out_the_hash() {
    let u = User::new("carol".to_string(), "secret-hash".to_string());
    let info = u.to_user_info();
    assert_eq!(info.id, u.id);
    assert_eq!(info.username, "carol");
    assert_eq!(info.created_at, u.created_at);
}

#[test]
fn new_host_keeps_its_descriptor() {
    let mut c = HostConfig::empty();
    c.path = Some("/srv/files".to_string());
    let h = Host::new(
        "owner-1".to_string(),
        "archive".to_string(),
        HostType::Local,
        c,
    );
    assert_eq!(h.id.len(), 36);
    assert_eq!(h.user_id, "owner-1");
    assert_eq!(h.name, "archive");
    assert!(matches!(h.host_type, HostType::Local));
    assert_eq!(h.config.path.as_deref(), Some("/srv/files"));
    assert!(h.config.url.is_none());
}
