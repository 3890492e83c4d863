use hostfs::dispatch::{authorize_and_plan, plan_operation, DriverCall, Operation};
use hostfs::errors::{ConfigField, FmError};
use hostfs::guard::authorize;
use hostfs::models::{Host, HostConfig, HostType};
use hostfs::vault::Encryptor;

const KEY: &str = "default-32-byte-encryption-key!";

fn host_of(host_type: HostType, config: HostConfig) -> Host {
    Host {
        id: "host-1".to_string(),
        user_id: "user-a".to_string(),
        name: "test host".to_string(),
        host_type,
        config,
        created_at: 0,
    }
}

fn local_config() -> HostConfig {
    let mut c = HostConfig::empty();
    c.path = Some("/data/user1".to_string());
    c
}

fn sftp_config(enc: &Encryptor) -> HostConfig {
    let mut c = HostConfig::empty();
    c.host = Some("sftp.example".to_string());
    c.username = Some("deploy".to_string());
    c.password_encrypted = Some(enc.encrypt("hunter2").unwrap());
    c
}

#[test]
fn http_write_is_unsupported() {
    let enc = Encryptor::new(KEY);
    let mut c = HostConfig::empty();
    c.url = Some("http://files.example".to_string());
    let host = host_of(HostType::Http, c);
    assert_eq!(
        plan_operation(&host, Operation::Write, "a.txt", &enc),
        Err(FmError::Unsupported)
    );
}

#[test]
fn http_delete_and_mkdir_unsupported() {
    let enc = Encryptor::new(KEY);
    let mut c = HostConfig::empty();
    c.url = Some("http://files.example".to_string());
    let host = host_of(HostType::Http, c);
    assert_eq!(
        plan_operation(&host, Operation::Delete, "a", &enc),
        Err(FmError::Unsupported)
    );
    assert_eq!(
        plan_operation(&host, Operation::Mkdir, "a", &enc),
        Err(FmError::Unsupported)
    );
}

#[test]
fn sftp_delete_and_mkdir_unsupported() {
    let enc = Encryptor::new(KEY);
    let host = host_of(HostType::Sftp, sftp_config(&enc));
    assert_eq!(
        plan_operation(&host, Operation::Delete, "a", &enc),
        Err(FmError::Unsupported)
    );
    assert_eq!(
        plan_operation(&host, Operation::Mkdir, "a", &enc),
        Err(FmError::Unsupported)
    );
}

#[test]
fn sftp_missing_username_names_the_field() {
    let enc = Encryptor::new(KEY);
    let mut c = sftp_config(&enc);
    c.username = None;
    let host = host_of(HostType::Sftp, c);
    let r = plan_operation(&host, Operation::List, "/", &enc);
    assert_eq!(r, Err(FmError::Misconfigured(ConfigField::Username)));
    assert_eq!(ConfigField::Username.name(), "username");
}

#[test]
fn missing_fields_named_per_type() {
    let enc = Encryptor::new(KEY);
    let local = host_of(HostType::Local, HostConfig::empty());
    assert_eq!(
        plan_operation(&local, Operation::List, "/", &enc),
        Err(FmError::Misconfigured(ConfigField::Path))
    );
    let http = host_of(HostType::Http, HostConfig::empty());
    assert_eq!(
        plan_operation(&http, Operation::Read, "x", &enc),
        Err(FmError::Misconfigured(ConfigField::Url))
    );
    let sftp = host_of(HostType::Sftp, HostConfig::empty());
    assert_eq!(
        plan_operation(&sftp, Operation::List, "/", &enc),
        Err(FmError::Misconfigured(ConfigField::Host))
    );
    let enc2 = Encryptor::new(KEY);
    let mut c = sftp_config(&enc2);
    c.password_encrypted = None;
    let sftp2 = host_of(HostType::Sftp, c);
    assert_eq!(
        plan_operation(&sftp2, Operation::List, "/", &enc),
        Err(FmError::Misconfigured(ConfigField::PasswordEncrypted))
    );
}

#[test]
fn local_plan_carries_base_and_path() {
    let enc = Encryptor::new(KEY);
    let host = host_of(HostType::Local, local_config());
    let r = plan_operation(&host, Operation::Read, "docs/a.txt", &enc).unwrap();
    assert_eq!(
        r,
        DriverCall::Local {
            base: "/data/user1".to_string(),
            rel: "docs/a.txt".to_string()
        }
    );
}

#[test]
fn http_plan_joins_url() {
    let enc = Encryptor::new(KEY);
    let mut c = HostConfig::empty();
    c.url = Some("http://files.example/".to_string());
    let host = host_of(HostType::Http, c);
    let r = plan_operation(&host, Operation::Read, "/pub/a.txt", &enc).unwrap();
    assert_eq!(
        r,
        DriverCall::Http {
            url: "http://files.example/pub/a.txt".to_string()
        }
    );
}

#[test]
fn sftp_plan_decrypts_credential() {
    let enc = Encryptor::new(KEY);
    let host = host_of(HostType::Sftp, sftp_config(&enc));
    let r = plan_operation(&host, Operation::List, "/srv", &enc).unwrap();
    match r {
        DriverCall::Sftp {
            host: h,
            port,
            username,
            password,
            path,
        } => {
            assert_eq!(h, "sftp.example");
            assert_eq!(port, 22);
            assert_eq!(username, "deploy");
            assert_eq!(password, "hunter2");
            assert_eq!(path, "/srv");
        }
        other => panic!("expected an SFTP call, got {:?}", other),
    }
}

#[test]
fn sftp_plan_respects_configured_port() {
    let enc = Encryptor::new(KEY);
    let mut c = sftp_config(&enc);
    c.port = Some(2222);
    let host = host_of(HostType::Sftp, c);
    match plan_operation(&host, Operation::Read, "f", &enc).unwrap() {
        DriverCall::Sftp { port, .. } => assert_eq!(port, 2222),
        other => panic!("expected an SFTP call, got {:?}", other),
    }
}

#[test]
fn sftp_plan_fails_closed_on_bad_credential() {
    let enc = Encryptor::new(KEY);
    let mut c = sftp_config(&enc);
    c.password_encrypted = Some("not-a-vault-token".to_string());
    let host = host_of(HostType::Sftp, c);
    assert_eq!(
        plan_operation(&host, Operation::List, "/", &enc),
        Err(FmError::Credential)
    );
}

#[test]
fn ownership_enforced_for_every_operation() {
    let enc = Encryptor::new(KEY);
    let host = host_of(HostType::Local, local_config());
    for op in [
        Operation::List,
        Operation::Read,
        Operation::Write,
        Operation::Delete,
        Operation::Mkdir,
    ] {
        assert_eq!(
            authorize_and_plan("user-b", &host, op, "x", &enc),
            Err(FmError::Authorization)
        );
    }
    assert_eq!(authorize("user-b", &host), Err(FmError::Authorization));
    assert_eq!(authorize("user-a", &host), Ok(()));
}

#[test]
fn owner_reaches_the_driver() {
    let enc = Encryptor::new(KEY);
    let host = host_of(HostType::Local, local_config());
    let r = authorize_and_plan("user-a", &host, Operation::Mkdir, "new/dir", &enc).unwrap();
    assert_eq!(
        r,
        DriverCall::Local {
            base: "/data/user1".to_string(),
            rel: "new/dir".to_string()
        }
    );
}

#[test]
fn mkdir_plans_are_repeatable() {
    // planning is stateless: asking twice for the same directory gives the
    // same call both times; the driver's create is itself idempotent
    let enc = Encryptor::new(KEY);
    let host = host_of(HostType::Local, local_config());
    let first = plan_operation(&host, Operation::Mkdir, "a/b", &enc).unwrap();
    let second = plan_operation(&host, Operation::Mkdir, "a/b", &enc).unwrap();
    assert_eq!(first, second);
}
