use dbx_core::secrets::{persist_secret, stale_secrets_statement, ConnectionSecrets, SecretWrite};

fn describe(w: &SecretWrite) -> String {
    match w {
        SecretWrite::Delete { connection_id, key } => format!("delete {connection_id}/{key}"),
        SecretWrite::Upsert { connection_id, key, secret } => format!("upsert {connection_id}/{key}={secret}"),
    }
}

#[test]
fn empty_secret_is_deleted() {
    assert_eq!(describe(&persist_secret("c1", "password", "")), "delete c1/password");
}

#[test]
fn non_empty_secret_is_written() {
    assert_eq!(describe(&persist_secret("c1", "password", "pw")), "upsert c1/password=pw");
}

#[test]
fn write_plan_persists_each_secret() {
    let secrets = ConnectionSecrets {
        password: "pw".to_string(),
        ssh_password: String::new(),
        ssh_key_passphrase: "phrase".to_string(),
        proxy_password: String::new(),
        connection_string: Some("postgres://x".to_string()),
    };
    let plan: Vec<String> = secrets.write_plan("c7").iter().map(describe).collect();
    assert_eq!(
        plan,
        vec![
            "upsert c7/password=pw",
            "delete c7/ssh_password",
            "upsert c7/ssh_key_passphrase=phrase",
            "delete c7/proxy_password",
            "upsert c7/connection_string=postgres://x",
        ]
    );
}

#[test]
fn missing_or_empty_connection_string_is_deleted() {
    let mut secrets = ConnectionSecrets {
        password: String::new(),
        ssh_password: String::new(),
        ssh_key_passphrase: String::new(),
        proxy_password: String::new(),
        connection_string: None,
    };
    assert_eq!(describe(&secrets.write_plan("c").remove(4)), "delete c/connection_string");
    secrets.connection_string = Some(String::new());
    assert_eq!(describe(&secrets.write_plan("c").remove(4)), "delete c/connection_string");
}

#[test]
fn loaded_secrets_default_to_empty() {
    let loaded = ConnectionSecrets::from_stored(Some("pw".to_string()), None, None, Some("proxy".to_string()), None);
    assert_eq!(loaded.password, "pw");
    assert_eq!(loaded.ssh_password, "");
    assert_eq!(loaded.ssh_key_passphrase, "");
    assert_eq!(loaded.proxy_password, "proxy");
    assert_eq!(loaded.connection_string, None);
    let loaded = ConnectionSecrets::from_stored(None, None, None, None, Some("dsn".to_string()));
    assert_eq!(loaded.connection_string, Some("dsn".to_string()));
}

#[test]
fn stale_secrets_statement_lists_one_placeholder_per_connection() {
    assert_eq!(stale_secrets_statement(0), "DELETE FROM connection_secrets");
    assert_eq!(
        stale_secrets_statement(1),
        "DELETE FROM connection_secrets WHERE connection_id NOT IN (?)"
    );
    assert_eq!(
        stale_secrets_statement(3),
        "DELETE FROM connection_secrets WHERE connection_id NOT IN (?,?,?)"
    );
}

#[test]
fn cleared_secrets_are_empty() {
    let c = ConnectionSecrets::cleared();
    assert!(c.password.is_empty() && c.ssh_password.is_empty());
    assert!(c.ssh_key_passphrase.is_empty() && c.proxy_password.is_empty());
    assert_eq!(c.connection_string, None);
}
