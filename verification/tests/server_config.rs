use url_shortener::server::{
    build_server, get_host_and_port, DbConnection, Host, HostAllowed, Port, RustLog,
};

#[test]
fn test_settings_reject_empty_values() {
    assert!(RustLog::try_from(String::new()).is_err());
    assert!(DbConnection::try_from(String::new()).is_err());
    assert!(Host::try_from(String::new()).is_err());
    assert!(Port::try_from(String::new()).is_err());
    assert!(HostAllowed::try_from(String::new()).is_err());
}

#[test]
fn test_settings_keep_non_empty_values() {
    assert_eq!(RustLog::try_from(String::from("debug")).unwrap().0, "debug");
    assert_eq!(
        DbConnection::try_from(String::from("postgres://localhost/links")).unwrap().0,
        "postgres://localhost/links"
    );
    assert_eq!(Host::try_from(String::from("127.0.0.1")).unwrap().0, "127.0.0.1");
    assert_eq!(Port::try_from(String::from("8080")).unwrap().0, "8080");
    assert_eq!(HostAllowed::try_from(String::from("http://localhost:3000")).unwrap().0,
        "http://localhost:3000");
}

#[test]
fn test_build_server_requires_every_setting() {
    let server = build_server(
        String::from("127.0.0.1"),
        String::from("8080"),
        String::from("debug"),
        String::from("postgres://localhost/links"),
        String::from("http://localhost:3000"),
    )
    .unwrap();
    assert_eq!(server.host, "127.0.0.1");
    assert_eq!(server.port, "8080");
    assert_eq!(server.rust_log, "debug");
    assert_eq!(server.db_connection, "postgres://localhost/links");
    assert_eq!(server.allowed_hosts, "http://localhost:3000");

    assert!(build_server(
        String::new(),
        String::from("8080"),
        String::from("debug"),
        String::from("postgres://localhost/links"),
        String::from("http://localhost:3000"),
    )
    .is_err());
}

#[test]
fn test_get_host_and_port_joins_with_colon() {
    let server = build_server(
        String::from("0.0.0.0"),
        String::from("9000"),
        String::from("info"),
        String::from("postgres://localhost/links"),
        String::from("*"),
    )
    .unwrap();
    assert_eq!(get_host_and_port(server), "0.0.0.0:9000");
}
