//! Token generation and the connect-versus-authentication endpoint split.

use pg_auth_proxy::backend_config::{Addr, BackendConfig};
use pg_auth_proxy::token::{generate_token, presign_url, AwsCredentials};
use pg_auth_proxy::wire::{encode_password_message, read_be_u32};

fn test_credentials() -> AwsCredentials {
    AwsCredentials {
        access_key_id: "AKIDEXAMPLE".to_string(),
        secret_access_key: "not-a-real-secret-key".to_string(),
        session_token: None,
    }
}

#[test]
fn presign_url_has_the_documented_shape() {
    let url = presign_url("db.example.com", 5432, "bob");
    assert_eq!(url, "https://db.example.com:5432/?Action=connect&DBUser=bob");
}

#[test]
fn token_is_signed_url_without_scheme_prefix() {
    let creds = test_credentials();
    let t = generate_token("db.example.com", 5432, "us-east-1", "bob", &creds, 1700000000)
        .unwrap();
    assert!(!t.contains("https://"));
    assert!(t.starts_with("db.example.com:5432/?Action=connect&DBUser=bob"));
    assert!(t.contains("X-Amz-Signature="));
    assert!(t.contains("X-Amz-Expires=900"));
}

#[test]
fn tokens_at_different_times_differ() {
    // Same (host, port, region, user), two signing instants: the signed
    // strings differ, and neither carries a scheme prefix.
    let creds = test_credentials();
    let t1 = generate_token("db.example.com", 5432, "us-east-1", "bob", &creds, 1700000000)
        .unwrap();
    let t2 = generate_token("db.example.com", 5432, "us-east-1", "bob", &creds, 1700000100)
        .unwrap();
    assert_ne!(t1, t2);
    assert!(!t1.starts_with("https://"));
    assert!(!t2.starts_with("https://"));
}

#[test]
fn tokens_at_the_same_time_are_equal() {
    let creds = test_credentials();
    let t1 = generate_token("db.example.com", 5432, "us-east-1", "bob", &creds, 1700000000)
        .unwrap();
    let t2 = generate_token("db.example.com", 5432, "us-east-1", "bob", &creds, 1700000000)
        .unwrap();
    assert_eq!(t1, t2);
}

#[test]
fn password_frame_carries_the_token_verbatim() {
    let creds = test_credentials();
    let t = generate_token("db.example.com", 5432, "us-east-1", "bob", &creds, 1700000000)
        .unwrap();
    let frame = encode_password_message(t.as_bytes()).unwrap();
    assert_eq!(frame[0], b'p');
    assert_eq!(read_be_u32(&frame, 1) as usize, 4 + t.len() + 1);
    assert_eq!(&frame[5..5 + t.len()], t.as_bytes());
    assert_eq!(frame[frame.len() - 1], 0);
}

#[test]
fn connect_target_is_proxy_but_signing_target_is_endpoint() {
    // With an upstream proxy configured, TCP goes to the proxy endpoint
    // while the token still names the database endpoint.
    let config = BackendConfig {
        endpoint: Addr { hostname: "db.real.example".to_string(), port: 5432 },
        region: "eu-west-1".to_string(),
        proxy_endpoint: Some(Addr { hostname: "hop.example".to_string(), port: 6000 }),
    };
    assert_eq!(config.connect_endpoint().connect_str(), "hop.example:6000");
    assert_eq!(config.auth_endpoint().connect_str(), "db.real.example:5432");
    let creds = test_credentials();
    let auth = config.auth_endpoint();
    let t = generate_token(
        auth.hostname.as_str(),
        auth.port,
        config.region.as_str(),
        "bob",
        &creds,
        1700000000,
    )
    .unwrap();
    assert!(t.starts_with("db.real.example:5432/"));
    assert!(!t.contains("hop.example"));
}

#[test]
fn connect_target_is_endpoint_without_proxy() {
    let config = BackendConfig {
        endpoint: Addr { hostname: "db.real.example".to_string(), port: 5432 },
        region: "eu-west-1".to_string(),
        proxy_endpoint: None,
    };
    assert_eq!(config.connect_endpoint().connect_str(), "db.real.example:5432");
}
