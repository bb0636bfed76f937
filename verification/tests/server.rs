use base64::prelude::{Engine, BASE64_STANDARD};
use stem::server::{index_access, new_nonce, page_with_nonces};

#[test]
fn page_served_before_login_or_to_the_logged_in_session() {
    assert!(index_access(false, false));
    assert!(index_access(false, true));
    assert!(index_access(true, true));
    assert!(!index_access(true, false));
}

#[test]
fn nonces_fill_the_two_placeholders_in_order() {
    let page = "<script nonce=\"RANDOM_NONCE\"></script><script nonce=\"RANDOM_NONCE\"></script>";
    assert_eq!(
        page_with_nonces(page, "a1", "b2"),
        "<script nonce=\"a1\"></script><script nonce=\"b2\"></script>"
    );
    assert_eq!(page_with_nonces("no placeholder", "a", "b"), "no placeholder");
    assert_eq!(page_with_nonces("RANDOM_NONCE RANDOM_NONCE RANDOM_NONCE", "a", "b"), "a b RANDOM_NONCE");
}

#[test]
fn nonce_is_256_random_bits_in_base64() {
    let a = new_nonce();
    let b = new_nonce();
    assert_eq!(a.len(), 44);
    assert_eq!(BASE64_STANDARD.decode(&a).unwrap().len(), 32);
    assert_ne!(a, b);
}

#[test]
fn server_config_carries_port_and_key() {
    let c = stem::server::ServerConfig { port: 8080, frontend_key: stem::server::FrontendKey::new_insecure() };
    assert_eq!(c.frontend_key.expose(), 123);
    assert_eq!(c.port, 8080);
}
