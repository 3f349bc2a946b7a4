use notes_core::gate::{authorize_request, GateRejection};
use notes_core::token::TokenCodec;

const NOW: u64 = 1_700_000_000;

fn codec() -> TokenCodec {
    TokenCodec::new(b"gate-test-key".to_vec()).expect("nonempty key")
}

#[test]
fn missing_header_is_rejected() {
    let c = codec();
    assert_eq!(authorize_request(&c, None, NOW), Err(GateRejection::Unauthorized));
}

#[test]
fn wrong_scheme_is_rejected() {
    let c = codec();
    let t = c.issue_at(5, NOW + 100);
    let basic = format!("Basic {}", t);
    assert_eq!(authorize_request(&c, Some(&basic), NOW), Err(GateRejection::Unauthorized));
}

#[test]
fn bare_token_without_scheme_is_rejected() {
    let c = codec();
    let t = c.issue_at(5, NOW + 100);
    assert_eq!(authorize_request(&c, Some(&t), NOW), Err(GateRejection::Unauthorized));
}

#[test]
fn garbage_bearer_token_is_rejected() {
    let c = codec();
    assert_eq!(
        authorize_request(&c, Some("Bearer garbage"), NOW),
        Err(GateRejection::Unauthorized),
    );
}

#[test]
fn expired_bearer_token_is_rejected() {
    let c = codec();
    let header = format!("Bearer {}", c.issue_at(5, NOW));
    assert_eq!(authorize_request(&c, Some(&header), NOW), Err(GateRejection::Unauthorized));
}

#[test]
fn fresh_bearer_token_attaches_its_principal() {
    let c = codec();
    let header = format!("Bearer {}", c.issue_at(5, NOW + 100));
    assert_eq!(authorize_request(&c, Some(&header), NOW), Ok(5));
}

#[test]
fn rejection_is_always_unauthorized() {
    assert_eq!(GateRejection::Unauthorized.status_code(), 401);
}
