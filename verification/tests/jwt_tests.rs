use notes_core::jwt::{create_jwt, extract_user_id_from_token, validate_jwt};
use notes_core::token::{TokenCodec, TokenError};
use notes_core::TOKEN_TTL_SECONDS;

const NOW: u64 = 1_700_000_000;

fn codec() -> TokenCodec {
    TokenCodec::new(b"jwt-test-key".to_vec()).expect("nonempty key")
}

#[test]
fn created_token_carries_the_user_for_a_day() {
    let c = codec();
    let t = create_jwt(&c, 9, NOW);
    assert_eq!(extract_user_id_from_token(&c, &t, NOW), Ok(9));
    assert_eq!(extract_user_id_from_token(&c, &t, NOW + TOKEN_TTL_SECONDS - 1), Ok(9));
    assert_eq!(
        extract_user_id_from_token(&c, &t, NOW + TOKEN_TTL_SECONDS),
        Err(TokenError::Expired),
    );
}

#[test]
fn validated_claims_spell_subject_and_expiry() {
    let c = codec();
    let t = create_jwt(&c, 9, NOW);
    let claims = validate_jwt(&c, &t, NOW).expect("fresh token");
    assert_eq!(claims.sub, "9");
    assert_eq!(claims.exp, NOW + TOKEN_TTL_SECONDS);
}
