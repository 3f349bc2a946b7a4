//! Plain data carried between the boundary layer and the core services.

use vstd::prelude::*;

verus! {

/// Payload of a registration call: an email identifier, a display name and a
/// plaintext secret. The boundary layer validates the shape (email syntax,
/// name length in [3, 100], secret length at least 6) before the core sees it.
#[derive(Debug)]
pub struct RegisterRequest {
    pub username: String,
    pub email: String,
    pub password: String,
}

/// Payload of a login call.
#[derive(Debug)]
pub struct LoginRequest {
    pub email: String,
    pub password: String,
}

/// What a successful registration or login hands back: the principal, its
/// public identity and a fresh session token.
#[derive(Debug)]
pub struct AuthResponse {
    pub user_id: i32,
    pub username: String,
    pub email: String,
    pub token: String,
}

/// The assertion a session token carries: a subject (the principal, written
/// in decimal) and the second at which the token stops being valid.
#[derive(Debug)]
pub struct Claims {
    pub sub: String,
    pub exp: u64,
}

/// Error body the boundary layer sends alongside a failure status code.
#[derive(Debug)]
pub struct ApiError {
    pub error: String,
    pub message: String,
}

/// Payload of a note-creation call.
#[derive(Debug)]
pub struct CreateNoteRequest {
    pub title: String,
    pub content: String,
}

/// Payload of a note-update call: the new title and content in full.
#[derive(Debug)]
pub struct UpdateNoteRequest {
    pub title: String,
    pub content: String,
}

/// A note as handlers hand it out; the two timestamps are seconds.
#[derive(Debug)]
pub struct NoteResponse {
    pub id: i32,
    pub title: String,
    pub content: String,
    pub created_at: u64,
    pub updated_at: u64,
}

/// Payload of a note-search call; no term means every note.
#[derive(Debug)]
pub struct SearchRequest {
    pub search_term: Option<String>,
}

/// A user's public record; the timestamp is a second.
#[derive(Debug)]
pub struct UserResponse {
    pub id: i32,
    pub username: String,
    pub email: String,
    pub created_at: u64,
}

} // verus!
