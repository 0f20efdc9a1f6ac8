use vstd::prelude::*;
use crate::reference::AccountType;

verus! {

/// A request to sign up.
pub struct SignUpRequest {
    pub name: String,
    pub email: String,
    pub password: String,
}

/// A request to sign in.
pub struct LoginRequest {
    pub email: String,
    pub password: String,
}

/// The answer to a successful sign-in.
pub struct AuthResponse {
    pub access_token: String,
    pub token_type: String,
}

/// A request to create an account.
pub struct CreateAccountItemRequest {
    pub name: String,
    pub code: String,
    pub description: Option<String>,
    pub account_type: AccountType,
    pub display_order: i32,
}

/// A request to create a service.
pub struct CreateServiceRequest {
    pub name: String,
    pub slug: String,
    pub display_order: i32,
}

} // verus!
