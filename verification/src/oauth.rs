//! Request and response shapes for the OAuth token-exchange endpoint.
//!
//! The redirect URI is carried as plain text here; validating or resolving
//! it is outside this layer's concern.

use vstd::prelude::*;

use crate::newtypes::UserId;

verus! {

#[derive(Clone, Debug)]
pub struct OauthExchangeRequest {
    pub client_id: String,
    pub client_secret: String,
    pub code: String,
    pub redirect_uri: Option<String>,
}

#[derive(Clone, Debug)]
pub struct OauthExchangeResponse {
    pub access_token: String,
    pub app_id: String,
    pub authed_user: AuthedUser,
    pub bot_user_id: UserId,
}

#[derive(Clone, Debug)]
pub struct AuthedUser {
    pub id: UserId,
}

} // verus!
