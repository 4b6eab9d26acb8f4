//! Request and response shapes for the user-info endpoint.
//!
//! The profile's email address is carried as plain text here; address
//! validation is outside this layer's concern.

use vstd::prelude::*;

use crate::newtypes::UserId;

verus! {

pub struct GetUserInfoRequest {
    pub user: UserId,
}

#[derive(Debug)]
pub struct GetUserInfoResponse {
    pub user: UserInfo,
}

#[derive(Clone, Debug)]
pub struct UserInfo {
    pub id: UserId,
    pub team_id: String,
    pub name: String,
    pub real_name: String,
    pub profile: UserProfile,
}

#[derive(Clone, Debug)]
pub struct UserProfile {
    pub real_name: String,
    pub display_name: String,
    pub email: Option<String>,
}

} // verus!
