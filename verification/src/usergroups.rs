//! Request and response shapes for the usergroup listing endpoints.

use vstd::prelude::*;

use crate::newtypes::ChannelId;
use crate::newtypes::UserGroupId;
use crate::newtypes::UserId;

verus! {

#[derive(Clone, Debug)]
pub struct ListRequest {
    pub include_count: Option<bool>,
    pub include_disabled: Option<bool>,
    pub include_users: Option<bool>,
    pub team_id: Option<String>,
}

#[derive(Clone, Debug)]
pub struct ListResponse {
    pub usergroups: Vec<UserGroup>,
}

#[derive(Clone, Debug)]
pub struct UserGroup {
    pub id: UserGroupId,
    pub team_id: String,
    pub is_usergroup: bool,
    pub name: String,
    pub description: String,
    pub handle: String,
    pub is_external: bool,
    pub created_by: UserId,
    pub updated_by: UserId,
    pub prefs: UserGroupPrefs,
    pub user_count: usize,
}

#[derive(Clone, Debug)]
pub struct UserGroupPrefs {
    pub channels: Vec<ChannelId>,
    pub groups: Vec<String>,
}

pub struct ListUsersRequest {
    pub usergroup: UserGroupId,
}

#[derive(Debug)]
pub struct ListUsersResponse {
    pub users: Vec<UserId>,
}

} // verus!
