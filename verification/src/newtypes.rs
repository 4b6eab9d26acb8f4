//! Strongly-typed string-backed identifiers.
//!
//! Each wraps a `String` and is viewed as its character sequence; equality
//! is equality of the underlying text.

use vstd::prelude::*;

verus! {

#[derive(Clone, Debug, Hash, Eq, PartialOrd, Ord)]
pub struct UserId(String);

impl View for UserId {
    type V = Seq<char>;

    closed spec fn view(&self) -> Seq<char> {
        self.0@
    }
}

impl UserId {
    pub fn new(value: String) -> (r: UserId)
        ensures
            r@ == value@,
    {
        UserId(value)
    }

    pub fn as_str(&self) -> (r: &str)
        ensures
            r@ == self@,
    {
        self.0.as_str()
    }

    pub fn into_string(self) -> (r: String)
        ensures
            r@ == self@,
    {
        self.0
    }
}

impl PartialEq for UserId {
    fn eq(&self, other: &UserId) -> (r: bool) {
        self.0 == other.0
    }
}

impl vstd::std_specs::cmp::PartialEqSpecImpl for UserId {
    open spec fn obeys_eq_spec() -> bool {
        true
    }

    open spec fn eq_spec(&self, other: &UserId) -> bool {
        self@ == other@
    }
}

#[derive(Clone, Debug, Hash, Eq, PartialOrd, Ord)]
pub struct ChannelId(String);

impl View for ChannelId {
    type V = Seq<char>;

    closed spec fn view(&self) -> Seq<char> {
        self.0@
    }
}

impl ChannelId {
    pub fn new(value: String) -> (r: ChannelId)
        ensures
            r@ == value@,
    {
        ChannelId(value)
    }

    pub fn as_str(&self) -> (r: &str)
        ensures
            r@ == self@,
    {
        self.0.as_str()
    }

    pub fn into_string(self) -> (r: String)
        ensures
            r@ == self@,
    {
        self.0
    }
}

impl PartialEq for ChannelId {
    fn eq(&self, other: &ChannelId) -> (r: bool) {
        self.0 == other.0
    }
}

impl vstd::std_specs::cmp::PartialEqSpecImpl for ChannelId {
    open spec fn obeys_eq_spec() -> bool {
        true
    }

    open spec fn eq_spec(&self, other: &ChannelId) -> bool {
        self@ == other@
    }
}

#[derive(Clone, Debug, Hash, Eq, PartialOrd, Ord)]
pub struct UserGroupId(String);

impl View for UserGroupId {
    type V = Seq<char>;

    closed spec fn view(&self) -> Seq<char> {
        self.0@
    }
}

impl UserGroupId {
    pub fn new(value: String) -> (r: UserGroupId)
        ensures
            r@ == value@,
    {
        UserGroupId(value)
    }

    pub fn as_str(&self) -> (r: &str)
        ensures
            r@ == self@,
    {
        self.0.as_str()
    }

    pub fn into_string(self) -> (r: String)
        ensures
            r@ == self@,
    {
        self.0
    }
}

impl PartialEq for UserGroupId {
    fn eq(&self, other: &UserGroupId) -> (r: bool) {
        self.0 == other.0
    }
}

impl vstd::std_specs::cmp::PartialEqSpecImpl for UserGroupId {
    open spec fn obeys_eq_spec() -> bool {
        true
    }

    open spec fn eq_spec(&self, other: &UserGroupId) -> bool {
        self@ == other@
    }
}

} // verus!
