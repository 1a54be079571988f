//! Permissions as a set of bits, and the role table that assigns them.

use vstd::prelude::*;

verus! {

pub const MODERATE_POSTS: u32 = 1;

pub const MODERATE_COMMENTS: u32 = 2;

pub const MODERATE_PROFILES: u32 = 4;

pub const BAN_USERS: u32 = 8;

pub const RED_BUTTON: u32 = 16;

pub const REVIEW_APPELLATIONS: u32 = 32;

pub const ADMIN_PANEL: u32 = 64;

/// A set of the seven permission bits above.
#[derive(Clone, Copy, Debug, PartialEq, Eq, Structural)]
pub struct Permission {
    pub bits: u32,
}

pub open spec fn has_flag(bits: u32, flag: u32) -> bool {
    bits & flag == flag
}

impl Permission {
    /// Whether every bit of `other` is set in `self`.
    pub fn contains(&self, other: Permission) -> (r: bool)
        ensures
            r == has_flag(self.bits, other.bits),
    {
        self.bits & other.bits == other.bits
    }

    /// All seven permissions at once.
    pub fn all() -> (r: Permission)
        ensures
            r.bits == 127,
    {
        Permission { bits: 127 }
    }
}

/// The permission set of each role: ordinary users have none; trusted
/// users may hit the red button; trusted moderators and moderators
/// moderate content; admins additionally ban users and see the admin
/// panel; the owner has everything.
pub open spec fn spec_role_permissions(role_id: i32) -> u32 {
    if role_id == 0 {
        0
    } else if role_id == 1 {
        RED_BUTTON
    } else if role_id == 2 {
        RED_BUTTON | MODERATE_POSTS | MODERATE_COMMENTS | MODERATE_PROFILES
    } else if role_id == 3 {
        MODERATE_POSTS | MODERATE_COMMENTS | MODERATE_PROFILES
    } else if role_id == 4 {
        RED_BUTTON | MODERATE_POSTS | MODERATE_COMMENTS | MODERATE_PROFILES | BAN_USERS
            | ADMIN_PANEL
    } else if role_id == 999 {
        127
    } else {
        0
    }
}

/// The permissions a role grants.
pub fn role_permissions(role_id: &i32) -> (r: Permission)
    ensures
        r.bits == spec_role_permissions(*role_id),
{
    let bits: u32 = match *role_id {
        0 => 0,
        1 => RED_BUTTON,
        2 => RED_BUTTON | MODERATE_POSTS | MODERATE_COMMENTS | MODERATE_PROFILES,
        3 => MODERATE_POSTS | MODERATE_COMMENTS | MODERATE_PROFILES,
        4 => RED_BUTTON | MODERATE_POSTS | MODERATE_COMMENTS | MODERATE_PROFILES | BAN_USERS
            | ADMIN_PANEL,
        999 => 127,
        _ => 0,
    };
    Permission { bits }
}

/// The names of the permissions in a set, in a fixed order.
pub open spec fn spec_permission_names(bits: u32) -> Seq<Seq<char>> {
    (if has_flag(bits, MODERATE_POSTS) {
        seq![("MODERATE_POSTS")@]
    } else {
        Seq::empty()
    }) + (if has_flag(bits, MODERATE_COMMENTS) {
        seq![("MODERATE_COMMENTS")@]
    } else {
        Seq::empty()
    }) + (if has_flag(bits, MODERATE_PROFILES) {
        seq![("MODERATE_PROFILES")@]
    } else {
        Seq::empty()
    }) + (if has_flag(bits, BAN_USERS) {
        seq![("BAN_USERS")@]
    } else {
        Seq::empty()
    }) + (if has_flag(bits, RED_BUTTON) {
        seq![("RED_BUTTON")@]
    } else {
        Seq::empty()
    }) + (if has_flag(bits, REVIEW_APPELLATIONS) {
        seq![("REVIEW_APPELLATIONS")@]
    } else {
        Seq::empty()
    }) + (if has_flag(bits, ADMIN_PANEL) {
        seq![("ADMIN_PANEL")@]
    } else {
        Seq::empty()
    })
}

/// Lists the names of the permissions in `p`, in the fixed order of
/// `spec_permission_names`.
pub fn permissions_to_list(p: Permission) -> (r: Vec<&'static str>)
    ensures
        r@.map_values(|s: &'static str| s@) == spec_permission_names(p.bits),
{
    let mut out: Vec<&'static str> = Vec::new();

    if p.contains(Permission { bits: MODERATE_POSTS }) {
        out.push("MODERATE_POSTS");
    }
    if p.contains(Permission { bits: MODERATE_COMMENTS }) {
        out.push("MODERATE_COMMENTS");
    }
    if p.contains(Permission { bits: MODERATE_PROFILES }) {
        out.push("MODERATE_PROFILES");
    }
    if p.contains(Permission { bits: BAN_USERS }) {
        out.push("BAN_USERS");
    }
    if p.contains(Permission { bits: RED_BUTTON }) {
        out.push("RED_BUTTON");
    }
    if p.contains(Permission { bits: REVIEW_APPELLATIONS }) {
        out.push("REVIEW_APPELLATIONS");
    }
    if p.contains(Permission { bits: ADMIN_PANEL }) {
        out.push("ADMIN_PANEL");
    }
    proof {
        assert(out@.map_values(|s: &'static str| s@) =~~= spec_permission_names(p.bits));
    }
    out
}

} // verus!
