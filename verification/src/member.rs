//! Team member records and the request shapes that create and update them.

use vstd::prelude::*;
use crate::text::clone_opt_string;
use crate::text::clone_opt_vec_string;

verus! {

/// Mathematical model of a team member record.
#[verifier::ext_equal]
pub struct MemberView {
    pub id: Seq<char>,
    pub display_name: Seq<char>,
    pub email: Option<Seq<char>>,
    pub active: bool,
    pub tags: Option<Seq<Seq<char>>>,
    pub color: Option<Seq<char>>,
    pub updated_at: Seq<char>,
    pub version: int,
}

/// A team member who can be assigned to topics.
#[derive(Debug)]
pub struct TeamMember {
    pub id: String,
    pub display_name: String,
    pub email: Option<String>,
    pub active: bool,
    pub tags: Option<Vec<String>>,
    pub color: Option<String>,
    pub updated_at: String,
    /// Internal version for optimistic concurrency control
    pub version: i64,
}

impl View for TeamMember {
    type V = MemberView;

    open spec fn view(&self) -> MemberView {
        MemberView {
            id: self.id@,
            display_name: self.display_name@,
            email: self.email.deep_view(),
            active: self.active,
            tags: self.tags.deep_view(),
            color: self.color.deep_view(),
            updated_at: self.updated_at@,
            version: self.version as int,
        }
    }
}

impl DeepView for TeamMember {
    type V = MemberView;

    open spec fn deep_view(&self) -> MemberView {
        self@
    }
}

impl Clone for TeamMember {
    fn clone(&self) -> (r: Self)
        ensures
            r@ == self@,
    {
        let r = TeamMember {
            id: self.id.clone(),
            display_name: self.display_name.clone(),
            email: clone_opt_string(&self.email),
            active: self.active,
            tags: clone_opt_vec_string(&self.tags),
            color: clone_opt_string(&self.color),
            updated_at: self.updated_at.clone(),
            version: self.version,
        };
        proof {
            assert(r@ =~= self@);
        }
        r
    }
}

/// Mathematical model of a member-creation request.
#[verifier::ext_equal]
pub struct CreateMemberView {
    pub display_name: Seq<char>,
    pub email: Option<Seq<char>>,
    pub active: bool,
    pub tags: Option<Seq<Seq<char>>>,
    pub color: Option<Seq<char>>,
}

/// Request body for creating a new team member.
pub struct CreateMemberRequest {
    pub display_name: String,
    pub email: Option<String>,
    pub active: bool,
    pub tags: Option<Vec<String>>,
    pub color: Option<String>,
}

impl View for CreateMemberRequest {
    type V = CreateMemberView;

    open spec fn view(&self) -> CreateMemberView {
        CreateMemberView {
            display_name: self.display_name@,
            email: self.email.deep_view(),
            active: self.active,
            tags: self.tags.deep_view(),
            color: self.color.deep_view(),
        }
    }
}

/// The default for a new member's `active` flag when a request leaves it out.
pub fn default_active() -> (r: bool)
    ensures
        r == true,
{
    true
}

/// Mathematical model of a member-update request.
#[verifier::ext_equal]
pub struct UpdateMemberView {
    pub display_name: Option<Seq<char>>,
    pub email: Option<Seq<char>>,
    pub active: Option<bool>,
    pub tags: Option<Seq<Seq<char>>>,
    pub color: Option<Seq<char>>,
    pub expected_version: Option<int>,
}

/// Request body for updating an existing team member. Fields left `None`
/// keep their previous value: an update is a shallow merge, not a
/// replacement.
pub struct UpdateMemberRequest {
    pub display_name: Option<String>,
    pub email: Option<String>,
    pub active: Option<bool>,
    pub tags: Option<Vec<String>>,
    pub color: Option<String>,
    /// Expected version for optimistic concurrency control
    pub expected_version: Option<i64>,
}

impl View for UpdateMemberRequest {
    type V = UpdateMemberView;

    open spec fn view(&self) -> UpdateMemberView {
        UpdateMemberView {
            display_name: self.display_name.deep_view(),
            email: self.email.deep_view(),
            active: self.active,
            tags: self.tags.deep_view(),
            color: self.color.deep_view(),
            expected_version: match self.expected_version {
                Some(v) => Some(v as int),
                None => None,
            },
        }
    }
}

/// The member that a successful update leaves behind: requested fields
/// replace the old ones, absent fields keep their previous value, the
/// version advances by exactly one, and the timestamp becomes `ts`.
pub open spec fn merged_member(m: MemberView, u: UpdateMemberView, ts: Seq<char>) -> MemberView {
    MemberView {
        id: m.id,
        display_name: match u.display_name {
            Some(d) => d,
            None => m.display_name,
        },
        email: match u.email {
            Some(e) => Some(e),
            None => m.email,
        },
        active: match u.active {
            Some(a) => a,
            None => m.active,
        },
        tags: match u.tags {
            Some(t) => Some(t),
            None => m.tags,
        },
        color: match u.color {
            Some(c) => Some(c),
            None => m.color,
        },
        updated_at: ts,
        version: m.version + 1,
    }
}

} // verus!
