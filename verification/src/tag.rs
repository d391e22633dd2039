//! Tag records and the request shapes that create and update them.

use vstd::prelude::*;
use crate::text::clone_opt_string;
use crate::text::clone_opt_vec_string;

verus! {

/// Mathematical model of a tag record.
#[verifier::ext_equal]
pub struct TagView {
    pub id: Seq<char>,
    pub name: Seq<char>,
    pub search_keywords: Option<Seq<Seq<char>>>,
    pub hinweise: Option<Seq<char>>,
    pub copy_paste_text: Option<Seq<char>>,
    pub color: Option<Seq<char>>,
    pub is_super_tag: Option<bool>,
    pub is_gvpl_tag: Option<bool>,
    pub created_at: Seq<char>,
    pub modified_at: Seq<char>,
    pub created_by: Seq<char>,
    pub version: int,
}

/// A reusable tag for categorizing topics.
#[derive(Debug)]
pub struct Tag {
    pub id: String,
    pub name: String,
    pub search_keywords: Option<Vec<String>>,
    pub hinweise: Option<String>,
    pub copy_paste_text: Option<String>,
    pub color: Option<String>,
    pub is_super_tag: Option<bool>,
    pub is_gvpl_tag: Option<bool>,
    pub created_at: String,
    pub modified_at: String,
    pub created_by: String,
    /// Internal version for optimistic concurrency control
    pub version: i64,
}

impl View for Tag {
    type V = TagView;

    open spec fn view(&self) -> TagView {
        TagView {
            id: self.id@,
            name: self.name@,
            search_keywords: self.search_keywords.deep_view(),
            hinweise: self.hinweise.deep_view(),
            copy_paste_text: self.copy_paste_text.deep_view(),
            color: self.color.deep_view(),
            is_super_tag: self.is_super_tag,
            is_gvpl_tag: self.is_gvpl_tag,
            created_at: self.created_at@,
            modified_at: self.modified_at@,
            created_by: self.created_by@,
            version: self.version as int,
        }
    }
}

impl DeepView for Tag {
    type V = TagView;

    open spec fn deep_view(&self) -> TagView {
        self@
    }
}

impl Clone for Tag {
    fn clone(&self) -> (r: Self)
        ensures
            r@ == self@,
    {
        let r = Tag {
            id: self.id.clone(),
            name: self.name.clone(),
            search_keywords: clone_opt_vec_string(&self.search_keywords),
            hinweise: clone_opt_string(&self.hinweise),
            copy_paste_text: clone_opt_string(&self.copy_paste_text),
            color: clone_opt_string(&self.color),
            is_super_tag: self.is_super_tag,
            is_gvpl_tag: self.is_gvpl_tag,
            created_at: self.created_at.clone(),
            modified_at: self.modified_at.clone(),
            created_by: self.created_by.clone(),
            version: self.version,
        };
        proof {
            assert(r@ =~= self@);
        }
        r
    }
}

/// Mathematical model of a tag-creation request.
#[verifier::ext_equal]
pub struct CreateTagView {
    pub name: Seq<char>,
    pub search_keywords: Option<Seq<Seq<char>>>,
    pub hinweise: Option<Seq<char>>,
    pub copy_paste_text: Option<Seq<char>>,
    pub color: Option<Seq<char>>,
    pub is_super_tag: Option<bool>,
    pub is_gvpl_tag: Option<bool>,
    pub created_by: Seq<char>,
}

/// Request body for creating a new tag.
pub struct CreateTagRequest {
    pub name: String,
    pub search_keywords: Option<Vec<String>>,
    pub hinweise: Option<String>,
    pub copy_paste_text: Option<String>,
    pub color: Option<String>,
    pub is_super_tag: Option<bool>,
    pub is_gvpl_tag: Option<bool>,
    /// Member ID of the creator
    pub created_by: String,
}

impl View for CreateTagRequest {
    type V = CreateTagView;

    open spec fn view(&self) -> CreateTagView {
        CreateTagView {
            name: self.name@,
            search_keywords: self.search_keywords.deep_view(),
            hinweise: self.hinweise.deep_view(),
            copy_paste_text: self.copy_paste_text.deep_view(),
            color: self.color.deep_view(),
            is_super_tag: self.is_super_tag,
            is_gvpl_tag: self.is_gvpl_tag,
            created_by: self.created_by@,
        }
    }
}

/// Mathematical model of a tag-update request.
#[verifier::ext_equal]
pub struct UpdateTagView {
    pub name: Option<Seq<char>>,
    pub search_keywords: Option<Seq<Seq<char>>>,
    pub hinweise: Option<Seq<char>>,
    pub copy_paste_text: Option<Seq<char>>,
    pub color: Option<Seq<char>>,
    pub is_super_tag: Option<bool>,
    pub is_gvpl_tag: Option<bool>,
    pub expected_version: Option<int>,
}

/// Request body for updating an existing tag. Fields left `None` keep their
/// previous value.
pub struct UpdateTagRequest {
    pub name: Option<String>,
    pub search_keywords: Option<Vec<String>>,
    pub hinweise: Option<String>,
    pub copy_paste_text: Option<String>,
    pub color: Option<String>,
    pub is_super_tag: Option<bool>,
    pub is_gvpl_tag: Option<bool>,
    /// Expected version for optimistic concurrency control
    pub expected_version: Option<i64>,
}

impl View for UpdateTagRequest {
    type V = UpdateTagView;

    open spec fn view(&self) -> UpdateTagView {
        UpdateTagView {
            name: self.name.deep_view(),
            search_keywords: self.search_keywords.deep_view(),
            hinweise: self.hinweise.deep_view(),
            copy_paste_text: self.copy_paste_text.deep_view(),
            color: self.color.deep_view(),
            is_super_tag: self.is_super_tag,
            is_gvpl_tag: self.is_gvpl_tag,
            expected_version: match self.expected_version {
                Some(v) => Some(v as int),
                None => None,
            },
        }
    }
}

/// The tag that a successful update leaves behind: requested fields replace
/// the old ones, absent fields keep their previous value, `created_at` and
/// `created_by` are immutable, the version advances by exactly one, and the
/// modification timestamp becomes `ts`.
pub open spec fn merged_tag(t: TagView, u: UpdateTagView, ts: Seq<char>) -> TagView {
    TagView {
        id: t.id,
        name: match u.name {
            Some(n) => n,
            None => t.name,
        },
        search_keywords: match u.search_keywords {
            Some(k) => Some(k),
            None => t.search_keywords,
        },
        hinweise: match u.hinweise {
            Some(h) => Some(h),
            None => t.hinweise,
        },
        copy_paste_text: match u.copy_paste_text {
            Some(c) => Some(c),
            None => t.copy_paste_text,
        },
        color: match u.color {
            Some(c) => Some(c),
            None => t.color,
        },
        is_super_tag: match u.is_super_tag {
            Some(b) => Some(b),
            None => t.is_super_tag,
        },
        is_gvpl_tag: match u.is_gvpl_tag {
            Some(b) => Some(b),
            None => t.is_gvpl_tag,
        },
        created_at: t.created_at,
        modified_at: ts,
        created_by: t.created_by,
        version: t.version + 1,
    }
}

} // verus!
