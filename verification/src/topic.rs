//! Topic records: responsibility assignments with a RACI matrix, a validity
//! window and search keywords, plus the request shapes that create and
//! update them.

use vstd::prelude::*;
use crate::text::clone_opt_string;
use crate::text::str_eq;
use crate::text::clone_vec_string;
use crate::text::clone_opt_vec_string;

verus! {

/// T-shirt size classification for effort estimation.
#[derive(Clone, Copy, Debug, PartialEq, Eq, Structural)]
pub enum TShirtSize {
    XXS,
    XS,
    S,
    M,
    L,
    XL,
    XXL,
}

/// The label `TShirtSize::as_str` returns for each size.
pub open spec fn size_label(s: TShirtSize) -> Seq<char> {
    match s {
        TShirtSize::XXS => "XXS"@,
        TShirtSize::XS => "XS"@,
        TShirtSize::S => "S"@,
        TShirtSize::M => "M"@,
        TShirtSize::L => "L"@,
        TShirtSize::XL => "XL"@,
        TShirtSize::XXL => "XXL"@,
    }
}

/// The size whose label is `s`, if any.
pub open spec fn size_from_label(s: Seq<char>) -> Option<TShirtSize> {
    if s == "XXS"@ {
        Some(TShirtSize::XXS)
    } else if s == "XS"@ {
        Some(TShirtSize::XS)
    } else if s == "S"@ {
        Some(TShirtSize::S)
    } else if s == "M"@ {
        Some(TShirtSize::M)
    } else if s == "L"@ {
        Some(TShirtSize::L)
    } else if s == "XL"@ {
        Some(TShirtSize::XL)
    } else if s == "XXL"@ {
        Some(TShirtSize::XXL)
    } else {
        None
    }
}

impl TShirtSize {
    /// The textual label of this size.
    pub fn as_str(&self) -> (r: &'static str)
        ensures
            r@ == size_label(*self),
    {
        match self {
            TShirtSize::XXS => "XXS",
            TShirtSize::XS => "XS",
            TShirtSize::S => "S",
            TShirtSize::M => "M",
            TShirtSize::L => "L",
            TShirtSize::XL => "XL",
            TShirtSize::XXL => "XXL",
        }
    }

    /// Parse a size from its textual label.
    pub fn from_str(s: &str) -> (r: Option<TShirtSize>)
        ensures
            r == size_from_label(s@),
    {
        if str_eq(s, "XXS") {
            Some(TShirtSize::XXS)
        } else if str_eq(s, "XS") {
            Some(TShirtSize::XS)
        } else if str_eq(s, "S") {
            Some(TShirtSize::S)
        } else if str_eq(s, "M") {
            Some(TShirtSize::M)
        } else if str_eq(s, "L") {
            Some(TShirtSize::L)
        } else if str_eq(s, "XL") {
            Some(TShirtSize::XL)
        } else if str_eq(s, "XXL") {
            Some(TShirtSize::XXL)
        } else {
            None
        }
    }
}

/// Mathematical model of a topic's validity window.
#[verifier::ext_equal]
pub struct ValidityView {
    pub always_valid: bool,
    pub valid_from: Option<Seq<char>>,
    pub valid_to: Option<Seq<char>>,
}

/// Time-based validity for a topic: either always valid, or bounded by
/// `valid_from` / `valid_to` timestamps.
#[derive(Debug)]
pub struct TopicValidity {
    pub always_valid: bool,
    pub valid_from: Option<String>,
    pub valid_to: Option<String>,
}

impl View for TopicValidity {
    type V = ValidityView;

    open spec fn view(&self) -> ValidityView {
        ValidityView {
            always_valid: self.always_valid,
            valid_from: self.valid_from.deep_view(),
            valid_to: self.valid_to.deep_view(),
        }
    }
}

impl Clone for TopicValidity {
    fn clone(&self) -> (r: Self)
        ensures
            r@ == self@,
    {
        TopicValidity {
            always_valid: self.always_valid,
            valid_from: clone_opt_string(&self.valid_from),
            valid_to: clone_opt_string(&self.valid_to),
        }
    }
}

impl Default for TopicValidity {
    /// A fresh validity window is unbounded.
    fn default() -> (r: Self)
        ensures
            r@ == (ValidityView { always_valid: true, valid_from: None, valid_to: None }),
    {
        TopicValidity { always_valid: true, valid_from: None, valid_to: None }
    }
}

/// Mathematical model of a topic's RACI assignment.
#[verifier::ext_equal]
pub struct RaciView {
    pub r1_member_id: Seq<char>,
    pub r2_member_id: Option<Seq<char>>,
    pub r3_member_id: Option<Seq<char>>,
    pub c_member_ids: Seq<Seq<char>>,
    pub i_member_ids: Seq<Seq<char>>,
}

/// RACI responsibility matrix for a topic: one primary responsible member,
/// up to two secondary responsible members, and sets of consulted and
/// informed members.
#[derive(Debug)]
pub struct TopicRaci {
    pub r1_member_id: String,
    pub r2_member_id: Option<String>,
    pub r3_member_id: Option<String>,
    pub c_member_ids: Vec<String>,
    pub i_member_ids: Vec<String>,
}

impl View for TopicRaci {
    type V = RaciView;

    open spec fn view(&self) -> RaciView {
        RaciView {
            r1_member_id: self.r1_member_id@,
            r2_member_id: self.r2_member_id.deep_view(),
            r3_member_id: self.r3_member_id.deep_view(),
            c_member_ids: self.c_member_ids.deep_view(),
            i_member_ids: self.i_member_ids.deep_view(),
        }
    }
}

impl Clone for TopicRaci {
    fn clone(&self) -> (r: Self)
        ensures
            r@ == self@,
    {
        let r = TopicRaci {
            r1_member_id: self.r1_member_id.clone(),
            r2_member_id: clone_opt_string(&self.r2_member_id),
            r3_member_id: clone_opt_string(&self.r3_member_id),
            c_member_ids: clone_vec_string(&self.c_member_ids),
            i_member_ids: clone_vec_string(&self.i_member_ids),
        };
        proof {
            assert(r@ =~= self@);
        }
        r
    }
}

/// Mathematical model of a topic record.
#[verifier::ext_equal]
pub struct TopicView {
    pub id: Seq<char>,
    pub header: Seq<char>,
    pub description: Option<Seq<char>>,
    pub tags: Option<Seq<Seq<char>>>,
    pub search_keywords: Option<Seq<Seq<char>>>,
    pub validity: ValidityView,
    pub notes: Option<Seq<char>>,
    pub raci: RaciView,
    pub updated_at: Seq<char>,
    pub priority: Option<i32>,
    pub has_file_number: Option<bool>,
    pub file_number: Option<Seq<char>>,
    pub has_shared_file_path: Option<bool>,
    pub shared_file_path: Option<Seq<char>>,
    pub size: Option<TShirtSize>,
    pub version: int,
}

/// A topic representing organizational responsibilities.
#[derive(Debug)]
pub struct Topic {
    pub id: String,
    pub header: String,
    pub description: Option<String>,
    pub tags: Option<Vec<String>>,
    pub search_keywords: Option<Vec<String>>,
    pub validity: TopicValidity,
    pub notes: Option<String>,
    pub raci: TopicRaci,
    pub updated_at: String,
    pub priority: Option<i32>,
    pub has_file_number: Option<bool>,
    pub file_number: Option<String>,
    pub has_shared_file_path: Option<bool>,
    pub shared_file_path: Option<String>,
    pub size: Option<TShirtSize>,
    /// Internal version for optimistic concurrency control
    pub version: i64,
}

impl View for Topic {
    type V = TopicView;

    open spec fn view(&self) -> TopicView {
        TopicView {
            id: self.id@,
            header: self.header@,
            description: self.description.deep_view(),
            tags: self.tags.deep_view(),
            search_keywords: self.search_keywords.deep_view(),
            validity: self.validity@,
            notes: self.notes.deep_view(),
            raci: self.raci@,
            updated_at: self.updated_at@,
            priority: self.priority,
            has_file_number: self.has_file_number,
            file_number: self.file_number.deep_view(),
            has_shared_file_path: self.has_shared_file_path,
            shared_file_path: self.shared_file_path.deep_view(),
            size: self.size,
            version: self.version as int,
        }
    }
}

impl DeepView for Topic {
    type V = TopicView;

    open spec fn deep_view(&self) -> TopicView {
        self@
    }
}

impl Clone for Topic {
    fn clone(&self) -> (r: Self)
        ensures
            r@ == self@,
    {
        let r = Topic {
            id: self.id.clone(),
            header: self.header.clone(),
            description: clone_opt_string(&self.description),
            tags: clone_opt_vec_string(&self.tags),
            search_keywords: clone_opt_vec_string(&self.search_keywords),
            validity: self.validity.clone(),
            notes: clone_opt_string(&self.notes),
            raci: self.raci.clone(),
            updated_at: self.updated_at.clone(),
            priority: self.priority,
            has_file_number: self.has_file_number,
            file_number: clone_opt_string(&self.file_number),
            has_shared_file_path: self.has_shared_file_path,
            shared_file_path: clone_opt_string(&self.shared_file_path),
            size: self.size,
            version: self.version,
        };
        proof {
            assert(r@ =~= self@);
        }
        r
    }
}

/// Mathematical model of a topic-creation request.
#[verifier::ext_equal]
pub struct CreateTopicView {
    pub header: Seq<char>,
    pub description: Option<Seq<char>>,
    pub tags: Option<Seq<Seq<char>>>,
    pub search_keywords: Option<Seq<Seq<char>>>,
    pub validity: Option<ValidityView>,
    pub notes: Option<Seq<char>>,
    pub raci: RaciView,
    pub priority: Option<i32>,
    pub has_file_number: Option<bool>,
    pub file_number: Option<Seq<char>>,
    pub has_shared_file_path: Option<bool>,
    pub shared_file_path: Option<Seq<char>>,
    pub size: Option<TShirtSize>,
}

/// Request body for creating a new topic.
pub struct CreateTopicRequest {
    pub header: String,
    pub description: Option<String>,
    pub tags: Option<Vec<String>>,
    pub search_keywords: Option<Vec<String>>,
    pub validity: Option<TopicValidity>,
    pub notes: Option<String>,
    pub raci: TopicRaci,
    pub priority: Option<i32>,
    pub has_file_number: Option<bool>,
    pub file_number: Option<String>,
    pub has_shared_file_path: Option<bool>,
    pub shared_file_path: Option<String>,
    pub size: Option<TShirtSize>,
}

impl View for CreateTopicRequest {
    type V = CreateTopicView;

    open spec fn view(&self) -> CreateTopicView {
        CreateTopicView {
            header: self.header@,
            description: self.description.deep_view(),
            tags: self.tags.deep_view(),
            search_keywords: self.search_keywords.deep_view(),
            validity: match self.validity {
                Some(v) => Some(v@),
                None => None,
            },
            notes: self.notes.deep_view(),
            raci: self.raci@,
            priority: self.priority,
            has_file_number: self.has_file_number,
            file_number: self.file_number.deep_view(),
            has_shared_file_path: self.has_shared_file_path,
            shared_file_path: self.shared_file_path.deep_view(),
            size: self.size,
        }
    }
}

/// Mathematical model of a topic-update request.
#[verifier::ext_equal]
pub struct UpdateTopicView {
    pub header: Option<Seq<char>>,
    pub description: Option<Seq<char>>,
    pub tags: Option<Seq<Seq<char>>>,
    pub search_keywords: Option<Seq<Seq<char>>>,
    pub validity: Option<ValidityView>,
    pub notes: Option<Seq<char>>,
    pub raci: Option<RaciView>,
    pub priority: Option<i32>,
    pub has_file_number: Option<bool>,
    pub file_number: Option<Seq<char>>,
    pub has_shared_file_path: Option<bool>,
    pub shared_file_path: Option<Seq<char>>,
    pub size: Option<TShirtSize>,
    pub expected_version: Option<int>,
}

/// Request body for updating an existing topic. Fields left `None` keep
/// their previous value.
pub struct UpdateTopicRequest {
    pub header: Option<String>,
    pub description: Option<String>,
    pub tags: Option<Vec<String>>,
    pub search_keywords: Option<Vec<String>>,
    pub validity: Option<TopicValidity>,
    pub notes: Option<String>,
    pub raci: Option<TopicRaci>,
    pub priority: Option<i32>,
    pub has_file_number: Option<bool>,
    pub file_number: Option<String>,
    pub has_shared_file_path: Option<bool>,
    pub shared_file_path: Option<String>,
    pub size: Option<TShirtSize>,
    /// Expected version for optimistic concurrency control
    pub expected_version: Option<i64>,
}

impl View for UpdateTopicRequest {
    type V = UpdateTopicView;

    open spec fn view(&self) -> UpdateTopicView {
        UpdateTopicView {
            header: self.header.deep_view(),
            description: self.description.deep_view(),
            tags: self.tags.deep_view(),
            search_keywords: self.search_keywords.deep_view(),
            validity: match self.validity {
                Some(v) => Some(v@),
                None => None,
            },
            notes: self.notes.deep_view(),
            raci: match self.raci {
                Some(r) => Some(r@),
                None => None,
            },
            priority: self.priority,
            has_file_number: self.has_file_number,
            file_number: self.file_number.deep_view(),
            has_shared_file_path: self.has_shared_file_path,
            shared_file_path: self.shared_file_path.deep_view(),
            size: self.size,
            expected_version: match self.expected_version {
                Some(v) => Some(v as int),
                None => None,
            },
        }
    }
}

/// The topic that a successful update leaves behind: requested fields
/// replace the old ones, absent fields keep their previous value, the
/// version advances by exactly one, and the timestamp becomes `ts`.
pub open spec fn merged_topic(t: TopicView, u: UpdateTopicView, ts: Seq<char>) -> TopicView {
    TopicView {
        id: t.id,
        header: match u.header {
            Some(h) => h,
            None => t.header,
        },
        description: match u.description {
            Some(d) => Some(d),
            None => t.description,
        },
        tags: match u.tags {
            Some(x) => Some(x),
            None => t.tags,
        },
        search_keywords: match u.search_keywords {
            Some(x) => Some(x),
            None => t.search_keywords,
        },
        validity: match u.validity {
            Some(v) => v,
            None => t.validity,
        },
        notes: match u.notes {
            Some(n) => Some(n),
            None => t.notes,
        },
        raci: match u.raci {
            Some(r) => r,
            None => t.raci,
        },
        updated_at: ts,
        priority: match u.priority {
            Some(p) => Some(p),
            None => t.priority,
        },
        has_file_number: match u.has_file_number {
            Some(b) => Some(b),
            None => t.has_file_number,
        },
        file_number: match u.file_number {
            Some(f) => Some(f),
            None => t.file_number,
        },
        has_shared_file_path: match u.has_shared_file_path {
            Some(b) => Some(b),
            None => t.has_shared_file_path,
        },
        shared_file_path: match u.shared_file_path {
            Some(p) => Some(p),
            None => t.shared_file_path,
        },
        size: match u.size {
            Some(s) => Some(s),
            None => t.size,
        },
        version: t.version + 1,
    }
}

/// Request body for batch updating topics.
pub struct BatchUpdateTopicsRequest {
    pub updates: Vec<BatchTopicUpdate>,
}

/// Mathematical model of a single entry in a batch update.
#[verifier::ext_equal]
pub struct BatchItemView {
    pub topic_id: Seq<char>,
    pub changes: UpdateTopicView,
}

/// Single topic update in a batch operation.
pub struct BatchTopicUpdate {
    pub topic_id: String,
    pub changes: UpdateTopicRequest,
}

impl View for BatchTopicUpdate {
    type V = BatchItemView;

    open spec fn view(&self) -> BatchItemView {
        BatchItemView { topic_id: self.topic_id@, changes: self.changes@ }
    }
}

impl DeepView for BatchTopicUpdate {
    type V = BatchItemView;

    open spec fn deep_view(&self) -> BatchItemView {
        self@
    }
}

} // verus!
