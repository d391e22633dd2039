//! Snapshot aggregates: the full datastore built on demand, and the
//! revision information clients use for change detection.

use vstd::prelude::*;
use crate::member::MemberView;
use crate::member::TeamMember;
use crate::tag::Tag;
use crate::tag::TagView;
use crate::topic::Topic;
use crate::topic::TopicView;

verus! {

/// Mathematical model of a datastore snapshot.
#[verifier::ext_equal]
pub struct DatastoreView {
    pub schema_version: int,
    pub generated_at: Seq<char>,
    pub revision_id: int,
    pub members: Seq<MemberView>,
    pub topics: Seq<TopicView>,
    pub tags: Option<Seq<TagView>>,
}

/// The root datastore containing all application data, built on demand as a
/// snapshot; it is derived, never stored.
pub struct Datastore {
    pub schema_version: i32,
    pub generated_at: String,
    pub revision_id: i64,
    pub members: Vec<TeamMember>,
    pub topics: Vec<Topic>,
    pub tags: Option<Vec<Tag>>,
}

impl View for Datastore {
    type V = DatastoreView;

    open spec fn view(&self) -> DatastoreView {
        DatastoreView {
            schema_version: self.schema_version as int,
            generated_at: self.generated_at@,
            revision_id: self.revision_id as int,
            members: self.members.deep_view(),
            topics: self.topics.deep_view(),
            tags: match self.tags {
                Some(ts) => Some(ts.deep_view()),
                None => None,
            },
        }
    }
}

/// Mathematical model of the revision information.
#[verifier::ext_equal]
pub struct RevisionInfoView {
    pub revision_id: int,
    pub generated_at: Seq<char>,
}

/// Revision information for change detection.
pub struct RevisionInfo {
    pub revision_id: i64,
    pub generated_at: String,
}

impl View for RevisionInfo {
    type V = RevisionInfoView;

    open spec fn view(&self) -> RevisionInfoView {
        RevisionInfoView {
            revision_id: self.revision_id as int,
            generated_at: self.generated_at@,
        }
    }
}

impl Clone for RevisionInfo {
    fn clone(&self) -> (r: Self)
        ensures
            r@ == self@,
    {
        RevisionInfo {
            revision_id: self.revision_id,
            generated_at: self.generated_at.clone(),
        }
    }
}

} // verus!
