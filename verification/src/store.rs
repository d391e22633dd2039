//! The versioned record store: the authoritative, in-memory state of the
//! service. It owns all member, tag and topic records, a per-record version
//! used as the sole optimistic-concurrency token, and the global revision
//! counter that advances by exactly one per committed logical write.
//!
//! Persistence and transport sit outside this module: callers durably record
//! each committed state and feed the search index from the returned records.

use vstd::prelude::*;
use crate::datastore::Datastore;
use crate::datastore::RevisionInfo;
use crate::errors::AppError;
use crate::member::CreateMemberRequest;
use crate::member::CreateMemberView;
use crate::member::MemberView;
use crate::member::TeamMember;
use crate::member::UpdateMemberRequest;
use crate::member::UpdateMemberView;
use crate::member::merged_member;
use crate::tag::CreateTagRequest;
use crate::tag::CreateTagView;
use crate::tag::Tag;
use crate::tag::TagView;
use crate::tag::UpdateTagRequest;
use crate::tag::UpdateTagView;
use crate::tag::merged_tag;
use crate::text::blank;
use crate::text::clone_opt_string;
use crate::text::clone_vec_string;
use crate::text::clone_opt_vec_string;
use crate::text::is_blank;
use crate::text::lemma_lex_le_total;
use crate::text::lemma_lex_le_trans;
use crate::text::lex_le;
use crate::text::str_eq;
use crate::text::str_le;
use crate::topic::BatchItemView;
use crate::topic::BatchTopicUpdate;
use crate::topic::CreateTopicRequest;
use crate::topic::CreateTopicView;
use crate::topic::Topic;
use crate::topic::TopicValidity;
use crate::topic::TopicView;
use crate::topic::UpdateTopicRequest;
use crate::topic::UpdateTopicView;
use crate::topic::ValidityView;
use crate::topic::merged_topic;
use vstd::string::StringExecFns;

verus! {

/// Relies on chrono's `Utc::now` and `DateTime::to_rfc3339`: the current
/// wall-clock time rendered as an RFC 3339 timestamp. The result depends on
/// the clock, so nothing is promised of it.
#[verifier::external_body]
fn now_rfc3339() -> String {
    chrono::Utc::now().to_rfc3339()
}

/// Relies on uuid's `Uuid::new_v4` and its `Display` impl: a random
/// version-4 UUID in hyphenated form. The result depends on a random
/// generator, so nothing is promised of it; the store checks freshness of
/// every generated identity itself.
#[verifier::external_body]
fn fresh_uuid() -> String {
    uuid::Uuid::new_v4().to_string()
}

/// Mathematical model of the whole store.
#[verifier::ext_equal]
pub struct StoreView {
    pub schema_version: int,
    pub revision_id: int,
    pub generated_at: Seq<char>,
    pub members: Seq<MemberView>,
    pub tags: Seq<TagView>,
    pub topics: Seq<TopicView>,
}

/// There is a member record with this identity.
pub open spec fn contains_member(s: Seq<MemberView>, id: Seq<char>) -> bool {
    exists|i: int| 0 <= i < s.len() && s[i].id == id
}

/// The index of the member record with this identity.
pub open spec fn member_index(s: Seq<MemberView>, id: Seq<char>) -> int {
    choose|i: int| 0 <= i < s.len() && s[i].id == id
}

/// The member record with this identity.
pub open spec fn member_at(s: Seq<MemberView>, id: Seq<char>) -> MemberView {
    s[member_index(s, id)]
}

/// No two member records share an identity.
pub open spec fn member_ids_unique(s: Seq<MemberView>) -> bool {
    forall|i: int, j: int|
        0 <= i < s.len() && 0 <= j < s.len() && i != j ==> s[i].id != s[j].id
}

/// With unique identities, any index holding `id` is the index `member_index`
/// picks, so `member_at` is the record found at that index.
pub proof fn lemma_member_lookup(s: Seq<MemberView>, id: Seq<char>, j: int)
    requires
        member_ids_unique(s),
        0 <= j < s.len(),
        s[j].id == id,
    ensures
        contains_member(s, id),
        member_index(s, id) == j,
        member_at(s, id) == s[j],
{
    assert(contains_member(s, id));
    let k = member_index(s, id);
    assert(0 <= k < s.len() && s[k].id == id);
    if k != j {
        assert(s[k].id != s[j].id);
    }
}

impl StoreView {
    /// Well-formedness: the revision is non-negative, identities are unique
    /// within each record kind, and every version is positive.
    pub open spec fn wf(self) -> bool {
        &&& 0 <= self.revision_id
        &&& member_ids_unique(self.members)
        &&& tag_ids_unique(self.tags)
        &&& topic_ids_unique(self.topics)
        &&& forall|i: int| 0 <= i < self.members.len() ==> 1 <= #[trigger] self.members[i].version
        &&& forall|i: int| 0 <= i < self.tags.len() ==> 1 <= #[trigger] self.tags[i].version
        &&& forall|i: int| 0 <= i < self.topics.len() ==> 1 <= #[trigger] self.topics[i].version
    }
}

/// There is a tag record with this identity.
pub open spec fn contains_tag(s: Seq<TagView>, id: Seq<char>) -> bool {
    exists|i: int| 0 <= i < s.len() && s[i].id == id
}

/// The index of the tag record with this identity.
pub open spec fn tag_index(s: Seq<TagView>, id: Seq<char>) -> int {
    choose|i: int| 0 <= i < s.len() && s[i].id == id
}

/// The tag record with this identity.
pub open spec fn tag_at(s: Seq<TagView>, id: Seq<char>) -> TagView {
    s[tag_index(s, id)]
}

/// No two tag records share an identity.
pub open spec fn tag_ids_unique(s: Seq<TagView>) -> bool {
    forall|i: int, j: int|
        0 <= i < s.len() && 0 <= j < s.len() && i != j ==> s[i].id != s[j].id
}

/// With unique identities, any index holding `id` is the index `tag_index`
/// picks.
pub proof fn lemma_tag_lookup(s: Seq<TagView>, id: Seq<char>, j: int)
    requires
        tag_ids_unique(s),
        0 <= j < s.len(),
        s[j].id == id,
    ensures
        contains_tag(s, id),
        tag_index(s, id) == j,
        tag_at(s, id) == s[j],
{
    assert(contains_tag(s, id));
    let k = tag_index(s, id);
    assert(0 <= k < s.len() && s[k].id == id);
    if k != j {
        assert(s[k].id != s[j].id);
    }
}

/// There is a topic record with this identity.
pub open spec fn contains_topic(s: Seq<TopicView>, id: Seq<char>) -> bool {
    exists|i: int| 0 <= i < s.len() && s[i].id == id
}

/// The index of the topic record with this identity.
pub open spec fn topic_index(s: Seq<TopicView>, id: Seq<char>) -> int {
    choose|i: int| 0 <= i < s.len() && s[i].id == id
}

/// The topic record with this identity.
pub open spec fn topic_at(s: Seq<TopicView>, id: Seq<char>) -> TopicView {
    s[topic_index(s, id)]
}

/// No two topic records share an identity.
pub open spec fn topic_ids_unique(s: Seq<TopicView>) -> bool {
    forall|i: int, j: int|
        0 <= i < s.len() && 0 <= j < s.len() && i != j ==> s[i].id != s[j].id
}

/// With unique identities, any index holding `id` is the index `topic_index`
/// picks.
pub proof fn lemma_topic_lookup(s: Seq<TopicView>, id: Seq<char>, j: int)
    requires
        topic_ids_unique(s),
        0 <= j < s.len(),
        s[j].id == id,
    ensures
        contains_topic(s, id),
        topic_index(s, id) == j,
        topic_at(s, id) == s[j],
{
    assert(contains_topic(s, id));
    let k = topic_index(s, id);
    assert(0 <= k < s.len() && s[k].id == id);
    if k != j {
        assert(s[k].id != s[j].id);
    }
}

/// The revision advanced by exactly one; every record and the schema version
/// are untouched. The generation timestamp is refreshed and unconstrained.
pub open spec fn bumped(s0: StoreView, s1: StoreView) -> bool {
    &&& s1.revision_id == s0.revision_id + 1
    &&& s1.schema_version == s0.schema_version
    &&& s1.members == s0.members
    &&& s1.tags == s0.tags
    &&& s1.topics == s0.topics
}

/// Everything but the member list and the revision is untouched.
pub open spec fn tags_topics_unchanged(s0: StoreView, s1: StoreView) -> bool {
    &&& s1.schema_version == s0.schema_version
    &&& s1.tags == s0.tags
    &&& s1.topics == s0.topics
}

/// Everything but the tag list and the revision is untouched.
pub open spec fn members_topics_unchanged(s0: StoreView, s1: StoreView) -> bool {
    &&& s1.schema_version == s0.schema_version
    &&& s1.members == s0.members
    &&& s1.topics == s0.topics
}

/// Everything but the topic list and the revision is untouched.
pub open spec fn members_tags_unchanged(s0: StoreView, s1: StoreView) -> bool {
    &&& s1.schema_version == s0.schema_version
    &&& s1.members == s0.members
    &&& s1.tags == s0.tags
}

/// A member-creation request is valid when the display name is not blank.
pub open spec fn valid_create_member(r: CreateMemberView) -> bool {
    !blank(r.display_name)
}

/// The member record a successful creation adds: the requested fields, a
/// server-assigned identity and timestamp, and version 1.
pub open spec fn created_member(req: CreateMemberView, id: Seq<char>, ts: Seq<char>) -> MemberView {
    MemberView {
        id: id,
        display_name: req.display_name,
        email: req.email,
        active: req.active,
        tags: req.tags,
        color: req.color,
        updated_at: ts,
        version: 1,
    }
}

/// A successful member creation: the request was valid, the new identity is
/// fresh, the record is appended with version 1, and the revision advanced
/// by exactly one.
pub open spec fn create_member_ok(
    s0: StoreView,
    req: CreateMemberView,
    m: MemberView,
    s1: StoreView,
) -> bool {
    &&& valid_create_member(req)
    &&& !contains_member(s0.members, m.id)
    &&& m == created_member(req, m.id, m.updated_at)
    &&& s1.members == s0.members.push(m)
    &&& s1.revision_id == s0.revision_id + 1
    &&& tags_topics_unchanged(s0, s1)
}

/// A member update must fail exactly when the record is missing, the
/// caller's expected version does not match, or a counter would overflow.
pub open spec fn update_member_fails(s0: StoreView, id: Seq<char>, u: UpdateMemberView) -> bool {
    ||| !contains_member(s0.members, id)
    ||| (u.expected_version matches Some(v) && v != member_at(s0.members, id).version)
    ||| member_at(s0.members, id).version == i64::MAX
    ||| s0.revision_id == i64::MAX
}

/// Which error a failed member update reports: `NotFound` for a missing
/// record; otherwise `Conflict` carrying the authoritative current version
/// when the expected version does not match; otherwise (a counter at its
/// bound) `Internal`.
pub open spec fn update_member_err(s0: StoreView, id: Seq<char>, u: UpdateMemberView, e: AppError) -> bool {
    if !contains_member(s0.members, id) {
        e is NotFound
    } else if u.expected_version matches Some(v) && v != member_at(s0.members, id).version {
        e matches AppError::Conflict { current_version, .. }
            && current_version == member_at(s0.members, id).version
    } else {
        e is Internal
    }
}

/// A successful member update: the stored record and the returned record are
/// both the shallow merge of the old record with the request, the version
/// advanced by exactly one, and the revision advanced by exactly one.
pub open spec fn update_member_ok(
    s0: StoreView,
    id: Seq<char>,
    u: UpdateMemberView,
    m: MemberView,
    s1: StoreView,
) -> bool {
    &&& contains_member(s0.members, id)
    &&& match u.expected_version {
        Some(v) => v == member_at(s0.members, id).version,
        None => true,
    }
    &&& m == merged_member(member_at(s0.members, id), u, m.updated_at)
    &&& s1.members == s0.members.update(member_index(s0.members, id), m)
    &&& s1.revision_id == s0.revision_id + 1
    &&& tags_topics_unchanged(s0, s1)
}


/// A tag-creation request is valid when the tag name and the creating
/// member's identity are not blank.
pub open spec fn valid_create_tag(r: CreateTagView) -> bool {
    !blank(r.name) && !blank(r.created_by)
}

/// The tag record a successful creation adds: the requested fields, a
/// server-assigned identity, creation and modification timestamps both set
/// to `ts`, and version 1.
pub open spec fn created_tag(req: CreateTagView, id: Seq<char>, ts: Seq<char>) -> TagView {
    TagView {
        id: id,
        name: req.name,
        search_keywords: req.search_keywords,
        hinweise: req.hinweise,
        copy_paste_text: req.copy_paste_text,
        color: req.color,
        is_super_tag: req.is_super_tag,
        is_gvpl_tag: req.is_gvpl_tag,
        created_at: ts,
        modified_at: ts,
        created_by: req.created_by,
        version: 1,
    }
}

/// A successful tag creation: the request was valid, the new identity is
/// fresh, the record is appended with version 1, and the revision advanced
/// by exactly one.
pub open spec fn create_tag_ok(
    s0: StoreView,
    req: CreateTagView,
    t: TagView,
    s1: StoreView,
) -> bool {
    &&& valid_create_tag(req)
    &&& !contains_tag(s0.tags, t.id)
    &&& t == created_tag(req, t.id, t.created_at)
    &&& s1.tags == s0.tags.push(t)
    &&& s1.revision_id == s0.revision_id + 1
    &&& members_topics_unchanged(s0, s1)
}

/// A tag update must fail exactly when the record is missing, the caller's
/// expected version does not match, or a counter would overflow.
pub open spec fn update_tag_fails(s0: StoreView, id: Seq<char>, u: UpdateTagView) -> bool {
    ||| !contains_tag(s0.tags, id)
    ||| (u.expected_version matches Some(v) && v != tag_at(s0.tags, id).version)
    ||| tag_at(s0.tags, id).version == i64::MAX
    ||| s0.revision_id == i64::MAX
}

/// Which error a failed tag update reports.
pub open spec fn update_tag_err(s0: StoreView, id: Seq<char>, u: UpdateTagView, e: AppError) -> bool {
    if !contains_tag(s0.tags, id) {
        e is NotFound
    } else if u.expected_version matches Some(v) && v != tag_at(s0.tags, id).version {
        e matches AppError::Conflict { current_version, .. }
            && current_version == tag_at(s0.tags, id).version
    } else {
        e is Internal
    }
}

/// A successful tag update: the stored record and the returned record are
/// both the shallow merge of the old record with the request, the version
/// advanced by exactly one, and the revision advanced by exactly one.
pub open spec fn update_tag_ok(
    s0: StoreView,
    id: Seq<char>,
    u: UpdateTagView,
    t: TagView,
    s1: StoreView,
) -> bool {
    &&& contains_tag(s0.tags, id)
    &&& match u.expected_version {
        Some(v) => v == tag_at(s0.tags, id).version,
        None => true,
    }
    &&& t == merged_tag(tag_at(s0.tags, id), u, t.modified_at)
    &&& s1.tags == s0.tags.update(tag_index(s0.tags, id), t)
    &&& s1.revision_id == s0.revision_id + 1
    &&& members_topics_unchanged(s0, s1)
}

/// A topic-creation request is valid when the header and the primary
/// responsible member are not blank.
pub open spec fn valid_create_topic(r: CreateTopicView) -> bool {
    !blank(r.header) && !blank(r.raci.r1_member_id)
}

/// The topic record a successful creation adds: the requested fields, an
/// unbounded validity window when none was requested, a server-assigned
/// identity and timestamp, and version 1.
pub open spec fn created_topic(req: CreateTopicView, id: Seq<char>, ts: Seq<char>) -> TopicView {
    TopicView {
        id: id,
        header: req.header,
        description: req.description,
        tags: req.tags,
        search_keywords: req.search_keywords,
        validity: match req.validity {
            Some(v) => v,
            None => ValidityView { always_valid: true, valid_from: None, valid_to: None },
        },
        notes: req.notes,
        raci: req.raci,
        updated_at: ts,
        priority: req.priority,
        has_file_number: req.has_file_number,
        file_number: req.file_number,
        has_shared_file_path: req.has_shared_file_path,
        shared_file_path: req.shared_file_path,
        size: req.size,
        version: 1,
    }
}

/// A successful topic creation: the request was valid, the new identity is
/// fresh, the record is appended with version 1, and the revision advanced
/// by exactly one.
pub open spec fn create_topic_ok(
    s0: StoreView,
    req: CreateTopicView,
    t: TopicView,
    s1: StoreView,
) -> bool {
    &&& valid_create_topic(req)
    &&& !contains_topic(s0.topics, t.id)
    &&& t == created_topic(req, t.id, t.updated_at)
    &&& s1.topics == s0.topics.push(t)
    &&& s1.revision_id == s0.revision_id + 1
    &&& members_tags_unchanged(s0, s1)
}

/// A topic update must fail exactly when the record is missing, the
/// caller's expected version does not match, or a counter would overflow.
pub open spec fn update_topic_fails(s0: StoreView, id: Seq<char>, u: UpdateTopicView) -> bool {
    ||| !contains_topic(s0.topics, id)
    ||| (u.expected_version matches Some(v) && v != topic_at(s0.topics, id).version)
    ||| topic_at(s0.topics, id).version == i64::MAX
    ||| s0.revision_id == i64::MAX
}

/// Which error a failed topic update reports.
pub open spec fn update_topic_err(s0: StoreView, id: Seq<char>, u: UpdateTopicView, e: AppError) -> bool {
    if !contains_topic(s0.topics, id) {
        e is NotFound
    } else if u.expected_version matches Some(v) && v != topic_at(s0.topics, id).version {
        e matches AppError::Conflict { current_version, .. }
            && current_version == topic_at(s0.topics, id).version
    } else {
        e is Internal
    }
}

/// A successful topic update: the stored record and the returned record are
/// both the shallow merge of the old record with the request, the version
/// advanced by exactly one, and the revision advanced by exactly one.
pub open spec fn update_topic_ok(
    s0: StoreView,
    id: Seq<char>,
    u: UpdateTopicView,
    t: TopicView,
    s1: StoreView,
) -> bool {
    &&& contains_topic(s0.topics, id)
    &&& match u.expected_version {
        Some(v) => v == topic_at(s0.topics, id).version,
        None => true,
    }
    &&& t == merged_topic(topic_at(s0.topics, id), u, t.updated_at)
    &&& s1.topics == s0.topics.update(topic_index(s0.topics, id), t)
    &&& s1.revision_id == s0.revision_id + 1
    &&& members_tags_unchanged(s0, s1)
}


/// Why a batch entry failed: its topic is missing, its expected version did
/// not match (carrying the authoritative version), or the record's version
/// counter is exhausted.
pub enum BatchFailure {
    NotFound,
    Conflict { current_version: int },
    Exhausted,
}

/// A topic with its timestamp erased. Timestamps are server-assigned, so
/// the batch outcome is computed over timestamp-erased records, on which it
/// does not depend.
pub open spec fn erase_topic_ts(t: TopicView) -> TopicView {
    TopicView { updated_at: Seq::<char>::empty(), ..t }
}

/// A topic list with every timestamp erased.
pub open spec fn erase_topics_ts(ts: Seq<TopicView>) -> Seq<TopicView> {
    ts.map_values(|t: TopicView| erase_topic_ts(t))
}

/// One batch entry applied to a timestamp-erased topic list: the same
/// per-record rule as a single update.
pub open spec fn batch_step(ts: Seq<TopicView>, u: BatchItemView) -> Result<
    Seq<TopicView>,
    BatchFailure,
> {
    if !contains_topic(ts, u.topic_id) {
        Err(BatchFailure::NotFound)
    } else {
        let t = topic_at(ts, u.topic_id);
        let version_ok = match u.changes.expected_version {
            Some(v) => v == t.version,
            None => true,
        };
        if !version_ok {
            Err(BatchFailure::Conflict { current_version: t.version })
        } else if t.version == i64::MAX {
            Err(BatchFailure::Exhausted)
        } else {
            Ok(
                ts.update(
                    topic_index(ts, u.topic_id),
                    merged_topic(t, u.changes, Seq::<char>::empty()),
                ),
            )
        }
    }
}

/// The outcome of applying batch entries in order to a timestamp-erased
/// topic list: the final list, or the first failure. Entries apply to the
/// working state, so an entry sees the versions earlier entries produced.
pub open spec fn batch_outcome(ts: Seq<TopicView>, ups: Seq<BatchItemView>) -> Result<
    Seq<TopicView>,
    BatchFailure,
>
    decreases ups.len(),
{
    if ups.len() == 0 {
        Ok(ts)
    } else {
        match batch_step(ts, ups[0]) {
            Ok(ts2) => batch_outcome(ts2, ups.drop_first()),
            Err(f) => Err(f),
        }
    }
}

/// A fully successful batch over the real (timestamped) records: `outs` are
/// the returned topics in request order, each the shallow merge of the then-
/// current record with its entry, and `fin` is the final topic list.
pub open spec fn batch_applies(
    ts: Seq<TopicView>,
    ups: Seq<BatchItemView>,
    outs: Seq<TopicView>,
    fin: Seq<TopicView>,
) -> bool
    decreases ups.len(),
{
    if ups.len() == 0 {
        outs.len() == 0 && fin == ts
    } else {
        &&& outs.len() == ups.len()
        &&& contains_topic(ts, ups[0].topic_id)
        &&& match ups[0].changes.expected_version {
            Some(v) => v == topic_at(ts, ups[0].topic_id).version,
            None => true,
        }
        &&& topic_at(ts, ups[0].topic_id).version < i64::MAX
        &&& outs[0] == merged_topic(
            topic_at(ts, ups[0].topic_id),
            ups[0].changes,
            outs[0].updated_at,
        )
        &&& batch_applies(
            ts.update(topic_index(ts, ups[0].topic_id), outs[0]),
            ups.drop_first(),
            outs.drop_first(),
            fin,
        )
    }
}

/// Which error a failed batch update reports: `Validation` for an empty
/// batch, `Internal` for an exhausted counter, and otherwise the first
/// failing entry's error, with `Conflict` carrying that record's
/// authoritative version.
pub open spec fn batch_update_err(s0: StoreView, ups: Seq<BatchItemView>, e: AppError) -> bool {
    if ups.len() == 0 {
        e is Validation
    } else if s0.revision_id == i64::MAX {
        e is Internal
    } else {
        match batch_outcome(erase_topics_ts(s0.topics), ups) {
            Ok(_) => false,
            Err(BatchFailure::NotFound) => e is NotFound,
            Err(BatchFailure::Conflict { current_version }) => e matches AppError::Conflict {
                current_version: cv,
                ..
            } && cv == current_version,
            Err(BatchFailure::Exhausted) => e is Internal,
        }
    }
}

/// Erasing timestamps keeps identities, and so keeps lookups: containment,
/// the looked-up index, and the looked-up record up to its timestamp.
pub proof fn lemma_erase_lookup(ts: Seq<TopicView>, id: Seq<char>)
    requires
        topic_ids_unique(ts),
    ensures
        topic_ids_unique(erase_topics_ts(ts)),
        contains_topic(erase_topics_ts(ts), id) == contains_topic(ts, id),
        contains_topic(ts, id) ==> topic_index(erase_topics_ts(ts), id) == topic_index(ts, id),
        contains_topic(ts, id) ==> topic_at(erase_topics_ts(ts), id) == erase_topic_ts(
            topic_at(ts, id),
        ),
{
    let e = erase_topics_ts(ts);
    assert(e.len() == ts.len());
    assert(forall|i: int| 0 <= i < ts.len() ==> #[trigger] e[i] == erase_topic_ts(ts[i]));
    assert(topic_ids_unique(e));
    if contains_topic(ts, id) {
        let j = topic_index(ts, id);
        assert(0 <= j < ts.len() && ts[j].id == id);
        assert(e[j].id == id);
        lemma_topic_lookup(e, id, j);
        lemma_topic_lookup(ts, id, j);
    }
    if contains_topic(e, id) {
        let j = choose|i: int| 0 <= i < e.len() && e[i].id == id;
        assert(ts[j].id == id);
        assert(contains_topic(ts, id));
    }
}

/// Applying one entry commutes with timestamp erasure: on the erased list
/// the step succeeds and produces the erasure of the updated list.
pub proof fn lemma_erase_step(ts: Seq<TopicView>, u: BatchItemView, j: int, m: TopicView)
    requires
        topic_ids_unique(ts),
        0 <= j < ts.len(),
        ts[j].id == u.topic_id,
        match u.changes.expected_version {
            Some(v) => v == ts[j].version,
            None => true,
        },
        ts[j].version < i64::MAX,
        m == merged_topic(ts[j], u.changes, m.updated_at),
    ensures
        batch_step(erase_topics_ts(ts), u) == Ok::<Seq<TopicView>, BatchFailure>(erase_topics_ts(ts.update(j, m))),
{
    lemma_topic_lookup(ts, u.topic_id, j);
    lemma_erase_lookup(ts, u.topic_id);
    let e = erase_topics_ts(ts);
    assert(topic_at(e, u.topic_id) == erase_topic_ts(ts[j]));
    assert(erase_topic_ts(ts[j]).version == ts[j].version);
    let merged_e = merged_topic(erase_topic_ts(ts[j]), u.changes, Seq::<char>::empty());
    assert(merged_e =~= erase_topic_ts(m));
    assert(batch_step(e, u) == Ok::<Seq<TopicView>, BatchFailure>(e.update(j, erase_topic_ts(m))));
    assert(e.update(j, erase_topic_ts(m)) =~= erase_topics_ts(ts.update(j, m)));
}

/// Extending a successful batch prefix by one applicable entry keeps it a
/// successful batch prefix.
pub proof fn lemma_batch_applies_snoc(
    ts: Seq<TopicView>,
    ups: Seq<BatchItemView>,
    outs: Seq<TopicView>,
    mid: Seq<TopicView>,
    u: BatchItemView,
    m: TopicView,
)
    requires
        batch_applies(ts, ups, outs, mid),
        outs.len() == ups.len(),
        contains_topic(mid, u.topic_id),
        match u.changes.expected_version {
            Some(v) => v == topic_at(mid, u.topic_id).version,
            None => true,
        },
        topic_at(mid, u.topic_id).version < i64::MAX,
        m == merged_topic(topic_at(mid, u.topic_id), u.changes, m.updated_at),
    ensures
        batch_applies(
            ts,
            ups.push(u),
            outs.push(m),
            mid.update(topic_index(mid, u.topic_id), m),
        ),
    decreases ups.len(),
{
    let fin = mid.update(topic_index(mid, u.topic_id), m);
    if ups.len() == 0 {
        assert(mid == ts);
        assert(ups.push(u)[0] == u);
        assert(outs.push(m)[0] == m);
        assert(ups.push(u).drop_first() =~= Seq::<BatchItemView>::empty());
        assert(outs.push(m).drop_first() =~= Seq::<TopicView>::empty());
        assert(batch_applies(
            ts.update(topic_index(ts, u.topic_id), m),
            ups.push(u).drop_first(),
            outs.push(m).drop_first(),
            fin,
        ));
    } else {
        let ts2 = ts.update(topic_index(ts, ups[0].topic_id), outs[0]);
        lemma_batch_applies_snoc(ts2, ups.drop_first(), outs.drop_first(), mid, u, m);
        assert(ups.push(u)[0] == ups[0]);
        assert(outs.push(m)[0] == outs[0]);
        assert(ups.push(u).drop_first() =~= ups.drop_first().push(u));
        assert(outs.push(m).drop_first() =~= outs.drop_first().push(m));
        assert(batch_applies(ts2, ups.drop_first().push(u), outs.drop_first().push(m), fin));
    }
}

/// The index of the topic with this identity in a topic list, if present.
fn find_topic_in(topics: &Vec<Topic>, id: &str) -> (r: Option<usize>)
    ensures
        match r {
            Some(i) => i < topics.deep_view().len() && topics.deep_view()[i as int].id == id@,
            None => !contains_topic(topics.deep_view(), id@),
        },
{
    let mut i: usize = 0;
    while i < topics.len()
        invariant
            i <= topics.deep_view().len(),
            forall|j: int| 0 <= j < i ==> #[trigger] topics.deep_view()[j].id != id@,
        decreases topics.deep_view().len() - i,
    {
        if str_eq(topics[i].id.as_str(), id) {
            return Some(i);
        }
        i = i + 1;
    }
    None
}

/// The shallow merge of a stored topic with an update request, stamped with
/// `ts` and the advanced version.
fn merged_topic_record(old_t: &Topic, request: &UpdateTopicRequest, ts: String, cur_version: i64) -> (r: Topic)
    requires
        cur_version as int == old_t@.version,
        cur_version < i64::MAX,
    ensures
        r@ == merged_topic(old_t@, request@, ts@),
{
    let r = Topic {
        id: old_t.id.clone(),
        header: match &request.header {
            Some(h) => h.clone(),
            None => old_t.header.clone(),
        },
        description: match &request.description {
            Some(d) => Some(d.clone()),
            None => clone_opt_string(&old_t.description),
        },
        tags: match &request.tags {
            Some(t) => Some(clone_vec_string(t)),
            None => clone_opt_vec_string(&old_t.tags),
        },
        search_keywords: match &request.search_keywords {
            Some(k) => Some(clone_vec_string(k)),
            None => clone_opt_vec_string(&old_t.search_keywords),
        },
        validity: match &request.validity {
            Some(v) => v.clone(),
            None => old_t.validity.clone(),
        },
        notes: match &request.notes {
            Some(n) => Some(n.clone()),
            None => clone_opt_string(&old_t.notes),
        },
        raci: match &request.raci {
            Some(raci) => raci.clone(),
            None => old_t.raci.clone(),
        },
        updated_at: ts,
        priority: match request.priority {
            Some(p) => Some(p),
            None => old_t.priority,
        },
        has_file_number: match request.has_file_number {
            Some(b) => Some(b),
            None => old_t.has_file_number,
        },
        file_number: match &request.file_number {
            Some(f) => Some(f.clone()),
            None => clone_opt_string(&old_t.file_number),
        },
        has_shared_file_path: match request.has_shared_file_path {
            Some(b) => Some(b),
            None => old_t.has_shared_file_path,
        },
        shared_file_path: match &request.shared_file_path {
            Some(p) => Some(p.clone()),
            None => clone_opt_string(&old_t.shared_file_path),
        },
        size: match request.size {
            Some(sz) => Some(sz),
            None => old_t.size,
        },
        version: cur_version + 1,
    };
    proof {
        assert(r@ =~= merged_topic(old_t@, request@, ts@));
    }
    r
}

/// Whether these member records can form a store: unique identities and
/// positive versions.
fn members_admissible(members: &Vec<TeamMember>) -> (r: bool)
    ensures
        r == (member_ids_unique(members.deep_view()) && forall|i: int|
            0 <= i < members.deep_view().len() ==> 1 <= (
            #[trigger] members.deep_view()[i]).version),
{
    let ghost mv = members.deep_view();
    let mut i: usize = 0;
    while i < members.len()
        invariant
            i <= mv.len(),
            mv == members.deep_view(),
            forall|a: int, b: int| 0 <= a < i && 0 <= b < i && a != b ==> mv[a].id != mv[b].id,
            forall|a: int| 0 <= a < i ==> 1 <= (#[trigger] mv[a]).version,
        decreases mv.len() - i,
    {
        if members[i].version < 1 {
            return false;
        }
        let mut j: usize = 0;
        while j < i
            invariant
                j <= i,
                i < mv.len(),
                mv == members.deep_view(),
                forall|b: int| 0 <= b < j ==> mv[b].id != mv[i as int].id,
            decreases i - j,
        {
            if str_eq(members[j].id.as_str(), members[i].id.as_str()) {
                proof {
                    assert(mv[j as int].id == mv[i as int].id);
                }
                return false;
            }
            j = j + 1;
        }
        i = i + 1;
    }
    true
}

/// Whether these tag records can form a store: unique identities and
/// positive versions.
fn tags_admissible(tags: &Vec<Tag>) -> (r: bool)
    ensures
        r == (tag_ids_unique(tags.deep_view()) && forall|i: int|
            0 <= i < tags.deep_view().len() ==> 1 <= (#[trigger] tags.deep_view()[i]).version),
{
    let ghost tv = tags.deep_view();
    let mut i: usize = 0;
    while i < tags.len()
        invariant
            i <= tv.len(),
            tv == tags.deep_view(),
            forall|a: int, b: int| 0 <= a < i && 0 <= b < i && a != b ==> tv[a].id != tv[b].id,
            forall|a: int| 0 <= a < i ==> 1 <= (#[trigger] tv[a]).version,
        decreases tv.len() - i,
    {
        if tags[i].version < 1 {
            return false;
        }
        let mut j: usize = 0;
        while j < i
            invariant
                j <= i,
                i < tv.len(),
                tv == tags.deep_view(),
                forall|b: int| 0 <= b < j ==> tv[b].id != tv[i as int].id,
            decreases i - j,
        {
            if str_eq(tags[j].id.as_str(), tags[i].id.as_str()) {
                proof {
                    assert(tv[j as int].id == tv[i as int].id);
                }
                return false;
            }
            j = j + 1;
        }
        i = i + 1;
    }
    true
}

/// Whether these topic records can form a store: unique identities and
/// positive versions.
fn topics_admissible(topics: &Vec<Topic>) -> (r: bool)
    ensures
        r == (topic_ids_unique(topics.deep_view()) && forall|i: int|
            0 <= i < topics.deep_view().len() ==> 1 <= (
            #[trigger] topics.deep_view()[i]).version),
{
    let ghost tv = topics.deep_view();
    let mut i: usize = 0;
    while i < topics.len()
        invariant
            i <= tv.len(),
            tv == topics.deep_view(),
            forall|a: int, b: int| 0 <= a < i && 0 <= b < i && a != b ==> tv[a].id != tv[b].id,
            forall|a: int| 0 <= a < i ==> 1 <= (#[trigger] tv[a]).version,
        decreases tv.len() - i,
    {
        if topics[i].version < 1 {
            return false;
        }
        let mut j: usize = 0;
        while j < i
            invariant
                j <= i,
                i < tv.len(),
                tv == topics.deep_view(),
                forall|b: int| 0 <= b < j ==> tv[b].id != tv[i as int].id,
            decreases i - j,
        {
            if str_eq(topics[j].id.as_str(), topics[i].id.as_str()) {
                proof {
                    assert(tv[j as int].id == tv[i as int].id);
                }
                return false;
            }
            j = j + 1;
        }
        i = i + 1;
    }
    true
}


/// A member list ascending by display name.
pub open spec fn members_sorted(s: Seq<MemberView>) -> bool {
    forall|i: int, j: int|
        0 <= i < j < s.len() ==> #[trigger] lex_le(s[i].display_name, s[j].display_name)
}

/// The insertion point for a display name in a sorted member list: every
/// record before it precedes the key, the record at it (if any) does not.
fn member_insert_pos(out: &Vec<TeamMember>, key: &str) -> (p: usize)
    ensures
        p <= out.deep_view().len(),
        forall|q: int| 0 <= q < p ==> #[trigger] lex_le(out.deep_view()[q].display_name, key@),
        p < out.deep_view().len() ==> !lex_le(out.deep_view()[p as int].display_name, key@),
{
    let mut p: usize = 0;
    while p < out.len()
        invariant
            p <= out.deep_view().len(),
            forall|q: int| 0 <= q < p ==> #[trigger] lex_le(out.deep_view()[q].display_name, key@),
        decreases out.deep_view().len() - p,
    {
        if !str_le(out[p].display_name.as_str(), key) {
            return p;
        }
        p = p + 1;
    }
    p
}

/// Sort a member list ascending by display name; the result holds exactly
/// the given records.
fn sorted_by_display_name(v: Vec<TeamMember>) -> (r: Vec<TeamMember>)
    ensures
        members_sorted(r.deep_view()),
        r.deep_view().to_multiset() == v.deep_view().to_multiset(),
{
    let ghost vv = v.deep_view();
    let mut out: Vec<TeamMember> = Vec::new();
    let mut i: usize = 0;
    proof {
        assert(vv.take(0) =~= Seq::<MemberView>::empty());
        assert(out.deep_view() =~= Seq::<MemberView>::empty());
        assert(out.deep_view().to_multiset() =~= vv.take(0).to_multiset());
    }
    while i < v.len()
        invariant
            i <= vv.len(),
            vv == v.deep_view(),
            members_sorted(out.deep_view()),
            out.deep_view().to_multiset() == vv.take(i as int).to_multiset(),
        decreases vv.len() - i,
    {
        let e = v[i].clone();
        let ghost ev = e@;
        let ghost o0 = out.deep_view();
        let p = member_insert_pos(&out, e.display_name.as_str());
        out.insert(p, e);
        proof {
            broadcast use vstd::seq_lib::group_to_multiset_ensures;
            assert(ev == vv[i as int]);
            assert(out.deep_view() =~= o0.insert(p as int, ev));
            assert(vv.take(i as int + 1) =~= vv.take(i as int).push(vv[i as int]));
            assert(out.deep_view().to_multiset() == vv.take(i as int + 1).to_multiset());
            let s = out.deep_view();
            assert forall|x: int, y: int| 0 <= x < y < s.len() implies lex_le(
                s[x].display_name,
                s[y].display_name,
            ) by {
                if y < p {
                    assert(s[x] == o0[x] && s[y] == o0[y]);
                    assert(lex_le(o0[x].display_name, o0[y].display_name));
                } else if y == p {
                    assert(s[y] == ev && s[x] == o0[x]);
                    assert(lex_le(o0[x].display_name, ev.display_name));
                } else {
                    assert(s[y] == o0[y - 1]);
                    if x < p {
                        assert(s[x] == o0[x]);
                        assert(lex_le(o0[x].display_name, o0[y - 1].display_name));
                    } else if x == p {
                        assert(s[x] == ev);
                        assert(!lex_le(o0[p as int].display_name, ev.display_name));
                        lemma_lex_le_total(o0[p as int].display_name, ev.display_name);
                        if y - 1 > p {
                            assert(lex_le(o0[p as int].display_name, o0[y - 1].display_name));
                            lemma_lex_le_trans(
                                ev.display_name,
                                o0[p as int].display_name,
                                o0[y - 1].display_name,
                            );
                        }
                    } else {
                        assert(s[x] == o0[x - 1]);
                        assert(lex_le(o0[x - 1].display_name, o0[y - 1].display_name));
                    }
                }
            }
        }
        i = i + 1;
    }
    proof {
        assert(vv.take(vv.len() as int) =~= vv);
    }
    out
}

/// A tag list ascending by name.
pub open spec fn tags_sorted(s: Seq<TagView>) -> bool {
    forall|i: int, j: int|
        0 <= i < j < s.len() ==> #[trigger] lex_le(s[i].name, s[j].name)
}

/// The insertion point for a name in a sorted tag list: every
/// record before it precedes the key, the record at it (if any) does not.
fn tag_insert_pos(out: &Vec<Tag>, key: &str) -> (p: usize)
    ensures
        p <= out.deep_view().len(),
        forall|q: int| 0 <= q < p ==> #[trigger] lex_le(out.deep_view()[q].name, key@),
        p < out.deep_view().len() ==> !lex_le(out.deep_view()[p as int].name, key@),
{
    let mut p: usize = 0;
    while p < out.len()
        invariant
            p <= out.deep_view().len(),
            forall|q: int| 0 <= q < p ==> #[trigger] lex_le(out.deep_view()[q].name, key@),
        decreases out.deep_view().len() - p,
    {
        if !str_le(out[p].name.as_str(), key) {
            return p;
        }
        p = p + 1;
    }
    p
}

/// Sort a tag list ascending by name; the result holds exactly
/// the given records.
fn sorted_by_name(v: Vec<Tag>) -> (r: Vec<Tag>)
    ensures
        tags_sorted(r.deep_view()),
        r.deep_view().to_multiset() == v.deep_view().to_multiset(),
{
    let ghost vv = v.deep_view();
    let mut out: Vec<Tag> = Vec::new();
    let mut i: usize = 0;
    proof {
        assert(vv.take(0) =~= Seq::<TagView>::empty());
        assert(out.deep_view() =~= Seq::<TagView>::empty());
        assert(out.deep_view().to_multiset() =~= vv.take(0).to_multiset());
    }
    while i < v.len()
        invariant
            i <= vv.len(),
            vv == v.deep_view(),
            tags_sorted(out.deep_view()),
            out.deep_view().to_multiset() == vv.take(i as int).to_multiset(),
        decreases vv.len() - i,
    {
        let e = v[i].clone();
        let ghost ev = e@;
        let ghost o0 = out.deep_view();
        let p = tag_insert_pos(&out, e.name.as_str());
        out.insert(p, e);
        proof {
            broadcast use vstd::seq_lib::group_to_multiset_ensures;
            assert(ev == vv[i as int]);
            assert(out.deep_view() =~= o0.insert(p as int, ev));
            assert(vv.take(i as int + 1) =~= vv.take(i as int).push(vv[i as int]));
            assert(out.deep_view().to_multiset() == vv.take(i as int + 1).to_multiset());
            let s = out.deep_view();
            assert forall|x: int, y: int| 0 <= x < y < s.len() implies lex_le(
                s[x].name,
                s[y].name,
            ) by {
                if y < p {
                    assert(s[x] == o0[x] && s[y] == o0[y]);
                    assert(lex_le(o0[x].name, o0[y].name));
                } else if y == p {
                    assert(s[y] == ev && s[x] == o0[x]);
                    assert(lex_le(o0[x].name, ev.name));
                } else {
                    assert(s[y] == o0[y - 1]);
                    if x < p {
                        assert(s[x] == o0[x]);
                        assert(lex_le(o0[x].name, o0[y - 1].name));
                    } else if x == p {
                        assert(s[x] == ev);
                        assert(!lex_le(o0[p as int].name, ev.name));
                        lemma_lex_le_total(o0[p as int].name, ev.name);
                        if y - 1 > p {
                            assert(lex_le(o0[p as int].name, o0[y - 1].name));
                            lemma_lex_le_trans(
                                ev.name,
                                o0[p as int].name,
                                o0[y - 1].name,
                            );
                        }
                    } else {
                        assert(s[x] == o0[x - 1]);
                        assert(lex_le(o0[x - 1].name, o0[y - 1].name));
                    }
                }
            }
        }
        i = i + 1;
    }
    proof {
        assert(vv.take(vv.len() as int) =~= vv);
    }
    out
}

/// A topic list ascending by header.
pub open spec fn topics_sorted(s: Seq<TopicView>) -> bool {
    forall|i: int, j: int|
        0 <= i < j < s.len() ==> #[trigger] lex_le(s[i].header, s[j].header)
}

/// The insertion point for a header in a sorted topic list: every
/// record before it precedes the key, the record at it (if any) does not.
fn topic_insert_pos(out: &Vec<Topic>, key: &str) -> (p: usize)
    ensures
        p <= out.deep_view().len(),
        forall|q: int| 0 <= q < p ==> #[trigger] lex_le(out.deep_view()[q].header, key@),
        p < out.deep_view().len() ==> !lex_le(out.deep_view()[p as int].header, key@),
{
    let mut p: usize = 0;
    while p < out.len()
        invariant
            p <= out.deep_view().len(),
            forall|q: int| 0 <= q < p ==> #[trigger] lex_le(out.deep_view()[q].header, key@),
        decreases out.deep_view().len() - p,
    {
        if !str_le(out[p].header.as_str(), key) {
            return p;
        }
        p = p + 1;
    }
    p
}

/// Sort a topic list ascending by header; the result holds exactly
/// the given records.
fn sorted_by_header(v: Vec<Topic>) -> (r: Vec<Topic>)
    ensures
        topics_sorted(r.deep_view()),
        r.deep_view().to_multiset() == v.deep_view().to_multiset(),
{
    let ghost vv = v.deep_view();
    let mut out: Vec<Topic> = Vec::new();
    let mut i: usize = 0;
    proof {
        assert(vv.take(0) =~= Seq::<TopicView>::empty());
        assert(out.deep_view() =~= Seq::<TopicView>::empty());
        assert(out.deep_view().to_multiset() =~= vv.take(0).to_multiset());
    }
    while i < v.len()
        invariant
            i <= vv.len(),
            vv == v.deep_view(),
            topics_sorted(out.deep_view()),
            out.deep_view().to_multiset() == vv.take(i as int).to_multiset(),
        decreases vv.len() - i,
    {
        let e = v[i].clone();
        let ghost ev = e@;
        let ghost o0 = out.deep_view();
        let p = topic_insert_pos(&out, e.header.as_str());
        out.insert(p, e);
        proof {
            broadcast use vstd::seq_lib::group_to_multiset_ensures;
            assert(ev == vv[i as int]);
            assert(out.deep_view() =~= o0.insert(p as int, ev));
            assert(vv.take(i as int + 1) =~= vv.take(i as int).push(vv[i as int]));
            assert(out.deep_view().to_multiset() == vv.take(i as int + 1).to_multiset());
            let s = out.deep_view();
            assert forall|x: int, y: int| 0 <= x < y < s.len() implies lex_le(
                s[x].header,
                s[y].header,
            ) by {
                if y < p {
                    assert(s[x] == o0[x] && s[y] == o0[y]);
                    assert(lex_le(o0[x].header, o0[y].header));
                } else if y == p {
                    assert(s[y] == ev && s[x] == o0[x]);
                    assert(lex_le(o0[x].header, ev.header));
                } else {
                    assert(s[y] == o0[y - 1]);
                    if x < p {
                        assert(s[x] == o0[x]);
                        assert(lex_le(o0[x].header, o0[y - 1].header));
                    } else if x == p {
                        assert(s[x] == ev);
                        assert(!lex_le(o0[p as int].header, ev.header));
                        lemma_lex_le_total(o0[p as int].header, ev.header);
                        if y - 1 > p {
                            assert(lex_le(o0[p as int].header, o0[y - 1].header));
                            lemma_lex_le_trans(
                                ev.header,
                                o0[p as int].header,
                                o0[y - 1].header,
                            );
                        }
                    } else {
                        assert(s[x] == o0[x - 1]);
                        assert(lex_le(o0[x - 1].header, o0[y - 1].header));
                    }
                }
            }
        }
        i = i + 1;
    }
    proof {
        assert(vv.take(vv.len() as int) =~= vv);
    }
    out
}

/// The versioned record store.
pub struct Store {
    schema_version: i32,
    revision_id: i64,
    generated_at: String,
    members: Vec<TeamMember>,
    tags: Vec<Tag>,
    topics: Vec<Topic>,
}

impl View for Store {
    type V = StoreView;

    closed spec fn view(&self) -> StoreView {
        StoreView {
            schema_version: self.schema_version as int,
            revision_id: self.revision_id as int,
            generated_at: self.generated_at@,
            members: self.members.deep_view(),
            tags: self.tags.deep_view(),
            topics: self.topics.deep_view(),
        }
    }
}

impl Store {
    /// An empty store at revision 0.
    pub fn new() -> (r: Store)
        ensures
            r@.wf(),
            r@.schema_version == 1,
            r@.revision_id == 0,
            r@.members == Seq::<MemberView>::empty(),
            r@.tags == Seq::<TagView>::empty(),
            r@.topics == Seq::<TopicView>::empty(),
    {
        let r = Store {
            schema_version: 1,
            revision_id: 0,
            generated_at: now_rfc3339(),
            members: Vec::new(),
            tags: Vec::new(),
            topics: Vec::new(),
        };
        proof {
            assert(r@.members =~= Seq::<MemberView>::empty());
            assert(r@.tags =~= Seq::<TagView>::empty());
            assert(r@.topics =~= Seq::<TopicView>::empty());
        }
        r
    }


    /// Rebuild a store from durably recorded state, as read back at process
    /// start. Admissible state — unique identities within each record kind,
    /// positive versions, a non-negative revision — is taken verbatim;
    /// anything else is rejected with `Validation` and no store is built.
    pub fn from_records(
        revision_id: i64,
        generated_at: String,
        members: Vec<TeamMember>,
        tags: Vec<Tag>,
        topics: Vec<Topic>,
    ) -> (r: Result<Store, AppError>)
        ensures
            match r {
                Ok(s) => {
                    &&& s@.wf()
                    &&& s@.schema_version == 1
                    &&& s@.revision_id == revision_id
                    &&& s@.generated_at == generated_at@
                    &&& s@.members == members.deep_view()
                    &&& s@.tags == tags.deep_view()
                    &&& s@.topics == topics.deep_view()
                },
                Err(e) => e is Validation,
            },
            (r is Ok) == (0 <= revision_id && member_ids_unique(members.deep_view())
                && tag_ids_unique(tags.deep_view()) && topic_ids_unique(topics.deep_view())
                && (forall|i: int|
                0 <= i < members.deep_view().len() ==> 1 <= (
                #[trigger] members.deep_view()[i]).version) && (forall|i: int|
                0 <= i < tags.deep_view().len() ==> 1 <= (#[trigger] tags.deep_view()[i]).version)
                && (forall|i: int|
                0 <= i < topics.deep_view().len() ==> 1 <= (
                #[trigger] topics.deep_view()[i]).version)),
    {
        if revision_id < 0 {
            return Err(AppError::Validation(String::from_str("negative revision")));
        }
        if !members_admissible(&members) {
            return Err(AppError::Validation(String::from_str("inadmissible member records")));
        }
        if !tags_admissible(&tags) {
            return Err(AppError::Validation(String::from_str("inadmissible tag records")));
        }
        if !topics_admissible(&topics) {
            return Err(AppError::Validation(String::from_str("inadmissible topic records")));
        }
        Ok(
            Store {
                schema_version: 1,
                revision_id: revision_id,
                generated_at: generated_at,
                members: members,
                tags: tags,
                topics: topics,
            },
        )
    }

    /// The current value of the global revision counter.
    pub fn get_revision_id(&self) -> (r: i64)
        ensures
            r == self@.revision_id,
    {
        self.revision_id
    }

    /// The current revision counter together with the timestamp of the last
    /// mutation.
    pub fn get_revision_info(&self) -> (r: RevisionInfo)
        ensures
            r@.revision_id == self@.revision_id,
            r@.generated_at == self@.generated_at,
    {
        RevisionInfo {
            revision_id: self.revision_id,
            generated_at: self.generated_at.clone(),
        }
    }

    /// A snapshot of the whole store: the revision information and every
    /// member, topic and tag — exactly the stored records, each exactly
    /// once, listed as served: members by display name, topics by header,
    /// tags by name.
    pub fn get_datastore(&self) -> (r: Datastore)
        ensures
            r@.schema_version == self@.schema_version,
            r@.generated_at == self@.generated_at,
            r@.revision_id == self@.revision_id,
            members_sorted(r@.members),
            r@.members.to_multiset() == self@.members.to_multiset(),
            topics_sorted(r@.topics),
            r@.topics.to_multiset() == self@.topics.to_multiset(),
            r@.tags matches Some(ts) && tags_sorted(ts) && ts.to_multiset()
                == self@.tags.to_multiset(),
    {
        Datastore {
            schema_version: self.schema_version,
            generated_at: self.generated_at.clone(),
            revision_id: self.revision_id,
            members: self.list_members(),
            topics: self.list_topics(),
            tags: Some(self.list_tags()),
        }
    }

    /// Advance the revision by one and refresh the generation timestamp.
    fn bump_revision(&mut self)
        requires
            old(self)@.revision_id < i64::MAX,
        ensures
            bumped(old(self)@, final(self)@),
    {
        self.revision_id = self.revision_id + 1;
        self.generated_at = now_rfc3339();
    }

    /// Advance the global revision counter by one, refreshing the generation
    /// timestamp, and return the new value. Fails only when the counter is
    /// at its bound.
    pub fn increment_revision(&mut self) -> (r: Result<i64, AppError>)
        ensures
            match r {
                Ok(n) => {
                    &&& old(self)@.revision_id < i64::MAX
                    &&& n == old(self)@.revision_id + 1
                    &&& bumped(old(self)@, final(self)@)
                },
                Err(e) => {
                    &&& old(self)@.revision_id == i64::MAX
                    &&& final(self)@ == old(self)@
                    &&& e is Internal
                },
            },
    {
        if self.revision_id == i64::MAX {
            return Err(AppError::Internal(String::from_str("revision counter exhausted")));
        }
        self.bump_revision();
        Ok(self.revision_id)
    }

    /// The index of the member with this identity, if present.
    fn find_member(&self, id: &str) -> (r: Option<usize>)
        ensures
            match r {
                Some(i) => i < self@.members.len() && self@.members[i as int].id == id@,
                None => !contains_member(self@.members, id@),
            },
    {
        let mut i: usize = 0;
        while i < self.members.len()
            invariant
                i <= self@.members.len(),
                forall|j: int| 0 <= j < i ==> #[trigger] self@.members[j].id != id@,
            decreases self@.members.len() - i,
        {
            if str_eq(self.members[i].id.as_str(), id) {
                return Some(i);
            }
            i = i + 1;
        }
        None
    }

    /// Look up a member by identity; absence is not an error.
    pub fn get_member(&self, id: &str) -> (r: Option<TeamMember>)
        requires
            self@.wf(),
        ensures
            match r {
                Some(m) => contains_member(self@.members, id@)
                    && m@ == member_at(self@.members, id@),
                None => !contains_member(self@.members, id@),
            },
    {
        match self.find_member(id) {
            Some(i) => {
                let m = self.members[i].clone();
                proof {
                    lemma_member_lookup(self@.members, id@, i as int);
                }
                Some(m)
            },
            None => None,
        }
    }

    /// A copy of the member records, in storage order.
    fn clone_members(&self) -> (r: Vec<TeamMember>)
        ensures
            r.deep_view() == self@.members,
    {
        let mut r: Vec<TeamMember> = Vec::new();
        let mut i: usize = 0;
        while i < self.members.len()
            invariant
                i <= self@.members.len(),
                r@.len() == i,
                forall|j: int| 0 <= j < i ==> (#[trigger] r@[j])@ == self@.members[j],
            decreases self@.members.len() - i,
        {
            r.push(self.members[i].clone());
            i = i + 1;
        }
        proof {
            assert(r.deep_view() =~= self@.members);
        }
        r
    }

    /// All members, ascending by display name: exactly the stored records,
    /// each exactly once.
    pub fn list_members(&self) -> (r: Vec<TeamMember>)
        ensures
            members_sorted(r.deep_view()),
            r.deep_view().to_multiset() == self@.members.to_multiset(),
    {
        sorted_by_display_name(self.clone_members())
    }

    /// Create a member: assign a fresh identity and version 1, append the
    /// record, and advance the revision by exactly one. Fails with
    /// `Validation` exactly when the display name is blank, and with
    /// `Internal` only when the revision counter is at its bound or the
    /// randomly drawn identity collides with a stored one — so on a store
    /// holding no member, a valid request is guaranteed to succeed.
    pub fn create_member(&mut self, request: &CreateMemberRequest) -> (r: Result<
        TeamMember,
        AppError,
    >)
        requires
            old(self)@.wf(),
        ensures
            final(self)@.wf(),
            match r {
                Ok(m) => create_member_ok(old(self)@, request@, m@, final(self)@),
                Err(e) => {
                    &&& final(self)@ == old(self)@
                    &&& match e {
                        AppError::Validation(_) => !valid_create_member(request@),
                        AppError::Internal(_) => valid_create_member(request@) && (old(self)@.revision_id
                            == i64::MAX || old(self)@.members.len() > 0),
                        _ => false,
                    }
                },
            },
            !valid_create_member(request@) ==> r is Err,
            (valid_create_member(request@) && old(self)@.revision_id < i64::MAX && old(
                self,
            )@.members.len() == 0) ==> r is Ok,
    {
        if is_blank(request.display_name.as_str()) {
            return Err(AppError::Validation(String::from_str("Display name is required")));
        }
        let id = fresh_uuid();
        if self.find_member(id.as_str()).is_some() {
            return Err(AppError::Internal(String::from_str("identity collision")));
        }
        if self.revision_id == i64::MAX {
            return Err(AppError::Internal(String::from_str("revision counter exhausted")));
        }
        let now = now_rfc3339();
        let m = TeamMember {
            id: id,
            display_name: request.display_name.clone(),
            email: clone_opt_string(&request.email),
            active: request.active,
            tags: clone_opt_vec_string(&request.tags),
            color: clone_opt_string(&request.color),
            updated_at: now,
            version: 1,
        };
        let out = m.clone();
        let ghost s_before = self@;
        self.members.push(m);
        proof {
            assert(self@.members =~= s_before.members.push(out@));
            assert forall|i: int| 0 <= i < self@.members.len() implies 1 <= #[trigger] self@.members[i].version by {
                if i < s_before.members.len() {
                    assert(self@.members[i] == s_before.members[i]);
                }
            }
            assert forall|i: int, j: int|
                0 <= i < self@.members.len() && 0 <= j < self@.members.len() && i != j
                implies self@.members[i].id != self@.members[j].id by {
                if i < s_before.members.len() && j < s_before.members.len() {
                    assert(s_before.members[i].id != s_before.members[j].id);
                } else if i == s_before.members.len() {
                    assert(!contains_member(s_before.members, out@.id));
                    assert(s_before.members[j].id != out@.id);
                } else {
                    assert(!contains_member(s_before.members, out@.id));
                    assert(s_before.members[i].id != out@.id);
                }
            }
        }
        self.bump_revision();
        Ok(out)
    }

    /// Update a member under optimistic concurrency: absent request fields
    /// keep their stored value, a mismatched expected version fails with
    /// `Conflict` carrying the authoritative current version and changes
    /// nothing, and a successful update advances the record version and the
    /// global revision by exactly one each.
    pub fn update_member(&mut self, id: &str, request: &UpdateMemberRequest) -> (r: Result<
        TeamMember,
        AppError,
    >)
        requires
            old(self)@.wf(),
        ensures
            final(self)@.wf(),
            match r {
                Ok(m) => update_member_ok(old(self)@, id@, request@, m@, final(self)@),
                Err(e) => final(self)@ == old(self)@ && update_member_err(
                    old(self)@,
                    id@,
                    request@,
                    e,
                ),
            },
            (r is Err) == update_member_fails(old(self)@, id@, request@),
    {
        let j = match self.find_member(id) {
            Some(j) => j,
            None => {
                return Err(AppError::NotFound(String::from_str("Member not found")));
            },
        };
        proof {
            lemma_member_lookup(self@.members, id@, j as int);
        }
        let cur_version = self.members[j].version;
        if let Some(expected) = request.expected_version {
            if cur_version != expected {
                return Err(
                    AppError::Conflict {
                        message: String::from_str("Version mismatch"),
                        current_version: cur_version,
                    },
                );
            }
        }
        if cur_version == i64::MAX {
            return Err(AppError::Internal(String::from_str("version counter exhausted")));
        }
        if self.revision_id == i64::MAX {
            return Err(AppError::Internal(String::from_str("revision counter exhausted")));
        }
        let now = now_rfc3339();
        let old_m = &self.members[j];
        let new_m = TeamMember {
            id: old_m.id.clone(),
            display_name: match &request.display_name {
                Some(d) => d.clone(),
                None => old_m.display_name.clone(),
            },
            email: match &request.email {
                Some(e) => Some(e.clone()),
                None => clone_opt_string(&old_m.email),
            },
            active: match request.active {
                Some(a) => a,
                None => old_m.active,
            },
            tags: match &request.tags {
                Some(t) => Some(clone_vec_string(t)),
                None => clone_opt_vec_string(&old_m.tags),
            },
            color: match &request.color {
                Some(c) => Some(c.clone()),
                None => clone_opt_string(&old_m.color),
            },
            updated_at: now,
            version: cur_version + 1,
        };
        let out = new_m.clone();
        let ghost s_before = self@;
        proof {
            assert(new_m@ =~= merged_member(member_at(s_before.members, id@), request@, new_m@.updated_at));
        }
        self.members[j] = new_m;
        proof {
            assert(self@.members =~= s_before.members.update(j as int, out@));
            assert forall|a: int, b: int|
                0 <= a < self@.members.len() && 0 <= b < self@.members.len() && a != b
                implies self@.members[a].id != self@.members[b].id by {
                assert(s_before.members[a].id != s_before.members[b].id);
                assert(self@.members[a].id == s_before.members[a].id);
                assert(self@.members[b].id == s_before.members[b].id);
            }
            assert forall|i: int| 0 <= i < self@.members.len() implies 1 <= #[trigger] self@.members[i].version by {
                if i != j {
                    assert(self@.members[i] == s_before.members[i]);
                }
            }
        }
        self.bump_revision();
        Ok(out)
    }

    /// Delete a member. Fails with `NotFound` exactly when no record holds
    /// the identity, leaving everything unchanged — in particular the
    /// revision; a successful deletion removes the record and advances the
    /// revision by exactly one.
    pub fn delete_member(&mut self, id: &str) -> (r: Result<(), AppError>)
        requires
            old(self)@.wf(),
        ensures
            final(self)@.wf(),
            match r {
                Ok(_) => {
                    &&& contains_member(old(self)@.members, id@)
                    &&& final(self)@.members == old(self)@.members.remove(
                        member_index(old(self)@.members, id@),
                    )
                    &&& final(self)@.revision_id == old(self)@.revision_id + 1
                    &&& tags_topics_unchanged(old(self)@, final(self)@)
                },
                Err(e) => {
                    &&& final(self)@ == old(self)@
                    &&& if !contains_member(old(self)@.members, id@) {
                        e is NotFound
                    } else {
                        e is Internal
                    }
                },
            },
            (r is Err) == (!contains_member(old(self)@.members, id@) || old(self)@.revision_id
                == i64::MAX),
    {
        let j = match self.find_member(id) {
            Some(j) => j,
            None => {
                return Err(AppError::NotFound(String::from_str("Member not found")));
            },
        };
        proof {
            lemma_member_lookup(self@.members, id@, j as int);
        }
        if self.revision_id == i64::MAX {
            return Err(AppError::Internal(String::from_str("revision counter exhausted")));
        }
        let ghost s_before = self@;
        self.members.remove(j);
        proof {
            assert(self@.members =~= s_before.members.remove(j as int));
            assert forall|a: int, b: int|
                0 <= a < self@.members.len() && 0 <= b < self@.members.len() && a != b
                implies self@.members[a].id != self@.members[b].id by {
                let a0 = if a < j { a } else { a + 1 };
                let b0 = if b < j { b } else { b + 1 };
                assert(self@.members[a] == s_before.members[a0]);
                assert(self@.members[b] == s_before.members[b0]);
                assert(s_before.members[a0].id != s_before.members[b0].id);
            }
            assert forall|i: int| 0 <= i < self@.members.len() implies 1 <= #[trigger] self@.members[i].version by {
                let i0 = if i < j { i } else { i + 1 };
                assert(self@.members[i] == s_before.members[i0]);
            }
        }
        self.bump_revision();
        Ok(())
    }

    /// The index of the tag with this identity, if present.
    fn find_tag(&self, id: &str) -> (r: Option<usize>)
        ensures
            match r {
                Some(i) => i < self@.tags.len() && self@.tags[i as int].id == id@,
                None => !contains_tag(self@.tags, id@),
            },
    {
        let mut i: usize = 0;
        while i < self.tags.len()
            invariant
                i <= self@.tags.len(),
                forall|j: int| 0 <= j < i ==> #[trigger] self@.tags[j].id != id@,
            decreases self@.tags.len() - i,
        {
            if str_eq(self.tags[i].id.as_str(), id) {
                return Some(i);
            }
            i = i + 1;
        }
        None
    }

    /// Look up a tag by identity; absence is not an error.
    pub fn get_tag(&self, id: &str) -> (r: Option<Tag>)
        requires
            self@.wf(),
        ensures
            match r {
                Some(t) => contains_tag(self@.tags, id@) && t@ == tag_at(self@.tags, id@),
                None => !contains_tag(self@.tags, id@),
            },
    {
        match self.find_tag(id) {
            Some(i) => {
                let t = self.tags[i].clone();
                proof {
                    lemma_tag_lookup(self@.tags, id@, i as int);
                }
                Some(t)
            },
            None => None,
        }
    }

    /// A copy of the tag records, in storage order.
    fn clone_tags(&self) -> (r: Vec<Tag>)
        ensures
            r.deep_view() == self@.tags,
    {
        let mut r: Vec<Tag> = Vec::new();
        let mut i: usize = 0;
        while i < self.tags.len()
            invariant
                i <= self@.tags.len(),
                r@.len() == i,
                forall|j: int| 0 <= j < i ==> (#[trigger] r@[j])@ == self@.tags[j],
            decreases self@.tags.len() - i,
        {
            r.push(self.tags[i].clone());
            i = i + 1;
        }
        proof {
            assert(r.deep_view() =~= self@.tags);
        }
        r
    }

    /// All tags, ascending by name: exactly the stored records,
    /// each exactly once.
    pub fn list_tags(&self) -> (r: Vec<Tag>)
        ensures
            tags_sorted(r.deep_view()),
            r.deep_view().to_multiset() == self@.tags.to_multiset(),
    {
        sorted_by_name(self.clone_tags())
    }

    /// Create a tag: assign a fresh identity and version 1, stamp creation
    /// and modification times, append the record, and advance the revision
    /// by exactly one. Fails with `Validation` exactly when the name or the
    /// creator is blank, and with `Internal` only when the revision counter
    /// is at its bound or the randomly drawn identity collides with a
    /// stored one — so on a store holding no tag, a valid request is
    /// guaranteed to succeed.
    pub fn create_tag(&mut self, request: &CreateTagRequest) -> (r: Result<Tag, AppError>)
        requires
            old(self)@.wf(),
        ensures
            final(self)@.wf(),
            match r {
                Ok(t) => create_tag_ok(old(self)@, request@, t@, final(self)@),
                Err(e) => {
                    &&& final(self)@ == old(self)@
                    &&& match e {
                        AppError::Validation(_) => !valid_create_tag(request@),
                        AppError::Internal(_) => valid_create_tag(request@) && (old(self)@.revision_id
                            == i64::MAX || old(self)@.tags.len() > 0),
                        _ => false,
                    }
                },
            },
            !valid_create_tag(request@) ==> r is Err,
            (valid_create_tag(request@) && old(self)@.revision_id < i64::MAX && old(
                self,
            )@.tags.len() == 0) ==> r is Ok,
    {
        if is_blank(request.name.as_str()) {
            return Err(AppError::Validation(String::from_str("Tag name is required")));
        }
        if is_blank(request.created_by.as_str()) {
            return Err(AppError::Validation(String::from_str("Created by (member ID) is required")));
        }
        let id = fresh_uuid();
        if self.find_tag(id.as_str()).is_some() {
            return Err(AppError::Internal(String::from_str("identity collision")));
        }
        if self.revision_id == i64::MAX {
            return Err(AppError::Internal(String::from_str("revision counter exhausted")));
        }
        let now = now_rfc3339();
        let t = Tag {
            id: id,
            name: request.name.clone(),
            search_keywords: clone_opt_vec_string(&request.search_keywords),
            hinweise: clone_opt_string(&request.hinweise),
            copy_paste_text: clone_opt_string(&request.copy_paste_text),
            color: clone_opt_string(&request.color),
            is_super_tag: request.is_super_tag,
            is_gvpl_tag: request.is_gvpl_tag,
            created_at: now.clone(),
            modified_at: now,
            created_by: request.created_by.clone(),
            version: 1,
        };
        let out = t.clone();
        let ghost s_before = self@;
        self.tags.push(t);
        proof {
            assert(self@.tags =~= s_before.tags.push(out@));
            assert forall|i: int| 0 <= i < self@.tags.len() implies 1 <= #[trigger] self@.tags[i].version by {
                if i < s_before.tags.len() {
                    assert(self@.tags[i] == s_before.tags[i]);
                }
            }
            assert forall|i: int, j: int|
                0 <= i < self@.tags.len() && 0 <= j < self@.tags.len() && i != j
                implies self@.tags[i].id != self@.tags[j].id by {
                if i < s_before.tags.len() && j < s_before.tags.len() {
                    assert(s_before.tags[i].id != s_before.tags[j].id);
                } else if i == s_before.tags.len() {
                    assert(!contains_tag(s_before.tags, out@.id));
                    assert(s_before.tags[j].id != out@.id);
                } else {
                    assert(!contains_tag(s_before.tags, out@.id));
                    assert(s_before.tags[i].id != out@.id);
                }
            }
        }
        self.bump_revision();
        Ok(out)
    }

    /// Update a tag under optimistic concurrency: absent request fields keep
    /// their stored value, `created_at` and `created_by` are immutable, a
    /// mismatched expected version fails with `Conflict` carrying the
    /// authoritative current version and changes nothing, and a successful
    /// update advances the record version and the global revision by exactly
    /// one each.
    pub fn update_tag(&mut self, id: &str, request: &UpdateTagRequest) -> (r: Result<
        Tag,
        AppError,
    >)
        requires
            old(self)@.wf(),
        ensures
            final(self)@.wf(),
            match r {
                Ok(t) => update_tag_ok(old(self)@, id@, request@, t@, final(self)@),
                Err(e) => final(self)@ == old(self)@ && update_tag_err(
                    old(self)@,
                    id@,
                    request@,
                    e,
                ),
            },
            (r is Err) == update_tag_fails(old(self)@, id@, request@),
    {
        let j = match self.find_tag(id) {
            Some(j) => j,
            None => {
                return Err(AppError::NotFound(String::from_str("Tag not found")));
            },
        };
        proof {
            lemma_tag_lookup(self@.tags, id@, j as int);
        }
        let cur_version = self.tags[j].version;
        if let Some(expected) = request.expected_version {
            if cur_version != expected {
                return Err(
                    AppError::Conflict {
                        message: String::from_str("Version mismatch"),
                        current_version: cur_version,
                    },
                );
            }
        }
        if cur_version == i64::MAX {
            return Err(AppError::Internal(String::from_str("version counter exhausted")));
        }
        if self.revision_id == i64::MAX {
            return Err(AppError::Internal(String::from_str("revision counter exhausted")));
        }
        let now = now_rfc3339();
        let old_t = &self.tags[j];
        let new_t = Tag {
            id: old_t.id.clone(),
            name: match &request.name {
                Some(n) => n.clone(),
                None => old_t.name.clone(),
            },
            search_keywords: match &request.search_keywords {
                Some(k) => Some(clone_vec_string(k)),
                None => clone_opt_vec_string(&old_t.search_keywords),
            },
            hinweise: match &request.hinweise {
                Some(h) => Some(h.clone()),
                None => clone_opt_string(&old_t.hinweise),
            },
            copy_paste_text: match &request.copy_paste_text {
                Some(c) => Some(c.clone()),
                None => clone_opt_string(&old_t.copy_paste_text),
            },
            color: match &request.color {
                Some(c) => Some(c.clone()),
                None => clone_opt_string(&old_t.color),
            },
            is_super_tag: match request.is_super_tag {
                Some(b) => Some(b),
                None => old_t.is_super_tag,
            },
            is_gvpl_tag: match request.is_gvpl_tag {
                Some(b) => Some(b),
                None => old_t.is_gvpl_tag,
            },
            created_at: old_t.created_at.clone(),
            modified_at: now,
            created_by: old_t.created_by.clone(),
            version: cur_version + 1,
        };
        let out = new_t.clone();
        let ghost s_before = self@;
        proof {
            assert(new_t@ =~= merged_tag(tag_at(s_before.tags, id@), request@, new_t@.modified_at));
        }
        self.tags[j] = new_t;
        proof {
            assert(self@.tags =~= s_before.tags.update(j as int, out@));
            assert forall|a: int, b: int|
                0 <= a < self@.tags.len() && 0 <= b < self@.tags.len() && a != b
                implies self@.tags[a].id != self@.tags[b].id by {
                assert(s_before.tags[a].id != s_before.tags[b].id);
                assert(self@.tags[a].id == s_before.tags[a].id);
                assert(self@.tags[b].id == s_before.tags[b].id);
            }
            assert forall|i: int| 0 <= i < self@.tags.len() implies 1 <= #[trigger] self@.tags[i].version by {
                if i != j {
                    assert(self@.tags[i] == s_before.tags[i]);
                }
            }
        }
        self.bump_revision();
        Ok(out)
    }

    /// Delete a tag. Fails with `NotFound` exactly when no record holds the
    /// identity, leaving everything unchanged — in particular the revision;
    /// a successful deletion removes the record and advances the revision by
    /// exactly one.
    pub fn delete_tag(&mut self, id: &str) -> (r: Result<(), AppError>)
        requires
            old(self)@.wf(),
        ensures
            final(self)@.wf(),
            match r {
                Ok(_) => {
                    &&& contains_tag(old(self)@.tags, id@)
                    &&& final(self)@.tags == old(self)@.tags.remove(
                        tag_index(old(self)@.tags, id@),
                    )
                    &&& final(self)@.revision_id == old(self)@.revision_id + 1
                    &&& members_topics_unchanged(old(self)@, final(self)@)
                },
                Err(e) => {
                    &&& final(self)@ == old(self)@
                    &&& if !contains_tag(old(self)@.tags, id@) {
                        e is NotFound
                    } else {
                        e is Internal
                    }
                },
            },
            (r is Err) == (!contains_tag(old(self)@.tags, id@) || old(self)@.revision_id
                == i64::MAX),
    {
        let j = match self.find_tag(id) {
            Some(j) => j,
            None => {
                return Err(AppError::NotFound(String::from_str("Tag not found")));
            },
        };
        proof {
            lemma_tag_lookup(self@.tags, id@, j as int);
        }
        if self.revision_id == i64::MAX {
            return Err(AppError::Internal(String::from_str("revision counter exhausted")));
        }
        let ghost s_before = self@;
        self.tags.remove(j);
        proof {
            assert(self@.tags =~= s_before.tags.remove(j as int));
            assert forall|a: int, b: int|
                0 <= a < self@.tags.len() && 0 <= b < self@.tags.len() && a != b
                implies self@.tags[a].id != self@.tags[b].id by {
                let a0 = if a < j { a } else { a + 1 };
                let b0 = if b < j { b } else { b + 1 };
                assert(self@.tags[a] == s_before.tags[a0]);
                assert(self@.tags[b] == s_before.tags[b0]);
                assert(s_before.tags[a0].id != s_before.tags[b0].id);
            }
            assert forall|i: int| 0 <= i < self@.tags.len() implies 1 <= #[trigger] self@.tags[i].version by {
                let i0 = if i < j { i } else { i + 1 };
                assert(self@.tags[i] == s_before.tags[i0]);
            }
        }
        self.bump_revision();
        Ok(())
    }

    /// The index of the topic with this identity, if present.
    fn find_topic(&self, id: &str) -> (r: Option<usize>)
        ensures
            match r {
                Some(i) => i < self@.topics.len() && self@.topics[i as int].id == id@,
                None => !contains_topic(self@.topics, id@),
            },
    {
        find_topic_in(&self.topics, id)
    }

    /// Look up a topic by identity; absence is not an error.
    pub fn get_topic(&self, id: &str) -> (r: Option<Topic>)
        requires
            self@.wf(),
        ensures
            match r {
                Some(t) => contains_topic(self@.topics, id@) && t@ == topic_at(self@.topics, id@),
                None => !contains_topic(self@.topics, id@),
            },
    {
        match self.find_topic(id) {
            Some(i) => {
                let t = self.topics[i].clone();
                proof {
                    lemma_topic_lookup(self@.topics, id@, i as int);
                }
                Some(t)
            },
            None => None,
        }
    }

    /// A copy of the topic records, in storage order.
    fn clone_topics(&self) -> (r: Vec<Topic>)
        ensures
            r.deep_view() == self@.topics,
    {
        let mut r: Vec<Topic> = Vec::new();
        let mut i: usize = 0;
        while i < self.topics.len()
            invariant
                i <= self@.topics.len(),
                r@.len() == i,
                forall|j: int| 0 <= j < i ==> (#[trigger] r@[j])@ == self@.topics[j],
            decreases self@.topics.len() - i,
        {
            r.push(self.topics[i].clone());
            i = i + 1;
        }
        proof {
            assert(r.deep_view() =~= self@.topics);
        }
        r
    }

    /// All topics, ascending by header: exactly the stored records,
    /// each exactly once.
    pub fn list_topics(&self) -> (r: Vec<Topic>)
        ensures
            topics_sorted(r.deep_view()),
            r.deep_view().to_multiset() == self@.topics.to_multiset(),
    {
        sorted_by_header(self.clone_topics())
    }

    /// Create a topic: assign a fresh identity and version 1, default the
    /// validity window to "always valid" when none is given, append the
    /// record, and advance the revision by exactly one. Fails with
    /// `Validation` exactly when the header or the primary responsible
    /// member is blank, and with `Internal` only when the revision counter
    /// is at its bound or the randomly drawn identity collides with a
    /// stored one — so on a store holding no topic, a valid request is
    /// guaranteed to succeed.
    pub fn create_topic(&mut self, request: &CreateTopicRequest) -> (r: Result<Topic, AppError>)
        requires
            old(self)@.wf(),
        ensures
            final(self)@.wf(),
            match r {
                Ok(t) => create_topic_ok(old(self)@, request@, t@, final(self)@),
                Err(e) => {
                    &&& final(self)@ == old(self)@
                    &&& match e {
                        AppError::Validation(_) => !valid_create_topic(request@),
                        AppError::Internal(_) => valid_create_topic(request@) && (old(self)@.revision_id
                            == i64::MAX || old(self)@.topics.len() > 0),
                        _ => false,
                    }
                },
            },
            !valid_create_topic(request@) ==> r is Err,
            (valid_create_topic(request@) && old(self)@.revision_id < i64::MAX && old(
                self,
            )@.topics.len() == 0) ==> r is Ok,
    {
        if is_blank(request.header.as_str()) {
            return Err(AppError::Validation(String::from_str("Header is required")));
        }
        if is_blank(request.raci.r1_member_id.as_str()) {
            return Err(
                AppError::Validation(
                    String::from_str("Primary responsible (r1MemberId) is required"),
                ),
            );
        }
        let id = fresh_uuid();
        if self.find_topic(id.as_str()).is_some() {
            return Err(AppError::Internal(String::from_str("identity collision")));
        }
        if self.revision_id == i64::MAX {
            return Err(AppError::Internal(String::from_str("revision counter exhausted")));
        }
        let now = now_rfc3339();
        let t = Topic {
            id: id,
            header: request.header.clone(),
            description: clone_opt_string(&request.description),
            tags: clone_opt_vec_string(&request.tags),
            search_keywords: clone_opt_vec_string(&request.search_keywords),
            validity: match &request.validity {
                Some(v) => v.clone(),
                None => TopicValidity::default(),
            },
            notes: clone_opt_string(&request.notes),
            raci: request.raci.clone(),
            updated_at: now,
            priority: request.priority,
            has_file_number: request.has_file_number,
            file_number: clone_opt_string(&request.file_number),
            has_shared_file_path: request.has_shared_file_path,
            shared_file_path: clone_opt_string(&request.shared_file_path),
            size: request.size,
            version: 1,
        };
        let out = t.clone();
        let ghost s_before = self@;
        proof {
            assert(t@ =~= created_topic(request@, t@.id, t@.updated_at));
        }
        self.topics.push(t);
        proof {
            assert(self@.topics =~= s_before.topics.push(out@));
            assert forall|i: int| 0 <= i < self@.topics.len() implies 1 <= #[trigger] self@.topics[i].version by {
                if i < s_before.topics.len() {
                    assert(self@.topics[i] == s_before.topics[i]);
                }
            }
            assert forall|i: int, j: int|
                0 <= i < self@.topics.len() && 0 <= j < self@.topics.len() && i != j
                implies self@.topics[i].id != self@.topics[j].id by {
                if i < s_before.topics.len() && j < s_before.topics.len() {
                    assert(s_before.topics[i].id != s_before.topics[j].id);
                } else if i == s_before.topics.len() {
                    assert(!contains_topic(s_before.topics, out@.id));
                    assert(s_before.topics[j].id != out@.id);
                } else {
                    assert(!contains_topic(s_before.topics, out@.id));
                    assert(s_before.topics[i].id != out@.id);
                }
            }
        }
        self.bump_revision();
        Ok(out)
    }

    /// Update a topic under optimistic concurrency: absent request fields
    /// keep their stored value, a mismatched expected version fails with
    /// `Conflict` carrying the authoritative current version and changes
    /// nothing, and a successful update advances the record version and the
    /// global revision by exactly one each.
    pub fn update_topic(&mut self, id: &str, request: &UpdateTopicRequest) -> (r: Result<
        Topic,
        AppError,
    >)
        requires
            old(self)@.wf(),
        ensures
            final(self)@.wf(),
            match r {
                Ok(t) => update_topic_ok(old(self)@, id@, request@, t@, final(self)@),
                Err(e) => final(self)@ == old(self)@ && update_topic_err(
                    old(self)@,
                    id@,
                    request@,
                    e,
                ),
            },
            (r is Err) == update_topic_fails(old(self)@, id@, request@),
    {
        let j = match self.find_topic(id) {
            Some(j) => j,
            None => {
                return Err(AppError::NotFound(String::from_str("Topic not found")));
            },
        };
        proof {
            lemma_topic_lookup(self@.topics, id@, j as int);
        }
        let cur_version = self.topics[j].version;
        if let Some(expected) = request.expected_version {
            if cur_version != expected {
                return Err(
                    AppError::Conflict {
                        message: String::from_str("Version mismatch"),
                        current_version: cur_version,
                    },
                );
            }
        }
        if cur_version == i64::MAX {
            return Err(AppError::Internal(String::from_str("version counter exhausted")));
        }
        if self.revision_id == i64::MAX {
            return Err(AppError::Internal(String::from_str("revision counter exhausted")));
        }
        let now = now_rfc3339();
        let new_t = merged_topic_record(&self.topics[j], request, now, cur_version);
        let out = new_t.clone();
        let ghost s_before = self@;
        proof {
            assert(new_t@ =~= merged_topic(topic_at(s_before.topics, id@), request@, new_t@.updated_at));
        }
        self.topics[j] = new_t;
        proof {
            assert(self@.topics =~= s_before.topics.update(j as int, out@));
            assert forall|a: int, b: int|
                0 <= a < self@.topics.len() && 0 <= b < self@.topics.len() && a != b
                implies self@.topics[a].id != self@.topics[b].id by {
                assert(s_before.topics[a].id != s_before.topics[b].id);
                assert(self@.topics[a].id == s_before.topics[a].id);
                assert(self@.topics[b].id == s_before.topics[b].id);
            }
            assert forall|i: int| 0 <= i < self@.topics.len() implies 1 <= #[trigger] self@.topics[i].version by {
                if i != j {
                    assert(self@.topics[i] == s_before.topics[i]);
                }
            }
        }
        self.bump_revision();
        Ok(out)
    }

    /// Delete a topic. Fails with `NotFound` exactly when no record holds
    /// the identity, leaving everything unchanged — in particular the
    /// revision; a successful deletion removes the record and advances the
    /// revision by exactly one.
    pub fn delete_topic(&mut self, id: &str) -> (r: Result<(), AppError>)
        requires
            old(self)@.wf(),
        ensures
            final(self)@.wf(),
            match r {
                Ok(_) => {
                    &&& contains_topic(old(self)@.topics, id@)
                    &&& final(self)@.topics == old(self)@.topics.remove(
                        topic_index(old(self)@.topics, id@),
                    )
                    &&& final(self)@.revision_id == old(self)@.revision_id + 1
                    &&& members_tags_unchanged(old(self)@, final(self)@)
                },
                Err(e) => {
                    &&& final(self)@ == old(self)@
                    &&& if !contains_topic(old(self)@.topics, id@) {
                        e is NotFound
                    } else {
                        e is Internal
                    }
                },
            },
            (r is Err) == (!contains_topic(old(self)@.topics, id@) || old(self)@.revision_id
                == i64::MAX),
    {
        let j = match self.find_topic(id) {
            Some(j) => j,
            None => {
                return Err(AppError::NotFound(String::from_str("Topic not found")));
            },
        };
        proof {
            lemma_topic_lookup(self@.topics, id@, j as int);
        }
        if self.revision_id == i64::MAX {
            return Err(AppError::Internal(String::from_str("revision counter exhausted")));
        }
        let ghost s_before = self@;
        self.topics.remove(j);
        proof {
            assert(self@.topics =~= s_before.topics.remove(j as int));
            assert forall|a: int, b: int|
                0 <= a < self@.topics.len() && 0 <= b < self@.topics.len() && a != b
                implies self@.topics[a].id != self@.topics[b].id by {
                let a0 = if a < j { a } else { a + 1 };
                let b0 = if b < j { b } else { b + 1 };
                assert(self@.topics[a] == s_before.topics[a0]);
                assert(self@.topics[b] == s_before.topics[b0]);
                assert(s_before.topics[a0].id != s_before.topics[b0].id);
            }
            assert forall|i: int| 0 <= i < self@.topics.len() implies 1 <= #[trigger] self@.topics[i].version by {
                let i0 = if i < j { i } else { i + 1 };
                assert(self@.topics[i] == s_before.topics[i0]);
            }
        }
        self.bump_revision();
        Ok(())
    }

    /// Apply a batch of topic updates atomically: every entry is applied to
    /// a working copy under the same per-record rule as a single update,
    /// with later entries seeing the versions earlier entries produced. If
    /// any entry's topic is missing or fails its version check, nothing at
    /// all changes and that entry's error is returned; on full success the
    /// global revision advances by exactly one for the whole batch,
    /// regardless of its size, and all updated topics are returned in
    /// request order.
    pub fn batch_update_topics(&mut self, updates: &Vec<BatchTopicUpdate>) -> (r: Result<
        Vec<Topic>,
        AppError,
    >)
        requires
            old(self)@.wf(),
        ensures
            final(self)@.wf(),
            match r {
                Ok(outs) => {
                    &&& updates.deep_view().len() > 0
                    &&& old(self)@.revision_id < i64::MAX
                    &&& batch_applies(
                        old(self)@.topics,
                        updates.deep_view(),
                        outs.deep_view(),
                        final(self)@.topics,
                    )
                    &&& final(self)@.revision_id == old(self)@.revision_id + 1
                    &&& members_tags_unchanged(old(self)@, final(self)@)
                },
                Err(e) => final(self)@ == old(self)@ && batch_update_err(
                    old(self)@,
                    updates.deep_view(),
                    e,
                ),
            },
            (r is Err) == (updates.deep_view().len() == 0 || old(self)@.revision_id == i64::MAX
                || batch_outcome(erase_topics_ts(old(self)@.topics), updates.deep_view()) is Err),
    {
        if updates.len() == 0 {
            return Err(AppError::Validation(String::from_str("No updates provided")));
        }
        if self.revision_id == i64::MAX {
            return Err(AppError::Internal(String::from_str("revision counter exhausted")));
        }
        let ghost s0 = self@;
        let ghost ups = updates.deep_view();
        let mut working: Vec<Topic> = self.clone_topics();
        let mut outs: Vec<Topic> = Vec::new();
        let mut k: usize = 0;
        proof {
            assert(ups.take(0) =~= Seq::<BatchItemView>::empty());
            assert(outs.deep_view() =~= Seq::<TopicView>::empty());
            assert(ups.skip(0) =~= ups);
        }
        while k < updates.len()
            invariant
                self@ == s0,
                s0.wf(),
                s0.revision_id < i64::MAX,
                ups == updates.deep_view(),
                0 < ups.len(),
                k <= ups.len(),
                updates@.len() == ups.len(),
                outs.deep_view().len() == k,
                topic_ids_unique(working.deep_view()),
                forall|i: int|
                    0 <= i < working.deep_view().len() ==> 1 <= (
                    #[trigger] working.deep_view()[i]).version,
                batch_applies(s0.topics, ups.take(k as int), outs.deep_view(), working.deep_view()),
                batch_outcome(erase_topics_ts(s0.topics), ups) == batch_outcome(
                    erase_topics_ts(working.deep_view()),
                    ups.skip(k as int),
                ),
            decreases ups.len() - k,
        {
            let u = &updates[k];
            let ghost w0 = working.deep_view();
            proof {
                assert(u@ == ups[k as int]);
                assert(ups.skip(k as int).len() > 0);
                assert(ups.skip(k as int)[0] == ups[k as int]);
                assert(ups.skip(k as int).drop_first() =~= ups.skip(k as int + 1));
            }
            let j = match find_topic_in(&working, u.topic_id.as_str()) {
                Some(j) => j,
                None => {
                    proof {
                        lemma_erase_lookup(w0, u@.topic_id);
                        assert(batch_step(erase_topics_ts(w0), ups[k as int]) == Err::<
                            Seq<TopicView>,
                            BatchFailure,
                        >(BatchFailure::NotFound));
                        assert(batch_outcome(erase_topics_ts(w0), ups.skip(k as int)) == Err::<
                            Seq<TopicView>,
                            BatchFailure,
                        >(BatchFailure::NotFound));
                    }
                    return Err(AppError::NotFound(String::from_str("Topic not found")));
                },
            };
            proof {
                lemma_topic_lookup(w0, u@.topic_id, j as int);
                lemma_erase_lookup(w0, u@.topic_id);
            }
            let cur_version = working[j].version;
            if let Some(expected) = u.changes.expected_version {
                if cur_version != expected {
                    proof {
                        assert(batch_step(erase_topics_ts(w0), ups[k as int]) == Err::<
                            Seq<TopicView>,
                            BatchFailure,
                        >(BatchFailure::Conflict { current_version: cur_version as int }));
                        assert(batch_outcome(erase_topics_ts(w0), ups.skip(k as int)) == Err::<
                            Seq<TopicView>,
                            BatchFailure,
                        >(BatchFailure::Conflict { current_version: cur_version as int }));
                    }
                    return Err(
                        AppError::Conflict {
                            message: String::from_str("Version mismatch"),
                            current_version: cur_version,
                        },
                    );
                }
            }
            if cur_version == i64::MAX {
                proof {
                    assert(batch_step(erase_topics_ts(w0), ups[k as int]) == Err::<
                        Seq<TopicView>,
                        BatchFailure,
                    >(BatchFailure::Exhausted));
                }
                return Err(AppError::Internal(String::from_str("version counter exhausted")));
            }
            let now = now_rfc3339();
            let new_t = merged_topic_record(&working[j], &u.changes, now, cur_version);
            let out_t = new_t.clone();
            let ghost outs0 = outs.deep_view();
            working[j] = new_t;
            outs.push(out_t);
            proof {
                assert(working.deep_view() =~= w0.update(j as int, out_t@));
                assert(outs.deep_view() =~= outs0.push(out_t@));
                assert forall|a: int, b: int|
                    0 <= a < working.deep_view().len() && 0 <= b < working.deep_view().len() && a
                        != b implies working.deep_view()[a].id != working.deep_view()[b].id by {
                    assert(w0[a].id != w0[b].id);
                    assert(working.deep_view()[a].id == w0[a].id);
                    assert(working.deep_view()[b].id == w0[b].id);
                }
                assert forall|i: int| 0 <= i < working.deep_view().len() implies 1 <= (
                #[trigger] working.deep_view()[i]).version by {
                    if i != j {
                        assert(working.deep_view()[i] == w0[i]);
                    }
                }
                assert(ups.take(k as int + 1) =~= ups.take(k as int).push(ups[k as int]));
                lemma_batch_applies_snoc(
                    s0.topics,
                    ups.take(k as int),
                    outs0,
                    w0,
                    ups[k as int],
                    out_t@,
                );
                lemma_erase_step(w0, ups[k as int], j as int, out_t@);
            }
            k = k + 1;
        }
        proof {
            assert(ups.take(ups.len() as int) =~= ups);
            assert(ups.skip(ups.len() as int) =~= Seq::<BatchItemView>::empty());
        }
        self.topics = working;
        self.bump_revision();
        Ok(outs)
    }
}


/// Law: after a successful member creation, the store holds the returned
/// record under its identity — a get for that identity yields it — and the
/// record equals the request except for the server-assigned identity and
/// timestamp, with version 1.
pub proof fn lemma_create_then_get_member(
    s0: StoreView,
    req: CreateMemberView,
    m: MemberView,
    s1: StoreView,
)
    requires
        s0.wf(),
        create_member_ok(s0, req, m, s1),
    ensures
        contains_member(s1.members, m.id),
        member_at(s1.members, m.id) == m,
        m.display_name == req.display_name,
        m.email == req.email,
        m.active == req.active,
        m.tags == req.tags,
        m.color == req.color,
        m.version == 1,
{
    let n = s0.members.len();
    assert(s1.members[n as int] == m);
    assert forall|i: int, j: int|
        0 <= i < s1.members.len() && 0 <= j < s1.members.len() && i != j
        implies s1.members[i].id != s1.members[j].id by {
        if i < n && j < n {
            assert(s0.members[i].id != s0.members[j].id);
        } else if i == n {
            assert(s0.members[j].id != m.id);
        } else {
            assert(s0.members[i].id != m.id);
        }
    }
    lemma_member_lookup(s1.members, m.id, n as int);
}

/// Law: after a successful tag creation, the store holds the returned
/// record under its identity, and the record equals the request except for
/// the server-assigned identity and timestamps, with version 1.
pub proof fn lemma_create_then_get_tag(
    s0: StoreView,
    req: CreateTagView,
    t: TagView,
    s1: StoreView,
)
    requires
        s0.wf(),
        create_tag_ok(s0, req, t, s1),
    ensures
        contains_tag(s1.tags, t.id),
        tag_at(s1.tags, t.id) == t,
        t.name == req.name,
        t.search_keywords == req.search_keywords,
        t.hinweise == req.hinweise,
        t.copy_paste_text == req.copy_paste_text,
        t.color == req.color,
        t.is_super_tag == req.is_super_tag,
        t.is_gvpl_tag == req.is_gvpl_tag,
        t.created_by == req.created_by,
        t.modified_at == t.created_at,
        t.version == 1,
{
    let n = s0.tags.len();
    assert(s1.tags[n as int] == t);
    assert forall|i: int, j: int|
        0 <= i < s1.tags.len() && 0 <= j < s1.tags.len() && i != j
        implies s1.tags[i].id != s1.tags[j].id by {
        if i < n && j < n {
            assert(s0.tags[i].id != s0.tags[j].id);
        } else if i == n {
            assert(s0.tags[j].id != t.id);
        } else {
            assert(s0.tags[i].id != t.id);
        }
    }
    lemma_tag_lookup(s1.tags, t.id, n as int);
}

/// Law: after a successful topic creation, the store holds the returned
/// record under its identity, and the record equals the request except for
/// the server-assigned identity and timestamp, with version 1 and an
/// unbounded validity window when none was requested.
pub proof fn lemma_create_then_get_topic(
    s0: StoreView,
    req: CreateTopicView,
    t: TopicView,
    s1: StoreView,
)
    requires
        s0.wf(),
        create_topic_ok(s0, req, t, s1),
    ensures
        contains_topic(s1.topics, t.id),
        topic_at(s1.topics, t.id) == t,
        t.header == req.header,
        t.description == req.description,
        t.tags == req.tags,
        t.search_keywords == req.search_keywords,
        t.validity == match req.validity {
            Some(v) => v,
            None => ValidityView { always_valid: true, valid_from: None, valid_to: None },
        },
        t.notes == req.notes,
        t.raci == req.raci,
        t.priority == req.priority,
        t.has_file_number == req.has_file_number,
        t.file_number == req.file_number,
        t.has_shared_file_path == req.has_shared_file_path,
        t.shared_file_path == req.shared_file_path,
        t.size == req.size,
        t.version == 1,
{
    let n = s0.topics.len();
    assert(s1.topics[n as int] == t);
    assert forall|i: int, j: int|
        0 <= i < s1.topics.len() && 0 <= j < s1.topics.len() && i != j
        implies s1.topics[i].id != s1.topics[j].id by {
        if i < n && j < n {
            assert(s0.topics[i].id != s0.topics[j].id);
        } else if i == n {
            assert(s0.topics[j].id != t.id);
        } else {
            assert(s0.topics[i].id != t.id);
        }
    }
    lemma_topic_lookup(s1.topics, t.id, n as int);
}



/// Law: a successful member update returns a record whose version is
/// exactly one above the stored version it replaced, stores that record
/// under the identity, and advances the global revision by exactly one.
pub proof fn lemma_update_member_versions(
    s0: StoreView,
    id: Seq<char>,
    u: UpdateMemberView,
    m: MemberView,
    s1: StoreView,
)
    requires
        s0.wf(),
        update_member_ok(s0, id, u, m, s1),
    ensures
        m.version == member_at(s0.members, id).version + 1,
        s1.revision_id == s0.revision_id + 1,
        contains_member(s1.members, id),
        member_at(s1.members, id) == m,
{
    let j = member_index(s0.members, id);
    assert(0 <= j < s0.members.len() && s0.members[j].id == id);
    assert(s1.members[j] == m);
    assert forall|a: int, b: int|
        0 <= a < s1.members.len() && 0 <= b < s1.members.len() && a != b
        implies s1.members[a].id != s1.members[b].id by {
        assert(s1.members[a].id == s0.members[a].id);
        assert(s1.members[b].id == s0.members[b].id);
        assert(s0.members[a].id != s0.members[b].id);
    }
    lemma_member_lookup(s1.members, id, j);
}

/// Law: a successful tag update returns a record whose version is exactly
/// one above the stored version it replaced, stores that record under the
/// identity, and advances the global revision by exactly one.
pub proof fn lemma_update_tag_versions(
    s0: StoreView,
    id: Seq<char>,
    u: UpdateTagView,
    t: TagView,
    s1: StoreView,
)
    requires
        s0.wf(),
        update_tag_ok(s0, id, u, t, s1),
    ensures
        t.version == tag_at(s0.tags, id).version + 1,
        s1.revision_id == s0.revision_id + 1,
        contains_tag(s1.tags, id),
        tag_at(s1.tags, id) == t,
{
    let j = tag_index(s0.tags, id);
    assert(0 <= j < s0.tags.len() && s0.tags[j].id == id);
    assert(s1.tags[j] == t);
    assert forall|a: int, b: int|
        0 <= a < s1.tags.len() && 0 <= b < s1.tags.len() && a != b
        implies s1.tags[a].id != s1.tags[b].id by {
        assert(s1.tags[a].id == s0.tags[a].id);
        assert(s1.tags[b].id == s0.tags[b].id);
        assert(s0.tags[a].id != s0.tags[b].id);
    }
    lemma_tag_lookup(s1.tags, id, j);
}

/// Law: a successful topic update returns a record whose version is
/// exactly one above the stored version it replaced, stores that record
/// under the identity, and advances the global revision by exactly one.
pub proof fn lemma_update_topic_versions(
    s0: StoreView,
    id: Seq<char>,
    u: UpdateTopicView,
    t: TopicView,
    s1: StoreView,
)
    requires
        s0.wf(),
        update_topic_ok(s0, id, u, t, s1),
    ensures
        t.version == topic_at(s0.topics, id).version + 1,
        s1.revision_id == s0.revision_id + 1,
        contains_topic(s1.topics, id),
        topic_at(s1.topics, id) == t,
{
    let j = topic_index(s0.topics, id);
    assert(0 <= j < s0.topics.len() && s0.topics[j].id == id);
    assert(s1.topics[j] == t);
    assert forall|a: int, b: int|
        0 <= a < s1.topics.len() && 0 <= b < s1.topics.len() && a != b
        implies s1.topics[a].id != s1.topics[b].id by {
        assert(s1.topics[a].id == s0.topics[a].id);
        assert(s1.topics[b].id == s0.topics[b].id);
        assert(s0.topics[a].id != s0.topics[b].id);
    }
    lemma_topic_lookup(s1.topics, id, j);
}

} // verus!
