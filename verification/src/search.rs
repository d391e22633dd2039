//! The pure logic behind the full-text search index over topics.
//!
//! The index itself is an outside inverted-index engine driven by the
//! transport layer; everything it is fed, and every decision about a query,
//! is computed and verified here. A topic is indexed as one document with
//! six text fields — header, description, notes, its own space-joined
//! keywords, the names of its attached tags, and those tags' keywords — and
//! a blank query yields an empty result list without consulting the index.

use vstd::prelude::*;
use vstd::string::StringExecFns;
use crate::tag::Tag;
use crate::tag::TagView;
use crate::text::blank;
use crate::text::clone_vec_string;
use crate::text::is_blank;
use crate::text::str_eq;
use crate::topic::Topic;
use crate::topic::TopicView;

verus! {

/// Maximum number of search results a query may request.
pub const MAX_SEARCH_LIMIT: usize = 100;

/// Search query parameters.
pub struct SearchQuery {
    /// Search query string.
    pub q: String,
    /// Maximum number of results.
    pub limit: usize,
    /// Offset for pagination.
    pub offset: usize,
}

/// The number of results a query gets when it names no limit.
pub fn default_limit() -> (r: usize)
    ensures
        r == 20,
{
    20
}

/// The strings of an optional list, or nothing.
pub open spec fn opt_strs(o: Option<Seq<Seq<char>>>) -> Seq<Seq<char>> {
    match o {
        Some(s) => s,
        None => Seq::<Seq<char>>::empty(),
    }
}

/// An optional string, or the empty string.
pub open spec fn opt_str(o: Option<Seq<char>>) -> Seq<char> {
    match o {
        Some(s) => s,
        None => Seq::<char>::empty(),
    }
}

/// The strings joined by single spaces.
pub open spec fn join_spaces(s: Seq<Seq<char>>) -> Seq<char>
    decreases s.len(),
{
    if s.len() == 0 {
        Seq::<char>::empty()
    } else if s.len() == 1 {
        s[0]
    } else {
        join_spaces(s.drop_last()) + seq![' '] + s.last()
    }
}

/// A topic refers to a tag either by its identity or by its name; callers
/// use the two interchangeably.
pub open spec fn tag_attached(topic_tags: Seq<Seq<char>>, t: TagView) -> bool {
    topic_tags.contains(t.id) || topic_tags.contains(t.name)
}

/// The names of the attached tags, in tag-list order.
pub open spec fn attached_tag_names(tags: Seq<TagView>, topic_tags: Seq<Seq<char>>) -> Seq<
    Seq<char>,
>
    decreases tags.len(),
{
    if tags.len() == 0 {
        Seq::<Seq<char>>::empty()
    } else {
        let rest = attached_tag_names(tags.drop_last(), topic_tags);
        if tag_attached(topic_tags, tags.last()) {
            rest.push(tags.last().name)
        } else {
            rest
        }
    }
}

/// The search keywords of the attached tags, concatenated in tag-list
/// order.
pub open spec fn attached_tag_keywords(tags: Seq<TagView>, topic_tags: Seq<Seq<char>>) -> Seq<
    Seq<char>,
>
    decreases tags.len(),
{
    if tags.len() == 0 {
        Seq::<Seq<char>>::empty()
    } else {
        let rest = attached_tag_keywords(tags.drop_last(), topic_tags);
        if tag_attached(topic_tags, tags.last()) {
            rest + opt_strs(tags.last().search_keywords)
        } else {
            rest
        }
    }
}

/// Mathematical model of an index document.
#[verifier::ext_equal]
pub struct SearchDocView {
    pub topic_id: Seq<char>,
    pub header: Seq<char>,
    pub description: Seq<char>,
    pub notes: Seq<char>,
    pub keywords: Seq<char>,
    pub tag_names: Seq<char>,
    pub tag_keywords: Seq<char>,
}

/// The document derived from a topic against the full tag list.
pub open spec fn document_for(t: TopicView, tags: Seq<TagView>) -> SearchDocView {
    SearchDocView {
        topic_id: t.id,
        header: t.header,
        description: opt_str(t.description),
        notes: opt_str(t.notes),
        keywords: join_spaces(opt_strs(t.search_keywords)),
        tag_names: join_spaces(attached_tag_names(tags, opt_strs(t.tags))),
        tag_keywords: join_spaces(attached_tag_keywords(tags, opt_strs(t.tags))),
    }
}

/// One document of the search index: the topic identity, stored so a hit
/// can name its topic, and the six independently weighted text fields.
pub struct SearchDoc {
    pub topic_id: String,
    pub header: String,
    pub description: String,
    pub notes: String,
    pub keywords: String,
    pub tag_names: String,
    pub tag_keywords: String,
}

impl View for SearchDoc {
    type V = SearchDocView;

    open spec fn view(&self) -> SearchDocView {
        SearchDocView {
            topic_id: self.topic_id@,
            header: self.header@,
            description: self.description@,
            notes: self.notes@,
            keywords: self.keywords@,
            tag_names: self.tag_names@,
            tag_keywords: self.tag_keywords@,
        }
    }
}

impl DeepView for SearchDoc {
    type V = SearchDocView;

    open spec fn deep_view(&self) -> SearchDocView {
        self@
    }
}

/// Whether the list holds this string.
fn contains_str(list: &Vec<String>, x: &str) -> (r: bool)
    ensures
        r == list.deep_view().contains(x@),
{
    let mut i: usize = 0;
    while i < list.len()
        invariant
            i <= list.deep_view().len(),
            forall|j: int| 0 <= j < i ==> #[trigger] list.deep_view()[j] != x@,
        decreases list.deep_view().len() - i,
    {
        if str_eq(list[i].as_str(), x) {
            proof {
                assert(list.deep_view()[i as int] == x@);
            }
            return true;
        }
        i = i + 1;
    }
    proof {
        assert(!list.deep_view().contains(x@));
    }
    false
}

/// Whether the topic carries this tag, by identity or by name.
fn is_attached(topic: &Topic, tg: &Tag) -> (r: bool)
    ensures
        r == tag_attached(opt_strs(topic@.tags), tg@),
{
    match &topic.tags {
        Some(list) => contains_str(list, tg.id.as_str()) || contains_str(list, tg.name.as_str()),
        None => false,
    }
}

/// The strings joined by single spaces.
fn join_all(items: &Vec<String>) -> (r: String)
    ensures
        r@ == join_spaces(items.deep_view()),
{
    let ghost sv = items.deep_view();
    let mut r = String::new();
    let mut i: usize = 0;
    proof {
        reveal_strlit(" ");
        assert(sv.take(0) =~= Seq::<Seq<char>>::empty());
    }
    while i < items.len()
        invariant
            i <= sv.len(),
            sv == items.deep_view(),
            r@ == join_spaces(sv.take(i as int)),
        decreases sv.len() - i,
    {
        proof {
            reveal_strlit(" ");
            assert(" "@ =~= seq![' ']);
            assert(sv.take(i as int + 1).drop_last() =~= sv.take(i as int));
            assert(sv.take(i as int + 1).last() == sv[i as int]);
        }
        if i > 0 {
            r.append(" ");
        }
        let ghost r_mid = r@;
        r.append(items[i].as_str());
        proof {
            if i == 0 {
                assert(join_spaces(sv.take(1)) == sv[0]);
                assert(r@ =~= sv[0]);
            } else {
                assert(join_spaces(sv.take(i as int + 1)) == join_spaces(sv.take(i as int))
                    + seq![' '] + sv[i as int]);
                assert(r@ =~= join_spaces(sv.take(i as int + 1)));
            }
        }
        i = i + 1;
    }
    proof {
        assert(sv.take(sv.len() as int) =~= sv);
    }
    r
}

/// Build the index document for a topic: its own text fields verbatim,
/// empty strings for absent ones, its keywords space-joined, and the names
/// and keywords of every attached tag, resolved against the full tag list
/// by identity or name.
pub fn build_document(topic: &Topic, tags: &Vec<Tag>) -> (r: SearchDoc)
    ensures
        r@ == document_for(topic@, tags.deep_view()),
{
    let ghost tv = tags.deep_view();
    let ghost tt = opt_strs(topic@.tags);
    let mut names: Vec<String> = Vec::new();
    let mut kws: Vec<String> = Vec::new();
    let mut i: usize = 0;
    proof {
        assert(tv.take(0) =~= Seq::<TagView>::empty());
        assert(names.deep_view() =~= attached_tag_names(tv.take(0), tt));
        assert(kws.deep_view() =~= attached_tag_keywords(tv.take(0), tt));
    }
    while i < tags.len()
        invariant
            i <= tv.len(),
            tv == tags.deep_view(),
            tt == opt_strs(topic@.tags),
            names.deep_view() == attached_tag_names(tv.take(i as int), tt),
            kws.deep_view() == attached_tag_keywords(tv.take(i as int), tt),
        decreases tv.len() - i,
    {
        let tg = &tags[i];
        let ghost names0 = names.deep_view();
        let ghost kws0 = kws.deep_view();
        proof {
            assert(tg@ == tv[i as int]);
            assert(tv.take(i as int + 1).drop_last() =~= tv.take(i as int));
            assert(tv.take(i as int + 1).last() == tv[i as int]);
        }
        if is_attached(topic, tg) {
            names.push(tg.name.clone());
            proof {
                assert(names.deep_view() =~= names0.push(tv[i as int].name));
            }
            if let Some(kw) = &tg.search_keywords {
                let mut m: usize = 0;
                proof {
                    assert(kws.deep_view() =~= kws0 + kw.deep_view().take(0));
                }
                while m < kw.len()
                    invariant
                        m <= kw.deep_view().len(),
                        kws.deep_view() == kws0 + kw.deep_view().take(m as int),
                    decreases kw.deep_view().len() - m,
                {
                    let ghost kmid = kws.deep_view();
                    kws.push(kw[m].clone());
                    proof {
                        assert(kws.deep_view() =~= kmid.push(kw.deep_view()[m as int]));
                        assert(kmid.push(kw.deep_view()[m as int]) =~= kws0 + kw.deep_view().take(
                            m as int + 1,
                        ));
                    }
                    m = m + 1;
                }
                proof {
                    assert(kw.deep_view().take(kw.deep_view().len() as int) =~= kw.deep_view());
                    assert(opt_strs(tv[i as int].search_keywords) == kw.deep_view());
                }
            } else {
                proof {
                    assert(opt_strs(tv[i as int].search_keywords) =~= Seq::<Seq<char>>::empty());
                    assert(kws.deep_view() =~= kws0 + opt_strs(tv[i as int].search_keywords));
                }
            }
        }
        i = i + 1;
    }
    proof {
        assert(tv.take(tv.len() as int) =~= tv);
    }
    let keywords = match &topic.search_keywords {
        Some(k) => join_all(k),
        None => {
            proof {
                assert(opt_strs(topic@.search_keywords) =~= Seq::<Seq<char>>::empty());
            }
            String::new()
        },
    };
    let r = SearchDoc {
        topic_id: topic.id.clone(),
        header: topic.header.clone(),
        description: match &topic.description {
            Some(d) => d.clone(),
            None => String::new(),
        },
        notes: match &topic.notes {
            Some(n) => n.clone(),
            None => String::new(),
        },
        keywords: keywords,
        tag_names: join_all(&names),
        tag_keywords: join_all(&kws),
    };
    proof {
        assert(r@ =~= document_for(topic@, tags.deep_view()));
    }
    r
}

/// Build one document per topic, in order: the full content of a rebuilt
/// index.
pub fn build_documents(topics: &Vec<Topic>, tags: &Vec<Tag>) -> (r: Vec<SearchDoc>)
    ensures
        r.deep_view().len() == topics.deep_view().len(),
        forall|i: int|
            0 <= i < topics.deep_view().len() ==> r.deep_view()[i] == document_for(
                topics.deep_view()[i],
                tags.deep_view(),
            ),
{
    let mut r: Vec<SearchDoc> = Vec::new();
    let mut i: usize = 0;
    while i < topics.len()
        invariant
            i <= topics.deep_view().len(),
            r@.len() == i,
            forall|j: int|
                0 <= j < i ==> (#[trigger] r@[j])@ == document_for(
                    topics.deep_view()[j],
                    tags.deep_view(),
                ),
        decreases topics.deep_view().len() - i,
    {
        let d = build_document(&topics[i], tags);
        r.push(d);
        i = i + 1;
    }
    r
}

/// How to answer a search request.
#[derive(Debug, PartialEq, Eq, Structural)]
pub enum SearchPlan {
    /// A blank query: answer with an empty result list, without consulting
    /// the index — this is not an error.
    Empty,
    /// A real query: consult the index, scoring at most `fetch` documents,
    /// and hand back the window `offset ..` of them, at most `limit` long.
    Query { limit: usize, offset: usize, fetch: usize },
}

/// Decide a search request: a blank query is answered empty at once; any
/// other query is put to the index with the limit clamped to
/// `MAX_SEARCH_LIMIT` and enough documents fetched to cover the offset.
pub fn plan_search(q: &str, limit: usize, offset: usize) -> (r: SearchPlan)
    ensures
        blank(q@) <==> r == SearchPlan::Empty,
        !blank(q@) ==> (r matches SearchPlan::Query { limit: l, offset: o, fetch } && {
            &&& l == if limit > MAX_SEARCH_LIMIT {
                MAX_SEARCH_LIMIT as int
            } else {
                limit as int
            }
            &&& o == offset
            &&& fetch == if l + offset > usize::MAX {
                usize::MAX as int
            } else {
                l + offset
            }
        }),
{
    if is_blank(q) {
        return SearchPlan::Empty;
    }
    let l: usize = if limit > MAX_SEARCH_LIMIT {
        MAX_SEARCH_LIMIT
    } else {
        limit
    };
    let fetch: usize = if offset > usize::MAX - l {
        usize::MAX
    } else {
        l + offset
    };
    SearchPlan::Query { limit: l, offset: offset, fetch: fetch }
}

/// A committed store write, as the index synchronizer sees it.
pub enum WriteEvent {
    /// A member was created or updated.
    MemberWritten,
    /// A member was deleted.
    MemberDeleted,
    /// A topic was created or updated.
    TopicWritten { topic_id: String },
    /// A topic was deleted.
    TopicDeleted { topic_id: String },
    /// A batch of topics was updated.
    TopicsBatchUpdated { topic_ids: Vec<String> },
    /// A tag was created or updated.
    TagWritten,
    /// A tag was deleted.
    TagDeleted,
}

/// What the synchronizer must do to the index after a committed write. The
/// action is best-effort: a failure while performing it is logged and never
/// rolls back or fails the write itself.
pub enum SyncAction {
    /// Member records are not indexed: do nothing.
    DoNothing,
    /// Upsert the document of one topic.
    IndexTopic { topic_id: String },
    /// Upsert the documents of the given topics.
    IndexTopics { topic_ids: Vec<String> },
    /// Delete the document of one topic; absence is not an error.
    RemoveTopic { topic_id: String },
    /// Discard all documents and re-add one per topic: tags affect derived
    /// fields of every topic that references them.
    Rebuild,
}

/// The synchronizer's rule: after a topic write, reindex that topic; after
/// a topic deletion, remove its document; after a batch, reindex each
/// updated topic; after any tag write or deletion, rebuild the whole index;
/// member writes leave the index alone.
pub fn sync_action(e: &WriteEvent) -> (r: SyncAction)
    ensures
        match e {
            WriteEvent::MemberWritten => r is DoNothing,
            WriteEvent::MemberDeleted => r is DoNothing,
            WriteEvent::TopicWritten { topic_id } => r matches SyncAction::IndexTopic {
                topic_id: t,
            } && t@ == topic_id@,
            WriteEvent::TopicDeleted { topic_id } => r matches SyncAction::RemoveTopic {
                topic_id: t,
            } && t@ == topic_id@,
            WriteEvent::TopicsBatchUpdated { topic_ids } => r matches SyncAction::IndexTopics {
                topic_ids: ts,
            } && ts@ == topic_ids@,
            WriteEvent::TagWritten => r is Rebuild,
            WriteEvent::TagDeleted => r is Rebuild,
        },
{
    match e {
        WriteEvent::MemberWritten => SyncAction::DoNothing,
        WriteEvent::MemberDeleted => SyncAction::DoNothing,
        WriteEvent::TopicWritten { topic_id } => SyncAction::IndexTopic {
            topic_id: topic_id.clone(),
        },
        WriteEvent::TopicDeleted { topic_id } => SyncAction::RemoveTopic {
            topic_id: topic_id.clone(),
        },
        WriteEvent::TopicsBatchUpdated { topic_ids } => SyncAction::IndexTopics {
            topic_ids: clone_vec_string(topic_ids),
        },
        WriteEvent::TagWritten => SyncAction::Rebuild,
        WriteEvent::TagDeleted => SyncAction::Rebuild,
    }
}

} // verus!
