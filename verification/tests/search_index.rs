//! The verified document builder driving a real inverted-index engine, as
//! the service wires it at runtime.

use raci_core::member::CreateMemberRequest;
use raci_core::search::build_documents;
use raci_core::search::plan_search;
use raci_core::search::SearchDoc;
use raci_core::search::SearchPlan;
use raci_core::store::Store;
use raci_core::tag::CreateTagRequest;
use raci_core::topic::CreateTopicRequest;
use raci_core::topic::Topic;
use raci_core::topic::TopicRaci;
use raci_core::topic::TopicValidity;

use tantivy::collector::TopDocs;
use tantivy::query::QueryParser;
use tantivy::schema::Field;
use tantivy::schema::Schema;
use tantivy::schema::Value;
use tantivy::schema::STORED;
use tantivy::schema::TEXT;
use tantivy::Index;
use tantivy::TantivyDocument;

struct TestIndex {
    index: Index,
    topic_id: Field,
    fields: Vec<Field>,
}

/// Build an in-memory index over the six weighted text fields, one document
/// per entry, with the topic identity stored for retrieval.
fn index_documents(docs: &[SearchDoc]) -> TestIndex {
    let mut builder = Schema::builder();
    let topic_id = builder.add_text_field("topic_id", STORED);
    let header = builder.add_text_field("header", TEXT | STORED);
    let description = builder.add_text_field("description", TEXT);
    let notes = builder.add_text_field("notes", TEXT);
    let keywords = builder.add_text_field("keywords", TEXT);
    let tag_names = builder.add_text_field("tag_names", TEXT);
    let tag_keywords = builder.add_text_field("tag_keywords", TEXT);
    let schema = builder.build();

    let index = Index::create_in_ram(schema);
    let mut writer = index.writer::<TantivyDocument>(15_000_000).unwrap();
    for doc in docs {
        let mut d = TantivyDocument::new();
        d.add_text(topic_id, &doc.topic_id);
        d.add_text(header, &doc.header);
        d.add_text(description, &doc.description);
        d.add_text(notes, &doc.notes);
        d.add_text(keywords, &doc.keywords);
        d.add_text(tag_names, &doc.tag_names);
        d.add_text(tag_keywords, &doc.tag_keywords);
        writer.add_document(d).unwrap();
    }
    writer.commit().unwrap();

    TestIndex {
        index,
        topic_id,
        fields: vec![header, description, notes, keywords, tag_names, tag_keywords],
    }
}

/// Answer a query as the service does: a blank query yields an empty list
/// without consulting the index; anything else is parsed against the six
/// text fields and ranked by descending score.
fn search(ix: &TestIndex, query: &str, limit: usize, offset: usize) -> Vec<(String, f32)> {
    let (limit, offset, fetch) = match plan_search(query, limit, offset) {
        SearchPlan::Empty => return Vec::new(),
        SearchPlan::Query { limit, offset, fetch } => (limit, offset, fetch),
    };
    let reader = ix.index.reader().unwrap();
    let searcher = reader.searcher();
    let parser = QueryParser::for_index(&ix.index, ix.fields.clone());
    let parsed = parser.parse_query(query).unwrap();
    let top = searcher
        .search(&parsed, &TopDocs::with_limit(fetch.max(1)).order_by_score())
        .unwrap();
    top.into_iter()
        .skip(offset)
        .take(limit)
        .filter_map(|(score, addr)| {
            let doc: TantivyDocument = searcher.doc(addr).ok()?;
            let id = doc.get_first(ix.topic_id)?.as_str()?.to_string();
            Some((id, score))
        })
        .collect()
}

fn create_test_topic(id: &str, header: &str, description: &str) -> Topic {
    Topic {
        id: id.to_string(),
        header: header.to_string(),
        description: Some(description.to_string()),
        tags: None,
        search_keywords: None,
        validity: TopicValidity::default(),
        notes: None,
        raci: TopicRaci {
            r1_member_id: String::new(),
            r2_member_id: None,
            r3_member_id: None,
            c_member_ids: Vec::new(),
            i_member_ids: Vec::new(),
        },
        updated_at: "2024-01-01T00:00:00Z".to_string(),
        priority: None,
        has_file_number: None,
        file_number: None,
        has_shared_file_path: None,
        shared_file_path: None,
        size: None,
        version: 1,
    }
}

#[test]
fn test_search_index_creation() {
    let topics = vec![
        create_test_topic("1", "Password Reset", "How to reset your password"),
        create_test_topic("2", "Onboarding", "New employee onboarding process"),
    ];
    let ix = index_documents(&build_documents(&topics, &Vec::new()));

    let results = search(&ix, "password", 10, 0);
    assert!(!results.is_empty());
    assert_eq!(results[0].0, "1");
}

#[test]
fn test_search_empty_query() {
    let topics = vec![create_test_topic("1", "Password Reset", "How to reset your password")];
    let ix = index_documents(&build_documents(&topics, &Vec::new()));

    let results = search(&ix, "", 10, 0);
    assert!(results.is_empty());
}

#[test]
fn test_search_endpoint_scenario() {
    // an indexed topic with a matching header comes back with a positive
    // score; an unrelated query finds the other topic
    let mut store = Store::new();
    let owner = store
        .create_member(&CreateMemberRequest {
            display_name: "Search Test Owner".to_string(),
            email: None,
            active: true,
            tags: None,
            color: None,
        })
        .unwrap();
    let raci = TopicRaci {
        r1_member_id: owner.id.clone(),
        r2_member_id: None,
        r3_member_id: None,
        c_member_ids: Vec::new(),
        i_member_ids: Vec::new(),
    };
    let reset = store
        .create_topic(&CreateTopicRequest {
            header: "Password Reset Procedure".to_string(),
            description: Some("How to reset your password".to_string()),
            tags: None,
            search_keywords: Some(vec![
                "password".to_string(),
                "reset".to_string(),
                "security".to_string(),
            ]),
            validity: None,
            notes: None,
            raci: raci.clone(),
            priority: None,
            has_file_number: None,
            file_number: None,
            has_shared_file_path: None,
            shared_file_path: None,
            size: None,
        })
        .unwrap();
    let onboarding = store
        .create_topic(&CreateTopicRequest {
            header: "New Employee Onboarding".to_string(),
            description: Some("Onboarding process for new hires".to_string()),
            tags: None,
            search_keywords: Some(vec!["onboarding".to_string(), "employee".to_string()]),
            validity: None,
            notes: None,
            raci,
            priority: None,
            has_file_number: None,
            file_number: None,
            has_shared_file_path: None,
            shared_file_path: None,
            size: None,
        })
        .unwrap();

    let ix = index_documents(&build_documents(&store.list_topics(), &store.list_tags()));

    let results = search(&ix, "password", 10, 0);
    assert!(!results.is_empty());
    assert_eq!(results[0].0, reset.id);
    assert!(results[0].1 > 0.0);

    let results = search(&ix, "onboarding", 10, 0);
    assert!(!results.is_empty());
    assert_eq!(results[0].0, onboarding.id);
}

#[test]
fn test_tag_delete_drops_keyword_from_search() {
    // a keyword that exists only on a tag stops matching the topic once the
    // tag is deleted and the index rebuilt
    let mut store = Store::new();
    let owner = store
        .create_member(&CreateMemberRequest {
            display_name: "Tag Owner".to_string(),
            email: None,
            active: true,
            tags: None,
            color: None,
        })
        .unwrap();
    let tag = store
        .create_tag(&CreateTagRequest {
            name: "Security".to_string(),
            search_keywords: Some(vec!["phishing".to_string()]),
            hinweise: None,
            copy_paste_text: None,
            color: None,
            is_super_tag: None,
            is_gvpl_tag: None,
            created_by: owner.id.clone(),
        })
        .unwrap();
    let topic = store
        .create_topic(&CreateTopicRequest {
            header: "Mail rules".to_string(),
            description: None,
            tags: Some(vec![tag.id.clone()]),
            search_keywords: None,
            validity: None,
            notes: None,
            raci: TopicRaci {
                r1_member_id: owner.id.clone(),
                r2_member_id: None,
                r3_member_id: None,
                c_member_ids: Vec::new(),
                i_member_ids: Vec::new(),
            },
            priority: None,
            has_file_number: None,
            file_number: None,
            has_shared_file_path: None,
            shared_file_path: None,
            size: None,
        })
        .unwrap();

    let ix = index_documents(&build_documents(&store.list_topics(), &store.list_tags()));
    let results = search(&ix, "phishing", 10, 0);
    assert_eq!(results.len(), 1);
    assert_eq!(results[0].0, topic.id);

    store.delete_tag(&tag.id).unwrap();

    // the synchronizer rebuilds after every tag write or deletion
    let ix = index_documents(&build_documents(&store.list_topics(), &store.list_tags()));
    let results = search(&ix, "phishing", 10, 0);
    assert!(results.is_empty());
}
