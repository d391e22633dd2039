//! Document building, query planning and the synchronizer rule.

use raci_core::search::build_document;
use raci_core::search::plan_search;
use raci_core::search::sync_action;
use raci_core::search::SearchPlan;
use raci_core::search::SyncAction;
use raci_core::search::WriteEvent;
use raci_core::tag::Tag;
use raci_core::topic::Topic;
use raci_core::topic::TopicRaci;
use raci_core::topic::TopicValidity;

fn plain_topic(id: &str, header: &str) -> Topic {
    Topic {
        id: id.to_string(),
        header: header.to_string(),
        description: None,
        tags: None,
        search_keywords: None,
        validity: TopicValidity::default(),
        notes: None,
        raci: TopicRaci {
            r1_member_id: "owner".to_string(),
            r2_member_id: None,
            r3_member_id: None,
            c_member_ids: Vec::new(),
            i_member_ids: Vec::new(),
        },
        updated_at: "2024-01-01T00:00:00Z".to_string(),
        priority: None,
        has_file_number: None,
        file_number: None,
        has_shared_file_path: None,
        shared_file_path: None,
        size: None,
        version: 1,
    }
}

fn plain_tag(id: &str, name: &str, keywords: &[&str]) -> Tag {
    Tag {
        id: id.to_string(),
        name: name.to_string(),
        search_keywords: if keywords.is_empty() {
            None
        } else {
            Some(keywords.iter().map(|k| k.to_string()).collect())
        },
        hinweise: None,
        copy_paste_text: None,
        color: None,
        is_super_tag: None,
        is_gvpl_tag: None,
        created_at: "2024-01-01T00:00:00Z".to_string(),
        modified_at: "2024-01-01T00:00:00Z".to_string(),
        created_by: "owner".to_string(),
        version: 1,
    }
}

#[test]
fn test_build_document_plain_fields() {
    let mut topic = plain_topic("t1", "Password Reset Procedure");
    topic.description = Some("How to reset your password".to_string());
    topic.search_keywords = Some(vec![
        "password".to_string(),
        "reset".to_string(),
        "security".to_string(),
    ]);
    let doc = build_document(&topic, &Vec::new());
    assert_eq!(doc.topic_id, "t1");
    assert_eq!(doc.header, "Password Reset Procedure");
    assert_eq!(doc.description, "How to reset your password");
    assert_eq!(doc.notes, "");
    assert_eq!(doc.keywords, "password reset security");
    assert_eq!(doc.tag_names, "");
    assert_eq!(doc.tag_keywords, "");
}

#[test]
fn test_build_document_resolves_tags_by_id_or_name() {
    let mut topic = plain_topic("t1", "Mail rules");
    // one tag referenced by identity, one by name, one unrelated
    topic.tags = Some(vec!["tag-a".to_string(), "Security".to_string()]);
    let tags = vec![
        plain_tag("tag-a", "Archive", &["retention"]),
        plain_tag("tag-b", "Security", &["phishing", "spam"]),
        plain_tag("tag-c", "Unrelated", &["nothing"]),
    ];
    let doc = build_document(&topic, &tags);
    assert_eq!(doc.tag_names, "Archive Security");
    assert_eq!(doc.tag_keywords, "retention phishing spam");
}

#[test]
fn test_plan_search_blank_query_is_empty() {
    assert_eq!(plan_search("", 10, 0), SearchPlan::Empty);
    assert_eq!(plan_search("   \t\n", 10, 0), SearchPlan::Empty);
}

#[test]
fn test_plan_search_clamps_limit() {
    assert_eq!(
        plan_search("password", 10, 0),
        SearchPlan::Query { limit: 10, offset: 0, fetch: 10 }
    );
    assert_eq!(
        plan_search("password", 1000, 5),
        SearchPlan::Query { limit: 100, offset: 5, fetch: 105 }
    );
}

#[test]
fn test_sync_action_rule() {
    assert!(matches!(sync_action(&WriteEvent::MemberWritten), SyncAction::DoNothing));
    assert!(matches!(sync_action(&WriteEvent::MemberDeleted), SyncAction::DoNothing));
    match sync_action(&WriteEvent::TopicWritten { topic_id: "t9".to_string() }) {
        SyncAction::IndexTopic { topic_id } => assert_eq!(topic_id, "t9"),
        _ => panic!("a topic write must reindex that topic"),
    }
    match sync_action(&WriteEvent::TopicDeleted { topic_id: "t9".to_string() }) {
        SyncAction::RemoveTopic { topic_id } => assert_eq!(topic_id, "t9"),
        _ => panic!("a topic deletion must remove its document"),
    }
    match sync_action(&WriteEvent::TopicsBatchUpdated {
        topic_ids: vec!["a".to_string(), "b".to_string()],
    }) {
        SyncAction::IndexTopics { topic_ids } => {
            assert_eq!(topic_ids, vec!["a".to_string(), "b".to_string()])
        }
        _ => panic!("a batch must reindex each updated topic"),
    }
    assert!(matches!(sync_action(&WriteEvent::TagWritten), SyncAction::Rebuild));
    assert!(matches!(sync_action(&WriteEvent::TagDeleted), SyncAction::Rebuild));
}
