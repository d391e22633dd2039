//! The versioned record store: CRUD, optimistic concurrency, the global
//! revision counter, and batch updates.

use raci_core::errors::AppError;
use raci_core::member::CreateMemberRequest;
use raci_core::member::UpdateMemberRequest;
use raci_core::store::Store;
use raci_core::tag::CreateTagRequest;
use raci_core::tag::UpdateTagRequest;
use raci_core::topic::BatchTopicUpdate;
use raci_core::topic::CreateTopicRequest;
use raci_core::topic::TopicRaci;
use raci_core::topic::UpdateTopicRequest;

fn member_request(display_name: &str) -> CreateMemberRequest {
    CreateMemberRequest {
        display_name: display_name.to_string(),
        email: None,
        active: true,
        tags: None,
        color: None,
    }
}

fn member_update() -> UpdateMemberRequest {
    UpdateMemberRequest {
        display_name: None,
        email: None,
        active: None,
        tags: None,
        color: None,
        expected_version: None,
    }
}

fn raci(r1: &str) -> TopicRaci {
    TopicRaci {
        r1_member_id: r1.to_string(),
        r2_member_id: None,
        r3_member_id: None,
        c_member_ids: Vec::new(),
        i_member_ids: Vec::new(),
    }
}

fn topic_request(header: &str, r1: &str) -> CreateTopicRequest {
    CreateTopicRequest {
        header: header.to_string(),
        description: None,
        tags: None,
        search_keywords: None,
        validity: None,
        notes: None,
        raci: raci(r1),
        priority: None,
        has_file_number: None,
        file_number: None,
        has_shared_file_path: None,
        shared_file_path: None,
        size: None,
    }
}

fn topic_update() -> UpdateTopicRequest {
    UpdateTopicRequest {
        header: None,
        description: None,
        tags: None,
        search_keywords: None,
        validity: None,
        notes: None,
        raci: None,
        priority: None,
        has_file_number: None,
        file_number: None,
        has_shared_file_path: None,
        shared_file_path: None,
        size: None,
        expected_version: None,
    }
}

fn tag_request(name: &str, created_by: &str) -> CreateTagRequest {
    CreateTagRequest {
        name: name.to_string(),
        search_keywords: None,
        hinweise: None,
        copy_paste_text: None,
        color: None,
        is_super_tag: None,
        is_gvpl_tag: None,
        created_by: created_by.to_string(),
    }
}

fn tag_update() -> UpdateTagRequest {
    UpdateTagRequest {
        name: None,
        search_keywords: None,
        hinweise: None,
        copy_paste_text: None,
        color: None,
        is_super_tag: None,
        is_gvpl_tag: None,
        expected_version: None,
    }
}

#[test]
fn test_member_crud() {
    let mut store = Store::new();
    assert_eq!(store.get_revision_id(), 0);

    let mut request = member_request("Test User");
    request.email = Some("test@example.com".to_string());
    let created = store.create_member(&request).unwrap();
    assert_eq!(created.display_name, "Test User");
    assert_eq!(created.email.as_deref(), Some("test@example.com"));
    assert!(created.active);
    assert_eq!(created.version, 1);
    assert_eq!(store.get_revision_id(), 1);

    let fetched = store.get_member(&created.id).unwrap();
    assert_eq!(fetched.id, created.id);
    assert_eq!(fetched.display_name, "Test User");
    assert_eq!(fetched.version, 1);

    let listed = store.list_members();
    assert_eq!(listed.len(), 1);

    let mut update = member_update();
    update.display_name = Some("Updated User".to_string());
    update.expected_version = Some(1);
    let updated = store.update_member(&created.id, &update).unwrap();
    assert_eq!(updated.display_name, "Updated User");
    assert_eq!(updated.email.as_deref(), Some("test@example.com"));
    assert_eq!(updated.version, 2);
    assert_eq!(store.get_revision_id(), 2);

    store.delete_member(&created.id).unwrap();
    assert!(store.get_member(&created.id).is_none());
    assert_eq!(store.get_revision_id(), 3);
}

#[test]
fn test_tag_crud() {
    let mut store = Store::new();
    let creator = store.create_member(&member_request("Tag Creator")).unwrap();

    let mut request = tag_request("Test Tag", &creator.id);
    request.search_keywords = Some(vec!["test".to_string(), "demo".to_string()]);
    let created = store.create_tag(&request).unwrap();
    assert_eq!(created.name, "Test Tag");
    assert_eq!(
        created.search_keywords.as_deref(),
        Some(&["test".to_string(), "demo".to_string()][..])
    );
    assert_eq!(created.created_by, creator.id);
    assert_eq!(created.created_at, created.modified_at);
    assert_eq!(created.version, 1);

    let mut update = tag_update();
    update.name = Some("Updated Tag".to_string());
    let updated = store.update_tag(&created.id, &update).unwrap();
    assert_eq!(updated.name, "Updated Tag");
    // immutable after creation
    assert_eq!(updated.created_at, created.created_at);
    assert_eq!(updated.created_by, creator.id);
    assert_eq!(updated.version, 2);

    store.delete_tag(&created.id).unwrap();
    assert!(store.get_tag(&created.id).is_none());
    assert!(store.list_tags().is_empty());
}

#[test]
fn test_topic_crud() {
    let mut store = Store::new();
    let owner = store.create_member(&member_request("RACI Owner")).unwrap();

    let mut request = topic_request("Test Topic", &owner.id);
    request.description = Some("A test topic for unit testing".to_string());
    request.search_keywords = Some(vec!["test".to_string(), "unit".to_string()]);
    let created = store.create_topic(&request).unwrap();
    assert_eq!(created.header, "Test Topic");
    assert_eq!(created.description.as_deref(), Some("A test topic for unit testing"));
    assert_eq!(created.raci.r1_member_id, owner.id);
    assert!(created.validity.always_valid);
    assert_eq!(created.version, 1);

    let fetched = store.get_topic(&created.id).unwrap();
    assert_eq!(fetched.header, "Test Topic");

    let mut update = topic_update();
    update.header = Some("Updated Topic".to_string());
    update.description = Some("Updated description".to_string());
    let updated = store.update_topic(&created.id, &update).unwrap();
    assert_eq!(updated.header, "Updated Topic");
    assert_eq!(updated.description.as_deref(), Some("Updated description"));
    assert_eq!(updated.search_keywords, created.search_keywords);
    assert_eq!(updated.version, 2);

    store.delete_topic(&created.id).unwrap();
    assert!(store.get_topic(&created.id).is_none());
}

#[test]
fn test_optimistic_concurrency_conflict() {
    let mut store = Store::new();
    let created = store.create_member(&member_request("Concurrency Test")).unwrap();
    let revision = store.get_revision_id();

    let mut update = member_update();
    update.display_name = Some("Should Fail".to_string());
    update.expected_version = Some(999);
    let err = store.update_member(&created.id, &update).unwrap_err();
    match &err {
        AppError::Conflict { current_version, .. } => assert_eq!(*current_version, 1),
        other => panic!("expected a conflict, got {}", other.error_code()),
    }
    assert_eq!(err.error_code(), "VERSION_MISMATCH");
    assert_eq!(err.status_code(), 409);

    // the stored record and the revision are unmodified
    let stored = store.get_member(&created.id).unwrap();
    assert_eq!(stored.display_name, "Concurrency Test");
    assert_eq!(stored.version, 1);
    assert_eq!(store.get_revision_id(), revision);
}

#[test]
fn test_topic_update_conflict_scenario() {
    // member (version 1) -> topic referencing it -> update without expected
    // version succeeds with version 2 -> update with expected version 1
    // fails with a conflict carrying current version 2
    let mut store = Store::new();
    let member = store.create_member(&member_request("Owner")).unwrap();
    assert_eq!(member.version, 1);

    let topic = store.create_topic(&topic_request("First header", &member.id)).unwrap();

    let mut first = topic_update();
    first.header = Some("Second header".to_string());
    let updated = store.update_topic(&topic.id, &first).unwrap();
    assert_eq!(updated.version, 2);

    let mut second = topic_update();
    second.header = Some("Third header".to_string());
    second.expected_version = Some(1);
    match store.update_topic(&topic.id, &second).unwrap_err() {
        AppError::Conflict { current_version, .. } => assert_eq!(current_version, 2),
        other => panic!("expected a conflict, got {}", other.error_code()),
    }
    assert_eq!(store.get_topic(&topic.id).unwrap().header, "Second header");
}

#[test]
fn test_batch_update_topics() {
    let mut store = Store::new();
    let owner = store.create_member(&member_request("Batch Owner")).unwrap();
    let topic1 = store.create_topic(&topic_request("Topic 1", &owner.id)).unwrap();
    let topic2 = store.create_topic(&topic_request("Topic 2", &owner.id)).unwrap();
    let revision = store.get_revision_id();

    let mut changes1 = topic_update();
    changes1.header = Some("Updated Topic 1".to_string());
    let mut changes2 = topic_update();
    changes2.header = Some("Updated Topic 2".to_string());
    let updates = vec![
        BatchTopicUpdate { topic_id: topic1.id.clone(), changes: changes1 },
        BatchTopicUpdate { topic_id: topic2.id.clone(), changes: changes2 },
    ];
    let updated = store.batch_update_topics(&updates).unwrap();
    assert_eq!(updated.len(), 2);
    assert_eq!(updated[0].header, "Updated Topic 1");
    assert_eq!(updated[1].header, "Updated Topic 2");
    assert_eq!(updated[0].version, 2);
    assert_eq!(updated[1].version, 2);

    // one revision bump for the whole batch, regardless of its size
    assert_eq!(store.get_revision_id(), revision + 1);
    assert_eq!(store.get_topic(&topic1.id).unwrap().header, "Updated Topic 1");
    assert_eq!(store.get_topic(&topic2.id).unwrap().header, "Updated Topic 2");
}

#[test]
fn test_batch_update_all_or_nothing() {
    let mut store = Store::new();
    let owner = store.create_member(&member_request("Batch Owner")).unwrap();
    let topic1 = store.create_topic(&topic_request("Topic 1", &owner.id)).unwrap();
    let topic2 = store.create_topic(&topic_request("Topic 2", &owner.id)).unwrap();
    let revision = store.get_revision_id();

    let mut changes1 = topic_update();
    changes1.header = Some("Updated Topic 1".to_string());
    let mut changes2 = topic_update();
    changes2.header = Some("Updated Topic 2".to_string());
    changes2.expected_version = Some(999);
    let updates = vec![
        BatchTopicUpdate { topic_id: topic1.id.clone(), changes: changes1 },
        BatchTopicUpdate { topic_id: topic2.id.clone(), changes: changes2 },
    ];
    match store.batch_update_topics(&updates).unwrap_err() {
        AppError::Conflict { current_version, .. } => assert_eq!(current_version, 1),
        other => panic!("expected a conflict, got {}", other.error_code()),
    }

    // no record in the batch changed, and the revision is unchanged
    assert_eq!(store.get_topic(&topic1.id).unwrap().header, "Topic 1");
    assert_eq!(store.get_topic(&topic1.id).unwrap().version, 1);
    assert_eq!(store.get_topic(&topic2.id).unwrap().header, "Topic 2");
    assert_eq!(store.get_revision_id(), revision);
}

#[test]
fn test_batch_update_empty_rejected() {
    let mut store = Store::new();
    let revision = store.get_revision_id();
    match store.batch_update_topics(&Vec::new()).unwrap_err() {
        AppError::Validation(_) => {}
        other => panic!("expected a validation error, got {}", other.error_code()),
    }
    assert_eq!(store.get_revision_id(), revision);
}

#[test]
fn test_batch_update_sequential_versions() {
    // two entries for the same topic: the second sees the version the first
    // produced
    let mut store = Store::new();
    let owner = store.create_member(&member_request("Batch Owner")).unwrap();
    let topic = store.create_topic(&topic_request("Topic 1", &owner.id)).unwrap();

    let mut changes1 = topic_update();
    changes1.header = Some("First pass".to_string());
    changes1.expected_version = Some(1);
    let mut changes2 = topic_update();
    changes2.header = Some("Second pass".to_string());
    changes2.expected_version = Some(2);
    let updates = vec![
        BatchTopicUpdate { topic_id: topic.id.clone(), changes: changes1 },
        BatchTopicUpdate { topic_id: topic.id.clone(), changes: changes2 },
    ];
    let updated = store.batch_update_topics(&updates).unwrap();
    assert_eq!(updated[0].version, 2);
    assert_eq!(updated[1].version, 3);
    let stored = store.get_topic(&topic.id).unwrap();
    assert_eq!(stored.header, "Second pass");
    assert_eq!(stored.version, 3);
}

#[test]
fn test_validation_errors() {
    let mut store = Store::new();

    // a blank display name is rejected
    let err = store.create_member(&member_request("   ")).unwrap_err();
    assert_eq!(err.error_code(), "VALIDATION_ERROR");
    assert_eq!(err.status_code(), 400);

    // a topic without a primary responsible member is rejected
    let err = store.create_topic(&topic_request("Test", "")).unwrap_err();
    assert_eq!(err.error_code(), "VALIDATION_ERROR");

    // a blank tag name is rejected
    let err = store.create_tag(&tag_request(" ", "someone")).unwrap_err();
    assert_eq!(err.error_code(), "VALIDATION_ERROR");

    // nothing was stored, nothing was counted
    assert_eq!(store.get_revision_id(), 0);
    assert!(store.list_members().is_empty());
    assert!(store.list_topics().is_empty());
    assert!(store.list_tags().is_empty());
}

#[test]
fn test_not_found_errors() {
    let mut store = Store::new();
    assert!(store.get_member("non-existent-id").is_none());
    assert!(store.get_topic("non-existent-id").is_none());

    let err = store.update_member("non-existent-id", &member_update()).unwrap_err();
    assert_eq!(err.error_code(), "NOT_FOUND");
    assert_eq!(err.status_code(), 404);

    let err = store.delete_topic("non-existent-id").unwrap_err();
    assert_eq!(err.error_code(), "NOT_FOUND");
}

#[test]
fn test_delete_nonexistent_keeps_revision() {
    let mut store = Store::new();
    store.create_member(&member_request("Revision Holder")).unwrap();
    let revision = store.get_revision_id();
    assert!(store.delete_member("no-such-identity").is_err());
    assert!(store.delete_tag("no-such-identity").is_err());
    assert!(store.delete_topic("no-such-identity").is_err());
    assert_eq!(store.get_revision_id(), revision);
}

#[test]
fn test_revision_increments_on_writes() {
    let mut store = Store::new();
    let r0 = store.get_revision_id();

    let created = store.create_member(&member_request("Revision Test")).unwrap();
    assert_eq!(store.get_revision_id(), r0 + 1);

    let mut update = member_update();
    update.display_name = Some("Updated".to_string());
    store.update_member(&created.id, &update).unwrap();
    assert_eq!(store.get_revision_id(), r0 + 2);

    let info = store.get_revision_info();
    assert_eq!(info.revision_id, r0 + 2);

    let next = store.increment_revision().unwrap();
    assert_eq!(next, r0 + 3);
    assert_eq!(store.get_revision_id(), r0 + 3);
}

#[test]
fn test_create_then_get_round_trip() {
    let mut store = Store::new();
    let mut request = member_request("Round Trip");
    request.email = Some("rt@example.com".to_string());
    request.tags = Some(vec!["one".to_string(), "two".to_string()]);
    request.color = Some("#aabbcc".to_string());
    request.active = false;

    let created = store.create_member(&request).unwrap();
    let fetched = store.get_member(&created.id).unwrap();

    // equal to the created record in every field
    assert_eq!(fetched.id, created.id);
    assert_eq!(fetched.display_name, created.display_name);
    assert_eq!(fetched.email, created.email);
    assert_eq!(fetched.active, created.active);
    assert_eq!(fetched.tags, created.tags);
    assert_eq!(fetched.color, created.color);
    assert_eq!(fetched.updated_at, created.updated_at);
    assert_eq!(fetched.version, created.version);

    // and equal to the request except for the server-assigned fields
    assert_eq!(fetched.display_name, "Round Trip");
    assert_eq!(fetched.email.as_deref(), Some("rt@example.com"));
    assert!(!fetched.active);
    assert_eq!(fetched.version, 1);
    assert!(!fetched.id.is_empty());
}

#[test]
fn test_update_merges_absent_fields() {
    let mut store = Store::new();
    let mut request = member_request("Merge Test");
    request.email = Some("keep@example.com".to_string());
    request.color = Some("#112233".to_string());
    let created = store.create_member(&request).unwrap();

    let mut update = member_update();
    update.active = Some(false);
    let updated = store.update_member(&created.id, &update).unwrap();

    // unset fields retain their previous value
    assert_eq!(updated.display_name, "Merge Test");
    assert_eq!(updated.email.as_deref(), Some("keep@example.com"));
    assert_eq!(updated.color.as_deref(), Some("#112233"));
    assert!(!updated.active);
    assert_eq!(updated.version, 2);
}

#[test]
fn test_get_datastore_snapshot() {
    let mut store = Store::new();
    let member = store.create_member(&member_request("Snapshot Member")).unwrap();
    let tag = store.create_tag(&tag_request("Snapshot Tag", &member.id)).unwrap();
    let topic = store.create_topic(&topic_request("Snapshot Topic", &member.id)).unwrap();

    let snapshot = store.get_datastore();
    assert_eq!(snapshot.schema_version, 1);
    assert_eq!(snapshot.revision_id, 3);
    assert_eq!(snapshot.members.len(), 1);
    assert_eq!(snapshot.members[0].id, member.id);
    assert_eq!(snapshot.topics.len(), 1);
    assert_eq!(snapshot.topics[0].id, topic.id);
    let tags = snapshot.tags.unwrap();
    assert_eq!(tags.len(), 1);
    assert_eq!(tags[0].id, tag.id);
}

#[test]
fn test_from_records_round_trip() {
    // a store rebuilt from recorded state answers exactly as before
    let mut store = Store::new();
    let member = store.create_member(&member_request("Durable Member")).unwrap();
    let tag = store.create_tag(&tag_request("Durable Tag", &member.id)).unwrap();
    let topic = store.create_topic(&topic_request("Durable Topic", &member.id)).unwrap();
    let info = store.get_revision_info();

    let reloaded = Store::from_records(
        info.revision_id,
        info.generated_at,
        store.list_members(),
        store.list_tags(),
        store.list_topics(),
    )
    .unwrap();

    assert_eq!(reloaded.get_revision_id(), 3);
    assert_eq!(reloaded.get_member(&member.id).unwrap().display_name, "Durable Member");
    assert_eq!(reloaded.get_tag(&tag.id).unwrap().name, "Durable Tag");
    assert_eq!(reloaded.get_topic(&topic.id).unwrap().header, "Durable Topic");
}

#[test]
fn test_from_records_rejects_duplicates() {
    let mut store = Store::new();
    let member = store.create_member(&member_request("Twin")).unwrap();
    let mut members = store.list_members();
    members.push(member.clone());

    let result = Store::from_records(
        store.get_revision_id(),
        "2024-01-01T00:00:00Z".to_string(),
        members,
        Vec::new(),
        Vec::new(),
    );
    match result {
        Err(e) => assert_eq!(e.error_code(), "VALIDATION_ERROR"),
        Ok(_) => panic!("duplicate identities must be rejected"),
    }
}

#[test]
fn test_from_records_rejects_bad_version() {
    let mut store = Store::new();
    let member = store.create_member(&member_request("Zero")).unwrap();
    let mut members = store.list_members();
    members[0].version = 0;
    let _ = member;

    let result = Store::from_records(
        1,
        "2024-01-01T00:00:00Z".to_string(),
        members,
        Vec::new(),
        Vec::new(),
    );
    assert!(result.is_err());
}

#[test]
fn test_revision_counter_bound() {
    // at the counter's bound no further write is accepted, and nothing changes
    let mut store = Store::from_records(
        i64::MAX,
        "2024-01-01T00:00:00Z".to_string(),
        Vec::new(),
        Vec::new(),
        Vec::new(),
    )
    .unwrap();
    assert_eq!(store.get_revision_id(), i64::MAX);
    assert_eq!(store.increment_revision().unwrap_err().error_code(), "INTERNAL_ERROR");
    assert_eq!(store.create_member(&member_request("Too Late")).unwrap_err().error_code(), "INTERNAL_ERROR");
    assert_eq!(store.get_revision_id(), i64::MAX);
    assert!(store.list_members().is_empty());
}

#[test]
fn test_lists_sorted() {
    let mut store = Store::new();
    let bravo = store.create_member(&member_request("Bravo")).unwrap();
    let alpha = store.create_member(&member_request("Alpha")).unwrap();
    let members = store.list_members();
    assert_eq!(members.len(), 2);
    assert_eq!(members[0].display_name, "Alpha");
    assert_eq!(members[1].display_name, "Bravo");
    let _ = (bravo, alpha);

    let creator = members[0].id.clone();
    store.create_tag(&tag_request("zeta", &creator)).unwrap();
    store.create_tag(&tag_request("Alpha", &creator)).unwrap();
    let tags = store.list_tags();
    // code-point order, as the storage engine's default collation gives it
    assert_eq!(tags[0].name, "Alpha");
    assert_eq!(tags[1].name, "zeta");

    store.create_topic(&topic_request("second topic", &creator)).unwrap();
    store.create_topic(&topic_request("first topic", &creator)).unwrap();
    let topics = store.list_topics();
    assert_eq!(topics[0].header, "first topic");
    assert_eq!(topics[1].header, "second topic");

    let snapshot = store.get_datastore();
    assert_eq!(snapshot.members[0].display_name, "Alpha");
    assert_eq!(snapshot.topics[0].header, "first topic");
    assert_eq!(snapshot.tags.unwrap()[0].name, "Alpha");
}
