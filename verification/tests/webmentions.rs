use wm_receiver::data::{ProcessingStatus, WebmentionInput};
use wm_receiver::policy::{validate_target, MentionConfig, ValidationError};
use wm_receiver::processing::{
    begin_pass, finish_pass, process_pending_request, VerificationFailure,
};
use wm_receiver::queue::RequestQueue;
use wm_receiver::requesting::{create_mention, submit_webmention};
use wm_receiver::storage::{VerifiedMention, WebmentionStore};
use wm_receiver::synclog::{DurableLog, PublishOutcome};

fn allow(hosts: &[&str]) -> MentionConfig {
    MentionConfig { allowed_target_hosts: hosts.iter().map(|h| h.to_string()).collect() }
}

#[test]
fn validates_targets_against_the_allow_list() {
    let hosts = vec!["mysite.example".to_string()];
    assert_eq!(validate_target("https://mysite.example/p/1", &hosts), Ok(()));
    assert_eq!(
        validate_target("https://other.example/p/1", &hosts),
        Err(ValidationError::DisallowedHost)
    );
    assert_eq!(validate_target("not a url", &hosts), Err(ValidationError::InvalidTargetUrl));
    assert_eq!(validate_target("data:text/plain,x", &hosts), Err(ValidationError::InvalidTargetUrl));
    // The parsed host is normalized, so case in the URL does not matter.
    assert_eq!(validate_target("HTTPS://MySite.Example/p/1", &hosts), Ok(()));
}

#[test]
fn builds_pending_requests_with_no_attempts() {
    let hosts = vec!["mysite.example".to_string()];
    let m = create_mention(
        &hosts,
        "https://a.example/post",
        "https://mysite.example/p/1",
        "203.0.113.7:44444",
        0,
        1_000,
    )
    .unwrap();
    assert_eq!(m.source_url, "https://a.example/post");
    assert_eq!(m.target_url, "https://mysite.example/p/1");
    assert_eq!(m.sender, "203.0.113.7:44444");
    assert_eq!(m.mentioned_on, 1_000);
    assert_eq!(m.processing_status, ProcessingStatus::Pending);
    assert_eq!(m.processing_attempts, 0);
}

#[test]
fn rejects_disallowed_hosts_without_creating_a_row() {
    let config = allow(&["other.example"]);
    let mut queue = RequestQueue::new();
    let input = WebmentionInput {
        source: "https://a.example/post",
        target: "https://mysite.example/p/1",
    };
    let r = submit_webmention(&config, &mut queue, &input, "203.0.113.7:44444", 1_000);
    assert_eq!(r, Err(ValidationError::DisallowedHost));
    assert_eq!(queue.len(), 0);
}

#[test]
fn rejects_malformed_targets_without_creating_a_row() {
    let config = allow(&["mysite.example"]);
    let mut queue = RequestQueue::new();
    let input = WebmentionInput { source: "https://a.example/post", target: "::nonsense::" };
    let r = submit_webmention(&config, &mut queue, &input, "203.0.113.7:44444", 1_000);
    assert_eq!(r, Err(ValidationError::InvalidTargetUrl));
    assert_eq!(queue.len(), 0);
}

#[test]
fn accepts_processes_and_publishes_a_valid_submission() {
    let config = allow(&["mysite.example"]);
    let mut queue = RequestQueue::new();
    let mut store = WebmentionStore::new();
    let mut log = DurableLog::new();

    let input = WebmentionInput {
        source: "https://a.example/post",
        target: "https://mysite.example/p/1",
    };
    let id = submit_webmention(&config, &mut queue, &input, "203.0.113.7:44444", 1_000).unwrap();
    assert_eq!(id, 0);
    let row = queue.get(id).unwrap();
    assert_eq!(row.processing_status, ProcessingStatus::Pending);
    assert_eq!(row.processing_attempts, 0);

    let batch = begin_pass(&mut log, &queue, Some(100));
    assert_eq!(batch.len(), 1);
    let req = &batch[0];
    assert_eq!(req.id, 0);
    assert_eq!(req.source_url, "https://a.example/post");

    let mention = VerifiedMention {
        source_url: req.source_url.clone(),
        title: Some("A post".to_string()),
        author: None,
    };
    process_pending_request(req, Ok(mention), &mut queue, &mut store, &mut log);

    let mentions = store.get("https://mysite.example/p/1").unwrap();
    assert_eq!(mentions.len(), 1);
    assert_eq!(mentions[0].source_url, "https://a.example/post");
    assert_eq!(queue.get(0).unwrap().processing_status, ProcessingStatus::Completed);

    let outcome = finish_pass(&mut log, 0);
    assert_eq!(outcome, PublishOutcome::Published);
    let messages = log.messages();
    assert_eq!(messages.len(), 1);
    assert_eq!(messages[0], "wm-receiver: Webmentions processed at Thu, 1 Jan 1970 00:00:00 +0000");
}

#[test]
fn a_completed_request_is_not_selected_again() {
    let config = allow(&["mysite.example"]);
    let mut queue = RequestQueue::new();
    let mut store = WebmentionStore::new();
    let mut log = DurableLog::new();
    let input = WebmentionInput {
        source: "https://a.example/post",
        target: "https://mysite.example/p/1",
    };
    submit_webmention(&config, &mut queue, &input, "s", 0).unwrap();

    let batch = begin_pass(&mut log, &queue, None);
    let mention = VerifiedMention {
        source_url: "https://a.example/post".to_string(),
        title: None,
        author: None,
    };
    process_pending_request(&batch[0], Ok(mention), &mut queue, &mut store, &mut log);
    finish_pass(&mut log, 10);

    let next = begin_pass(&mut log, &queue, None);
    assert_eq!(next.len(), 0);
    assert_eq!(finish_pass(&mut log, 20), PublishOutcome::NothingToPublish);
}

#[test]
fn a_failed_verification_spends_exactly_one_retry() {
    let config = allow(&["mysite.example"]);
    let mut queue = RequestQueue::new();
    let mut store = WebmentionStore::new();
    let mut log = DurableLog::new();
    let input = WebmentionInput {
        source: "https://a.example/post",
        target: "https://mysite.example/p/1",
    };
    submit_webmention(&config, &mut queue, &input, "s", 0).unwrap();

    let batch = begin_pass(&mut log, &queue, None);
    process_pending_request(
        &batch[0],
        Err(VerificationFailure::FetchFailed),
        &mut queue,
        &mut store,
        &mut log,
    );
    let row = queue.get(0).unwrap();
    assert_eq!(row.processing_attempts, 1);
    assert_eq!(row.processing_status, ProcessingStatus::Pending);
    assert!(store.get("https://mysite.example/p/1").is_none());
    // Nothing reached the store, so there is nothing to publish.
    assert_eq!(finish_pass(&mut log, 0), PublishOutcome::NothingToPublish);
}

#[test]
fn ten_failures_exhaust_a_request_but_leave_it_pending() {
    let config = allow(&["mysite.example"]);
    let mut queue = RequestQueue::new();
    let mut store = WebmentionStore::new();
    let mut log = DurableLog::new();
    let input = WebmentionInput {
        source: "https://a.example/post",
        target: "https://mysite.example/p/1",
    };
    submit_webmention(&config, &mut queue, &input, "s", 0).unwrap();

    for _ in 0..10 {
        let batch = begin_pass(&mut log, &queue, Some(100));
        assert_eq!(batch.len(), 1);
        process_pending_request(
            &batch[0],
            Err(VerificationFailure::NoLinkToTarget),
            &mut queue,
            &mut store,
            &mut log,
        );
        finish_pass(&mut log, 0);
    }

    // The eleventh pass no longer sees the request.
    let batch = begin_pass(&mut log, &queue, Some(100));
    assert_eq!(batch.len(), 0);
    let row = queue.get(0).unwrap();
    assert_eq!(row.processing_status, ProcessingStatus::Pending);
    assert_eq!(row.processing_attempts, 10);
}

#[test]
fn selection_respects_the_limit_and_the_queue_order() {
    let config = allow(&["mysite.example"]);
    let mut queue = RequestQueue::new();
    for i in 0..5 {
        let input = WebmentionInput {
            source: "https://a.example/post",
            target: "https://mysite.example/p/1",
        };
        submit_webmention(&config, &mut queue, &input, "s", i).unwrap();
    }
    let batch = queue.select_pending(3);
    assert_eq!(batch.len(), 3);
    assert_eq!(batch[0].id, 0);
    assert_eq!(batch[1].id, 1);
    assert_eq!(batch[2].id, 2);
    assert_eq!(queue.select_pending(100).len(), 5);
    assert_eq!(queue.select_pending(0).len(), 0);
}

#[test]
fn marking_unknown_rows_changes_nothing() {
    let mut queue = RequestQueue::new();
    assert!(!queue.mark_completed(7));
    assert!(!queue.increment_attempts(7));
    assert_eq!(queue.len(), 0);
}

#[test]
fn the_store_replaces_a_mention_from_the_same_source() {
    let mut store = WebmentionStore::new();
    let first = VerifiedMention {
        source_url: "https://a.example/post".to_string(),
        title: Some("old".to_string()),
        author: None,
    };
    let second = VerifiedMention {
        source_url: "https://a.example/post".to_string(),
        title: Some("new".to_string()),
        author: Some("A.".to_string()),
    };
    store.apply("https://mysite.example/p/1", first);
    store.apply("https://mysite.example/p/1", second);
    let mentions = store.get("https://mysite.example/p/1").unwrap();
    assert_eq!(mentions.len(), 1);
    assert_eq!(mentions[0].title, Some("new".to_string()));
}

#[test]
fn the_store_removes_only_the_named_source() {
    let mut store = WebmentionStore::new();
    let a = VerifiedMention {
        source_url: "https://a.example/post".to_string(),
        title: None,
        author: None,
    };
    let b = VerifiedMention {
        source_url: "https://b.example/post".to_string(),
        title: None,
        author: None,
    };
    store.apply("https://mysite.example/p/1", a);
    store.apply("https://mysite.example/p/1", b);
    store.remove("https://mysite.example/p/1", "https://a.example/post");
    let mentions = store.get("https://mysite.example/p/1").unwrap();
    assert_eq!(mentions.len(), 1);
    assert_eq!(mentions[0].source_url, "https://b.example/post");
    // Removing from a page the store does not know is a no-op.
    store.remove("https://mysite.example/p/2", "https://a.example/post");
    assert!(store.get("https://mysite.example/p/2").is_none());
}

#[test]
fn a_clean_log_publishes_nothing() {
    let mut log = DurableLog::new();
    log.reset();
    assert_eq!(log.publish("pass".to_string()), PublishOutcome::NothingToPublish);
    assert_eq!(log.commit_count(), 0);

    log.mark_changed();
    assert_eq!(log.publish("pass".to_string()), PublishOutcome::Published);
    assert_eq!(log.commit_count(), 1);

    // Reset right after a publish: nothing new to publish.
    log.reset();
    assert_eq!(log.publish("again".to_string()), PublishOutcome::NothingToPublish);
    assert_eq!(log.commit_count(), 1);

    // Unpublished drift is discarded by a reset.
    log.mark_changed();
    log.reset();
    assert_eq!(log.publish("later".to_string()), PublishOutcome::NothingToPublish);
    assert_eq!(log.commit_count(), 1);
}

#[test]
fn selection_skips_ineligible_rows_in_queue_order() {
    let config = allow(&["mysite.example"]);
    let mut queue = RequestQueue::new();
    for i in 0..3 {
        let input = WebmentionInput {
            source: "https://a.example/post",
            target: "https://mysite.example/p/1",
        };
        submit_webmention(&config, &mut queue, &input, "s", i).unwrap();
    }
    assert!(queue.mark_completed(1));
    let batch = queue.select_pending(100);
    assert_eq!(batch.len(), 2);
    assert_eq!(batch[0].id, 0);
    assert_eq!(batch[1].id, 2);

    for _ in 0..10 {
        assert!(queue.increment_attempts(0));
    }
    let batch = queue.select_pending(100);
    assert_eq!(batch.len(), 1);
    assert_eq!(batch[0].id, 2);
}

#[test]
fn a_pass_without_a_limit_takes_at_most_one_hundred() {
    let config = allow(&["mysite.example"]);
    let mut queue = RequestQueue::new();
    let mut log = DurableLog::new();
    for i in 0..101 {
        let input = WebmentionInput {
            source: "https://a.example/post",
            target: "https://mysite.example/p/1",
        };
        submit_webmention(&config, &mut queue, &input, "s", i).unwrap();
    }
    let batch = begin_pass(&mut log, &queue, None);
    assert_eq!(batch.len(), 100);
}
