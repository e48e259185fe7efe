use sockudo::app::config::App;
use sockudo::error::Error;
use sockudo::json::Json;
use sockudo::table::Dict;
use sockudo::webhook::headers::request_headers;
use sockudo::webhook::integration::{BatchingConfig, WebhookConfig, WebhookIntegration};
use sockudo::webhook::queue::{
    MemoryQueueManager, Popped, QueueChoice, QueueInterface, QueueManager, QueueManagerFactory,
    RedisQueueManager, WorkerStep,
};
use sockudo::webhook::retry::{
    after_http_attempt, after_lambda_attempt, failure_can_be_judged, http_succeeded,
    lambda_succeeded, Attempt, HttpResponse, LambdaResponse,
};
use sockudo::webhook::sender::{
    create_webhook_hmac, job_outcome, lambda_region, plan_deliveries, process_job,
    signature_matches, Delivery, Sent, Submission, WebhookSender, WebhookSenderConfig,
};
use sockudo::webhook::types::{
    AppWebhook, ClientEventData, JobData, JobPayload, LambdaConfig, Webhook, WebhookEvent,
    WebhookFilter,
};

const EVENTS: [WebhookEvent; 6] = [
    WebhookEvent::ClientEvent,
    WebhookEvent::ChannelOccupied,
    WebhookEvent::ChannelVacated,
    WebhookEvent::MemberAdded,
    WebhookEvent::MemberRemoved,
    WebhookEvent::CacheMiss,
];

fn webhook(event_types: &[&str]) -> Webhook {
    Webhook {
        url: Some("http://hook".to_string()),
        lambda_function: None,
        lambda: None,
        event_types: event_types.iter().map(|s| s.to_string()).collect(),
        filter: None,
        headers: None,
    }
}

fn app(webhooks: Vec<Webhook>) -> App {
    let mut app = App::default();
    app.id = "app".to_string();
    app.key = "key".to_string();
    app.secret = "secret".to_string();
    app.webhooks = Some(webhooks);
    app
}

fn event(name: &str, channel: &str) -> ClientEventData {
    ClientEventData {
        name: name.to_string(),
        channel: channel.to_string(),
        event: None,
        data: None,
        socket_id: None,
        user_id: None,
        time_ms: None,
    }
}

fn job(name: &str) -> JobData {
    JobData {
        app_key: "key".to_string(),
        app_id: "app".to_string(),
        payload: JobPayload { time_ms: 1, events: vec![event(name, "c")] },
        original_signature: create_webhook_hmac("{}", "demo-secret"),
    }
}

fn sender() -> WebhookSender {
    WebhookSender::new(WebhookSenderConfig::default())
}

fn queued(sent: Option<Sent>) -> Submission {
    match sent {
        Some(Sent::Queued(submission)) => submission,
        _ => panic!("expected a submission"),
    }
}

#[test]
fn queue_is_named_after_event() {
    for event in EVENTS {
        assert_eq!(event.to_queue_name(), format!("{}_webhooks", event.as_str()));
    }
    assert_eq!(WebhookEvent::CacheMiss.as_str(), "cache_miss");
}

#[test]
fn events_have_distinct_names() {
    for (i, a) in EVENTS.iter().enumerate() {
        for (j, b) in EVENTS.iter().enumerate() {
            assert_eq!(i == j, a.as_str() == b.as_str());
        }
    }
}

#[test]
fn apps_want_what_their_webhooks_name() {
    let app = app(vec![webhook(&["member_added"]), webhook(&["cache_miss", "client_event"])]);
    assert!(app.has_member_added_webhooks());
    assert!(app.has_cache_missed_webhooks());
    assert!(app.has_client_event_webhooks());
    assert!(!app.has_member_removed_webhooks());
    assert!(!app.has_channel_occupied_webhooks());
    assert!(!app.has_channel_vacated_webhooks());
    assert_eq!(app.get_webhooks().len(), 2);
    assert_eq!(App::default().get_webhooks().len(), 0);
}

#[test]
fn sender_config_has_defaults() {
    let config = WebhookSenderConfig::default();
    assert_eq!((config.batching_duration, config.http_timeout), (50, 30));
    assert_eq!((config.max_retries, config.retry_delay), (3, 1000));
    assert!(!config.batching_enabled && config.can_process_queues && !config.debug);
    assert_eq!(config.process_id.len(), 36);
    assert_eq!(sender().initialize_queue_processors().len(), 6);
    let mut idle = WebhookSenderConfig::default();
    idle.can_process_queues = false;
    assert!(WebhookSender::new(idle).initialize_queue_processors().is_empty());
    assert_eq!(sender().config().max_retries, 3);
}

#[test]
fn events_are_submitted_where_wanted() {
    let mut sender = sender();
    let wants = app(vec![webhook(&[
        "client_event",
        "channel_occupied",
        "channel_vacated",
        "member_added",
        "member_removed",
        "cache_miss",
    ])]);
    let deaf = app(vec![]);
    assert!(sender.send_channel_occupied(&deaf, "c").is_none());
    assert!(sender.send_channel_vacated(&deaf, "c").is_none());
    assert!(sender.send_member_added(&deaf, "c", "u").is_none());
    assert!(sender.send_member_removed(&deaf, "c", "u").is_none());
    assert!(sender.send_cache_missed(&deaf, "c").is_none());
    assert!(sender.send_client_event(&deaf, "c", "e", Json::null(), None, None).is_none());
    let occupied = queued(sender.send_channel_occupied(&wants, "c"));
    assert_eq!(occupied.queue, "channel_occupied_webhooks");
    assert_eq!(occupied.events.len(), 1);
    assert_eq!(occupied.events[0].name, "channel_occupied");
    assert_eq!(occupied.events[0].channel, "c");
    assert!(occupied.events[0].user_id.is_none());
    assert_eq!(
        queued(sender.send_channel_vacated(&wants, "c")).queue,
        "channel_vacated_webhooks"
    );
    let added = queued(sender.send_member_added(&wants, "c", "u"));
    assert_eq!(added.events[0].user_id, Some("u".to_string()));
    let removed = queued(sender.send_member_removed(&wants, "c", "u"));
    assert_eq!(removed.events[0].name, "member_removed");
    assert_eq!(queued(sender.send_cache_missed(&wants, "c")).queue, "cache_miss_webhooks");
}

#[test]
fn users_are_told_of_on_presence_channels_only() {
    let mut sender = sender();
    let app = app(vec![webhook(&["client_event"])]);
    let data = || Json::string("d".to_string());
    let private = queued(
        sender.send_client_event(&app, "private-x", "client-e", data(), Some("1.2"), Some("u")),
    );
    assert!(private.events[0].user_id.is_none());
    assert_eq!(private.events[0].socket_id, Some("1.2".to_string()));
    assert_eq!(private.events[0].event, Some("client-e".to_string()));
    let presence = queued(
        sender.send_client_event(&app, "presence-x", "client-e", data(), Some("1.2"), Some("u")),
    );
    assert_eq!(presence.events[0].user_id, Some("u".to_string()));
}

#[test]
fn payloads_are_stamped_and_sealed() {
    let sender = sender();
    assert!(sender.send_webhook(vec![], 5).is_none());
    let payload = sender.send_webhook(vec![event("a", "c"), event("b", "c")], 5).unwrap();
    assert_eq!(payload.time_ms, 5);
    assert!(payload.events.iter().all(|e| e.time_ms == Some(5)));
    assert_eq!(payload.events[1].name, "b");
    let job = sender.seal(&app(vec![]), payload, "{}");
    assert_eq!(job.app_id, "app");
    assert_eq!(job.original_signature, create_webhook_hmac("{}", "secret"));
}

#[test]
fn webhook_hmac_is_hmac_sha256() {
    assert_eq!(
        create_webhook_hmac("The quick brown fox jumps over the lazy dog", "key"),
        "f7bc83f430538424b13298e6aa6fb143ef4d59a14946175997479dbc2d1a3cd8"
    );
}

#[test]
fn batched_events_are_taken_once_in_order() {
    let mut sender = sender();
    assert!(sender.send_webhook_by_batching(event("a", "c"), "q"));
    assert!(!sender.send_webhook_by_batching(event("b", "c"), "q"));
    assert!(sender.send_webhook_by_batching(event("x", "c"), "other"));
    let taken: Vec<String> = sender.flush_batch("q").into_iter().map(|e| e.name).collect();
    assert_eq!(taken, vec!["a", "b"]);
    assert!(sender.flush_batch("q").is_empty());
}

#[test]
fn batched_events_make_one_job() {
    let mut config = WebhookSenderConfig::default();
    config.batching_enabled = true;
    let mut sender = WebhookSender::new(config);
    let first = sender.send(WebhookEvent::MemberAdded, event("member_added", "a"));
    assert!(matches!(first, Sent::Waiting { leads: true }));
    let second = sender.send(WebhookEvent::MemberAdded, event("member_added", "b"));
    assert!(matches!(second, Sent::Waiting { leads: false }));
    let events = sender.flush_batch("member_added_webhooks");
    let payload = sender.send_webhook(events, 5).unwrap();
    let channels: Vec<String> = payload.events.into_iter().map(|e| e.channel).collect();
    assert_eq!(channels, vec!["a", "b"]);
    let next = sender.send(WebhookEvent::MemberAdded, event("member_added", "c"));
    assert!(matches!(next, Sent::Waiting { leads: true }));
}

#[test]
fn unbatched_events_are_sent_alone() {
    let mut sender = sender();
    for channel in ["a", "b"] {
        match sender.send(WebhookEvent::CacheMiss, event("cache_miss", channel)) {
            Sent::Queued(s) => {
                assert_eq!(s.queue, "cache_miss_webhooks");
                assert_eq!(s.events.len(), 1);
                assert_eq!(s.events[0].channel, channel);
            }
            Sent::Waiting { .. } => panic!("expected a submission"),
        }
    }
    assert!(sender.flush_batch("cache_miss_webhooks").is_empty());
}

#[test]
fn integration_batches_where_asked() {
    let wants = app(vec![webhook(&["channel_occupied", "client_event"])]);
    let mut config = WebhookConfig::default();
    config.batching.enabled = true;
    let mut on = WebhookIntegration::new(config);
    let first = on.send_channel_occupied(&wants, "a");
    assert!(matches!(first, Some(Sent::Waiting { leads: true })));
    let second = on.send_channel_occupied(&wants, "b");
    assert!(matches!(second, Some(Sent::Waiting { leads: false })));
    let other = on.send_client_event(&wants, "c", "e", Json::null(), None, None);
    assert!(matches!(other, Some(Sent::Waiting { leads: true })));
    assert!(on.send_cache_missed(&wants, "c").is_none());
    let taken = on.sender_mut().unwrap().flush_batch("channel_occupied_webhooks");
    let channels: Vec<String> = taken.into_iter().map(|e| e.channel).collect();
    assert_eq!(channels, vec!["a", "b"]);
}

#[test]
fn one_waits_for_a_batch() {
    let mut sender = sender();
    assert!(sender.send_webhook_by_batching(event("a", "c"), "q"));
    sender.flush_batch("q");
    assert!(sender.send_webhook_by_batching(event("b", "c"), "q"));
    assert!(!sender.send_webhook_by_batching(event("b", "c"), "q"));
}

#[test]
fn filtered_webhook_is_not_told() {
    let mut filtered = webhook(&["a"]);
    filtered.filter = Some(WebhookFilter {
        channel_name_starts_with: Some("private-".to_string()),
        channel_name_ends_with: Some("-x".to_string()),
    });
    let hooks = vec![filtered];
    assert_eq!(plan_deliveries(&hooks, &vec![event("a", "private-x")]).len(), 1);
    assert_eq!(plan_deliveries(&hooks, &vec![event("a", "public-x")]).len(), 0);
    assert_eq!(plan_deliveries(&hooks, &vec![event("a", "private-y")]).len(), 0);
    let mixed = vec![event("a", "private-x"), event("a", "y")];
    assert_eq!(plan_deliveries(&hooks, &mixed).len(), 0);
}

#[test]
fn deliveries_follow_the_first_event() {
    let mut lambda = webhook(&["a"]);
    lambda.url = None;
    lambda.lambda_function = Some("f".to_string());
    let mut nowhere = webhook(&["a"]);
    nowhere.url = None;
    let mut both = webhook(&["a"]);
    both.lambda_function = Some("f".to_string());
    let hooks = vec![webhook(&["b"]), lambda, nowhere, both];
    let planned = plan_deliveries(&hooks, &vec![event("a", "c"), event("b", "c")]);
    assert_eq!(planned.len(), 2);
    assert!(matches!(&planned[0], Delivery::Lambda { function, .. } if function == "f"));
    assert!(matches!(&planned[1], Delivery::Http { url, .. } if url == "http://hook"));
    assert!(plan_deliveries(&hooks, &vec![]).is_empty());
}

#[test]
fn jobs_are_processed_for_the_local_endpoint() {
    let planned = process_job(&job("member_added"));
    assert_eq!(planned.len(), 1);
    assert!(matches!(
        &planned[0],
        Delivery::Http { url, .. } if url == "http://localhost:3000/webhook"
    ));
    assert!(process_job(&job("channel_occupied")).is_empty());
    assert!(signature_matches(&job("a"), "{}"));
    assert!(!signature_matches(&job("a"), "[]"));
}

#[test]
fn job_fails_where_a_delivery_does() {
    assert!(job_outcome(&vec![]).is_ok());
    assert!(job_outcome(&vec![true, true]).is_ok());
    match job_outcome(&vec![true, false]) {
        Err(Error::Other(m)) => assert_eq!(m, "One or more webhook sends failed"),
        _ => panic!("expected an error"),
    }
}

#[test]
fn lambda_region_has_a_default() {
    assert_eq!(lambda_region(&None), "us-east-1");
    let config = |region: Option<&str>| {
        Some(LambdaConfig {
            region: region.map(|s| s.to_string()),
            async_execution: None,
            client_options: None,
        })
    };
    assert_eq!(lambda_region(&config(None)), "us-east-1");
    assert_eq!(lambda_region(&config(Some("eu-west-1"))), "eu-west-1");
}

#[test]
fn failing_delivery_is_tried_as_often_as_allowed() {
    let fail = |n: usize| {
        after_http_attempt(n, 3, 100, HttpResponse::Failed("refused".to_string()))
    };
    assert!(matches!(fail(0), Attempt::Again { attempts: 1, delay_ms: 100 }));
    assert!(matches!(fail(1), Attempt::Again { attempts: 2, delay_ms: 200 }));
    match fail(2) {
        Attempt::GivenUp(Error::Other(m)) => {
            assert_eq!(m, "Request error after 3 retries: refused")
        }
        _ => panic!("expected an error"),
    }
}

#[test]
fn http_responses_are_judged_by_status() {
    let judge = |code: u16| {
        after_http_attempt(0, 1, 5, HttpResponse::Status { code, text: format!("{} Text", code) })
    };
    assert!(matches!(judge(200), Attempt::Delivered));
    assert!(matches!(judge(299), Attempt::Delivered));
    for code in [199, 300, 500] {
        match judge(code) {
            Attempt::GivenUp(Error::Other(m)) => {
                assert_eq!(m, format!("HTTP error {} Text after 1 retries", code))
            }
            _ => panic!("expected an error"),
        }
    }
}

#[test]
fn lambda_responses_are_judged() {
    let last = |response: LambdaResponse| match after_lambda_attempt(1, 2, 5, response) {
        Attempt::GivenUp(Error::Other(m)) => m,
        _ => panic!("expected an error"),
    };
    assert!(matches!(
        after_lambda_attempt(0, 2, 5, LambdaResponse::Status(204)),
        Attempt::Delivered
    ));
    assert_eq!(
        last(LambdaResponse::FunctionError("boom".to_string())),
        "Lambda function error 'boom' after 2 retries"
    );
    assert_eq!(last(LambdaResponse::Status(-7)), "Lambda unexpected status -7 after 2 retries");
    assert_eq!(
        last(LambdaResponse::Failed("down".to_string())),
        "Lambda SDK error after 2 retries: down"
    );
    assert!(lambda_succeeded(&LambdaResponse::Status(202)));
    assert!(!lambda_succeeded(&LambdaResponse::Status(300)));
    assert!(!lambda_succeeded(&LambdaResponse::FunctionError("boom".to_string())));
}

#[test]
fn failures_can_be_judged_where_delays_can_be_counted() {
    assert!(failure_can_be_judged(0, 3, 1000));
    assert!(!failure_can_be_judged(0, 0, 1000));
    assert!(failure_can_be_judged(0, 3, u64::MAX));
    assert!(!failure_can_be_judged(1, 3, u64::MAX));
    assert!(failure_can_be_judged(2, 3, u64::MAX));
    let ok = HttpResponse::Status { code: 200, text: "200 OK".to_string() };
    assert!(http_succeeded(&ok));
    assert!(!http_succeeded(&HttpResponse::Failed("refused".to_string())));
    assert!(matches!(after_http_attempt(0, 0, 5, ok), Attempt::Delivered));
}

#[test]
fn request_headers_are_valid_headers() {
    let mut given: Dict<String> = Dict::new();
    given.insert("X-Custom".to_string(), "1".to_string());
    given.insert("bad name".to_string(), "2".to_string());
    given.insert("X-Bad".to_string(), "a\nb".to_string());
    given.insert("X-Tab".to_string(), "a\tb".to_string());
    let sent = request_headers(&given);
    assert_eq!(sent.len(), 3);
    assert_eq!(sent.get("content-type").unwrap(), "application/json");
    assert_eq!(sent.get("x-custom").unwrap(), "1");
    assert_eq!(sent.get("x-tab").unwrap(), "a\tb");
    given.insert("Content-Type".to_string(), "text/plain".to_string());
    assert_eq!(request_headers(&given).get("content-type").unwrap(), "text/plain");
    assert_eq!(request_headers(&Dict::new()).len(), 1);
}

#[test]
fn queue_is_first_in_first_out() {
    let mut queues = MemoryQueueManager::new();
    queues.process_queue("q").unwrap();
    for name in ["a", "b", "c"] {
        queues.add_to_queue("q", job(name)).unwrap();
    }
    let taken = queues.start_processing();
    assert_eq!(taken.len(), 1);
    assert_eq!(taken[0].queue, "q");
    let names: Vec<&str> =
        taken[0].jobs.iter().map(|j| j.payload.events[0].name.as_str()).collect();
    assert_eq!(names, vec!["a", "b", "c"]);
    queues.disconnect().unwrap();
}

#[test]
fn taken_jobs_are_gone() {
    let mut queues = QueueManager::new(MemoryQueueManager::new());
    queues.add_to_queue("idle", job("a")).unwrap();
    queues.add_to_queue("q", job("b")).unwrap();
    assert!(queues.take_jobs().is_empty());
    queues.process_queue("q").unwrap();
    assert_eq!(queues.take_jobs().len(), 1);
    assert!(queues.take_jobs().is_empty());
    queues.process_queue("idle").unwrap();
    assert_eq!(queues.take_jobs()[0].jobs.len(), 1);
    assert!(queues.disconnect().is_ok());
}

#[test]
fn redis_queues_are_named_and_worked_on() {
    let mut queues = RedisQueueManager::new("sockudo", 4);
    assert_eq!(queues.format_key("q"), "sockudo:queue:q");
    assert_eq!(queues.process_queue("q"), 4);
    assert_eq!(
        RedisQueueManager::worker_step(&Popped::Job("{}".to_string())),
        WorkerStep::Work
    );
    assert_eq!(RedisQueueManager::worker_step(&Popped::Nothing), WorkerStep::Wait);
    assert_eq!(RedisQueueManager::worker_step(&Popped::Failed), WorkerStep::Pause(1));
    match RedisQueueManager::push_failure("q", "down") {
        Error::Queue(m) => assert_eq!(m, "Redis RPUSH failed for queue q: down"),
        _ => panic!("expected another error"),
    }
}

#[test]
fn queues_are_chosen_by_driver() {
    match QueueManagerFactory::create("redis", None, None, None) {
        QueueChoice::Redis { url, prefix, concurrency } => {
            assert_eq!(url, "redis://127.0.0.1:6379/");
            assert_eq!(prefix, "sockudo");
            assert_eq!(concurrency, 5);
        }
        QueueChoice::Memory => panic!("expected Redis"),
    }
    assert!(matches!(
        QueueManagerFactory::create("REDIS", None, None, None),
        QueueChoice::Memory
    ));
}

#[test]
fn integration_sends_where_enabled() {
    let wants = app(vec![webhook(&["member_added"])]);
    let mut on = WebhookIntegration::new(WebhookConfig::default());
    assert!(on.is_enabled());
    assert_eq!(on.sender().unwrap().config().max_retries, 10);
    assert!(matches!(on.queue(), Some(QueueChoice::Redis { concurrency: 5, .. })));
    assert!(on.send_member_added(&wants, "c", "u").is_some());
    assert!(on.send_member_removed(&wants, "c", "u").is_none());
    let mut config = WebhookConfig::default();
    config.enabled = false;
    let mut off = WebhookIntegration::new(config);
    assert!(!off.is_enabled());
    assert!(off.queue().is_none() && off.sender().is_none());
    assert!(off.send_member_added(&wants, "c", "u").is_none());
    assert_eq!(BatchingConfig::default().duration, 50);
    assert_eq!(WebhookConfig::default().batching.duration, 10);
}
