use rss2email::poll::{process_body, require_credential, PollAction, PollError};
use rss2email::store::Store;

const FEED_BODY: &str = "<rss><channel>\
    <item><title>Hello</title><link>http://a.example/1</link><description>World</description></item>\
    </channel></rss>";

#[test]
fn first_poll_sends_second_poll_skips() {
    let mut store = Store::new();
    store.add("http://a.example/feed.xml".to_string());

    let first = process_body(&mut store, FEED_BODY);
    assert_eq!(first.len(), 1);
    let hash = match &first[0] {
        PollAction::Send(h, item) => {
            assert_eq!(item.title, "Hello");
            assert_eq!(item.link, "http://a.example/1");
            assert_eq!(item.desc, "World");
            *h
        },
        PollAction::Skip(_) => panic!("first poll must send"),
    };
    assert!(store.has_seen(hash));

    let second = process_body(&mut store, FEED_BODY);
    assert_eq!(second.len(), 1);
    match &second[0] {
        PollAction::Skip(h) => assert_eq!(*h, hash),
        PollAction::Send(_, _) => panic!("second poll must skip"),
    }

    // the feed subscriptions are untouched by polling
    assert_eq!(store.list().len(), 1);
}

#[test]
fn duplicate_item_within_one_feed_is_skipped() {
    let mut store = Store::new();
    let body = "<rss>\
        <item><title>A</title><link>http://a.example/1</link><description>d</description></item>\
        <item><title>A</title><link>http://a.example/1</link><description>d</description></item>\
        </rss>";
    let actions = process_body(&mut store, body);
    assert_eq!(actions.len(), 2);
    assert!(matches!(actions[0], PollAction::Send(_, _)));
    assert!(matches!(actions[1], PollAction::Skip(_)));
}

#[test]
fn malformed_feed_yields_actions_for_parsed_items_only() {
    let mut store = Store::new();
    let body = "<rss>\
        <item><title>A</title></item>\
        <item><title>B</tit";
    let actions = process_body(&mut store, body);
    assert_eq!(actions.len(), 1);
    assert!(matches!(actions[0], PollAction::Send(_, _)));
}

#[test]
fn poll_fails_without_credential() {
    match require_credential(None) {
        Err(PollError::MissingCredential) => {},
        Ok(_) => panic!("a poll run without the credential must not start"),
    }
}

#[test]
fn poll_passes_the_credential_through() {
    match require_credential(Some("example-key".to_string())) {
        Ok(k) => assert_eq!(k, "example-key"),
        Err(_) => panic!("a present credential must be handed through"),
    }
}
