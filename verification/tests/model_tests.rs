use two_meat::model::data::{Author, Place, Protocol, Timestamp};
use two_meat::utils::{decimal_string, first_free_worker_id, worker_thread_name};

#[test]
fn decimal_string_matches_to_string() {
    for n in [0u64, 7, 10, 99, 100, 1234567890123, u64::MAX] {
        assert_eq!(decimal_string(n), n.to_string());
    }
}

#[test]
fn first_free_worker_id_is_smallest_missing() {
    assert_eq!(first_free_worker_id(&vec![]), 0);
    assert_eq!(first_free_worker_id(&vec![0, 1, 3]), 2);
    assert_eq!(first_free_worker_id(&vec![2, 1, 0]), 3);
    assert_eq!(first_free_worker_id(&vec![5, 6]), 0);
}

#[test]
fn worker_thread_names() {
    assert_eq!(worker_thread_name(0), "tokio_worker-0");
    assert_eq!(worker_thread_name(42), "tokio_worker-42");
}

#[test]
fn place_text_is_its_debug_text() {
    for p in [
        Place::Discord { channel_id: 0 },
        Place::Discord { channel_id: 831145260234768384 },
        Place::Twitter,
        Place::Mastodon,
        Place::Unknown,
    ] {
        assert_eq!(p.debug_text(), format!("{:?}", p));
    }
    assert_eq!(Place::Discord { channel_id: 5 }.debug_text(), "Discord { channel_id: 5 }");
}

#[test]
fn author_render_without_and_with_nickname() {
    let plain = Author {
        name: "nanai".to_string(),
        nickname: None,
        id: "123".to_string(),
        place: Place::Discord { channel_id: 9 },
    };
    assert_eq!(plain.render(), "nanai: 123 on Discord { channel_id: 9 }");
    let nick = Author { nickname: Some("nana".to_string()), place: Place::Twitter, ..plain };
    assert_eq!(nick.render(), "nana (nanai): 123 on Twitter");
}

#[test]
fn timestamp_and_protocol_are_plain_values() {
    let t = Timestamp { secs: 1431648000, nanos: 0 };
    assert_eq!(t, Timestamp { secs: 1431648000, nanos: 0 });
    assert_ne!(Protocol::Http, Protocol::WebSocket);
}
