use notice_client::message::{messages_to_save, NoticeMessage, StoredMessage, UtcTimestamp};

fn entry(i: usize) -> StoredMessage {
    StoredMessage {
        topic: format!("notice/{}", i),
        title: format!("t{}", i),
        content: String::new(),
        timestamp: "2024-01-01T00:00:00Z".to_string(),
    }
}

#[test]
fn history_is_capped_at_one_hundred() {
    let all: Vec<StoredMessage> = (0..150).map(entry).collect();
    let kept = messages_to_save(all);
    assert_eq!(kept.len(), 100);
    for (i, m) in kept.iter().enumerate() {
        assert_eq!(m.topic, format!("notice/{}", i));
    }
}

#[test]
fn short_history_is_kept_whole() {
    let all: Vec<StoredMessage> = (0..5).map(entry).collect();
    let kept = messages_to_save(all);
    assert_eq!(kept.len(), 5);
    assert_eq!(kept[4].title, "t4");
    assert_eq!(messages_to_save(Vec::new()).len(), 0);
    assert_eq!(messages_to_save((0..100).map(entry).collect()).len(), 100);
}

#[test]
fn display_title_defaults_to_notice() {
    let mut m = NoticeMessage {
        title: String::new(),
        content: "body".to_string(),
        extra: None,
        timestamp: UtcTimestamp { seconds: 0, nanos: 0 },
    };
    assert_eq!(m.display_title(), "Notice");
    m.title = "Build done".to_string();
    assert_eq!(m.display_title(), "Build done");
}
