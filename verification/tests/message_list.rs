use async_chat::message_list::{message_list_layout, message_list_now};
use async_chat::ui::ChatMessage;

fn at(ts: i64) -> ChatMessage {
    ChatMessage {
        id: "id".to_string(),
        group_name: "g".to_string(),
        content: "c".to_string(),
        sender: "s".to_string(),
        timestamp: ts,
        is_own: false,
    }
}

const NOW: i64 = 1710072000000; // 2024-03-10 12:00:00 UTC

#[test]
fn layout_days_and_time_labels() {
    let ms = vec![
        at(1709287200000), // 2024-03-01 10:00
        at(1709290800000), // 2024-03-01 11:00
        at(1709726400000), // 2024-03-06 12:00
        at(1710025200000), // 2024-03-09 23:00
        at(1710071910000), // 2024-03-10 11:58:30
        at(1710071970000), // 2024-03-10 11:59:30
    ];
    let l = message_list_layout(&ms, NOW);
    assert_eq!(
        l.days,
        vec![
            ("March 01, 2024".to_string(), 2),
            ("March 06, 2024".to_string(), 1),
            ("Yesterday".to_string(), 1),
            ("Today".to_string(), 2),
        ]
    );
    assert_eq!(l.time_labels, vec!["Mar 01", "Mar 01", "4d ago", "13h ago", "1m ago", "now"]);
}

#[test]
fn layout_of_future_and_empty() {
    let l = message_list_layout(&vec![at(NOW + 5 * 60_000)], NOW);
    assert_eq!(l.days, vec![("Today".to_string(), 1)]);
    assert_eq!(l.time_labels, vec!["now"]);
    let e = message_list_layout(&Vec::new(), NOW);
    assert!(e.days.is_empty() && e.time_labels.is_empty());
}

#[test]
fn layout_now_counts() {
    let l = message_list_now(&vec![at(1709287200000), at(1709290800000), at(1710025200000)]);
    assert_eq!(l.days.iter().map(|d| d.1).collect::<Vec<_>>(), vec![2, 1]);
    assert_eq!(l.time_labels.len(), 3);
}

