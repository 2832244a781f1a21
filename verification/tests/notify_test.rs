use igris_memory::server::args::{changed_fields, default_scope, default_type, UpdateArgs};
use igris_memory::server::notify::{level_rank, should_emit, LogLevel};

#[test]
fn level_rank_orders_by_severity() {
    let levels = [
        LogLevel::Debug,
        LogLevel::Info,
        LogLevel::Notice,
        LogLevel::Warning,
        LogLevel::Error,
        LogLevel::Critical,
        LogLevel::Alert,
        LogLevel::Emergency,
    ];
    for pair in levels.windows(2) {
        assert!(
            level_rank(pair[0]) < level_rank(pair[1]),
            "{:?} should rank below {:?}",
            pair[0],
            pair[1]
        );
    }
}

#[test]
fn notifications_below_the_requested_level_are_dropped() {
    assert!(should_emit(LogLevel::Info, LogLevel::Info));
    assert!(should_emit(LogLevel::Warning, LogLevel::Info));
    assert!(!should_emit(LogLevel::Info, LogLevel::Warning));
    assert!(!should_emit(LogLevel::Debug, LogLevel::Info));
    assert!(should_emit(LogLevel::Emergency, LogLevel::Debug));
}

#[test]
fn tool_argument_defaults() {
    assert_eq!(default_type(), "manual");
    assert_eq!(default_scope(), "project");
}

#[test]
fn changed_fields_lists_the_present_fields_in_order() {
    let args = UpdateArgs {
        id: 1,
        title: Some("t".to_string()),
        content: None,
        observation_type: Some("plan".to_string()),
        tags: Some(vec![]),
        topic_key: None,
    };
    assert_eq!(changed_fields(&args), vec!["title", "type", "tags"]);
    let none = UpdateArgs {
        id: 1,
        title: None,
        content: None,
        observation_type: None,
        tags: None,
        topic_key: None,
    };
    assert!(changed_fields(&none).is_empty());
}
