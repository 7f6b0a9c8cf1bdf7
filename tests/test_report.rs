use engine::test_report::{CategoryStats, TestPriority, TestResult, TestStatus};
use std::time::Duration;

#[test]
fn result_builders_and_tallies() {
    let r = TestResult::new("t1", "first", "net")
        .with_description("checks")
        .with_priority(TestPriority::High)
        .with_source("a.rs", 7)
        .pass(Duration::from_millis(5));
    assert_eq!(r.status, TestStatus::Passed);
    assert_eq!(r.priority.label(), format!("{}{}", 'P', 1));
    assert_eq!(r.line_number, Some(7));
    let f = TestResult::new("t2", "second", "net").fail(Duration::from_millis(1), "boom");
    assert_eq!(f.error_message.as_deref(), Some("boom"));
    let s = TestResult::new("t3", "third", "net").skip("later");
    let mut stats = CategoryStats::default();
    stats.add_result(&r);
    stats.add_result(&f);
    stats.add_result(&s);
    assert_eq!((stats.total, stats.passed, stats.failed, stats.skipped, stats.pending), (3, 1, 1, 1, 0));
    assert_eq!(stats.total_duration, Duration::from_millis(6));
    assert_eq!(TestStatus::Failed.css_class(), "failed");
    assert_eq!(TestPriority::Low.css_class(), "priority-low");
    assert_eq!(TestStatus::Passed.icon(), "\u{2713}");
}
