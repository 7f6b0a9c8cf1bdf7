//! Results of conformance test runs: statuses, priorities, per-test records
//! and per-category tallies.
use std::time::Duration;
use vstd::prelude::*;

use crate::clock::secs;
use crate::text::string_from;

verus! {

/// Relies on `Duration`'s `+`, saturating at the largest duration (as
/// `Duration::saturating_add` does). Nothing is assumed of the value.
#[verifier::external_body]
fn add_durations(a: Duration, b: Duration) -> Duration {
    a.saturating_add(b)
}

/// Outcome of a test.
#[derive(Debug, Clone, Copy, PartialEq, Eq, Structural)]
pub enum TestStatus {
    Passed,
    Failed,
    Skipped,
    Pending,
}

impl TestStatus {
    /// The style class of the status.
    pub fn css_class(&self) -> (r: &'static str)
        ensures
            r@ == match *self {
                TestStatus::Passed => "passed"@,
                TestStatus::Failed => "failed"@,
                TestStatus::Skipped => "skipped"@,
                TestStatus::Pending => "pending"@,
            },
    {
        match self {
            TestStatus::Passed => "passed",
            TestStatus::Failed => "failed",
            TestStatus::Skipped => "skipped",
            TestStatus::Pending => "pending",
        }
    }

    /// The symbol of the status.
    pub fn icon(&self) -> (r: &'static str)
        ensures
            r@ == match *self {
                TestStatus::Passed => "\u{2713}"@,
                TestStatus::Failed => "\u{2717}"@,
                TestStatus::Skipped => "\u{25cb}"@,
                TestStatus::Pending => "\u{25d0}"@,
            },
    {
        match self {
            TestStatus::Passed => "\u{2713}",
            TestStatus::Failed => "\u{2717}",
            TestStatus::Skipped => "\u{25cb}",
            TestStatus::Pending => "\u{25d0}",
        }
    }
}

/// How much a test matters.
#[derive(Debug, Clone, Copy, PartialEq, Eq, Structural)]
pub enum TestPriority {
    Critical,
    High,
    Medium,
    Low,
}

impl TestPriority {
    /// The style class of the priority.
    pub fn css_class(&self) -> (r: &'static str)
        ensures
            r@ == match *self {
                TestPriority::Critical => "priority-critical"@,
                TestPriority::High => "priority-high"@,
                TestPriority::Medium => "priority-medium"@,
                TestPriority::Low => "priority-low"@,
            },
    {
        match self {
            TestPriority::Critical => "priority-critical",
            TestPriority::High => "priority-high",
            TestPriority::Medium => "priority-medium",
            TestPriority::Low => "priority-low",
        }
    }

    /// The rank of the priority, 0 for critical to 3 for low.
    pub open spec fn rank(self) -> u8 {
        match self {
            TestPriority::Critical => 0,
            TestPriority::High => 1,
            TestPriority::Medium => 2,
            TestPriority::Low => 3,
        }
    }

    /// The short label: `P` followed by the rank.
    pub fn label(&self) -> (r: String)
        ensures
            r@ == seq!['P', ((self.rank() + 48) as u8) as char],
    {
        let n: u8 = match self {
            TestPriority::Critical => 0,
            TestPriority::High => 1,
            TestPriority::Medium => 2,
            TestPriority::Low => 3,
        };
        let mut v: Vec<char> = Vec::new();
        v.push('P');
        v.push((n + 48) as char);
        assert(v@ =~= seq!['P', ((self.rank() + 48) as u8) as char]);
        string_from(&v)
    }
}

/// One test's record.
#[derive(Debug, Clone)]
pub struct TestResult {
    pub id: String,
    pub name: String,
    pub description: String,
    pub category: String,
    pub status: TestStatus,
    pub priority: TestPriority,
    pub duration: Duration,
    pub error_message: Option<String>,
    pub stack_trace: Option<String>,
    pub doc_reference: Option<String>,
    pub source_file: Option<String>,
    pub line_number: Option<u32>,
}

impl TestResult {
    /// A pending, medium-priority record.
    pub fn new(id: &str, name: &str, category: &str) -> (r: Self)
        ensures
            r.id@ == id@ && r.name@ == name@ && r.category@ == category@ && r.description@.len() == 0,
            r.status == TestStatus::Pending && r.priority == TestPriority::Medium,
            r.error_message is None && r.doc_reference is None && r.source_file is None && r.line_number is None,
    {
        TestResult {
            id: id.to_owned(),
            name: name.to_owned(),
            description: String::new(),
            category: category.to_owned(),
            status: TestStatus::Pending,
            priority: TestPriority::Medium,
            duration: secs(0),
            error_message: None,
            stack_trace: None,
            doc_reference: None,
            source_file: None,
            line_number: None,
        }
    }

    /// With a description.
    pub fn with_description(self, desc: &str) -> (r: Self)
        ensures
            r.description@ == desc@ && r.status == self.status && r.priority == self.priority && r.id == self.id,
    {
        let mut s = self;
        s.description = desc.to_owned();
        s
    }

    /// With a priority.
    pub fn with_priority(self, priority: TestPriority) -> (r: Self)
        ensures
            r.priority == priority && r.status == self.status && r.id == self.id,
    {
        let mut s = self;
        s.priority = priority;
        s
    }

    /// With a documentation link.
    pub fn with_doc_reference(self, url: &str) -> (r: Self)
        ensures
            r.doc_reference matches Some(u) && u@ == url@,
            r.status == self.status && r.priority == self.priority,
    {
        let mut s = self;
        s.doc_reference = Some(url.to_owned());
        s
    }

    /// With the source location.
    pub fn with_source(self, file: &str, line: u32) -> (r: Self)
        ensures
            r.source_file matches Some(f) && f@ == file@,
            r.line_number == Some(line),
            r.status == self.status && r.priority == self.priority,
    {
        let mut s = self;
        s.source_file = Some(file.to_owned());
        s.line_number = Some(line);
        s
    }

    /// Passed after `duration`.
    pub fn pass(self, duration: Duration) -> (r: Self)
        ensures
            r.status == TestStatus::Passed && r.duration == duration && r.priority == self.priority,
    {
        let mut s = self;
        s.status = TestStatus::Passed;
        s.duration = duration;
        s
    }

    /// Failed after `duration` with `error`.
    pub fn fail(self, duration: Duration, error: &str) -> (r: Self)
        ensures
            r.status == TestStatus::Failed && r.duration == duration,
            r.error_message matches Some(e) && e@ == error@,
    {
        let mut s = self;
        s.status = TestStatus::Failed;
        s.duration = duration;
        s.error_message = Some(error.to_owned());
        s
    }

    /// Skipped for `reason`.
    pub fn skip(self, reason: &str) -> (r: Self)
        ensures
            r.status == TestStatus::Skipped,
            r.error_message matches Some(e) && e@ == reason@,
    {
        let mut s = self;
        s.status = TestStatus::Skipped;
        s.error_message = Some(reason.to_owned());
        s
    }
}

/// Tallies of one category.
#[derive(Debug, Clone)]
pub struct CategoryStats {
    pub total: u32,
    pub passed: u32,
    pub failed: u32,
    pub skipped: u32,
    pub pending: u32,
    pub total_duration: Duration,
}

impl Default for CategoryStats {
    /// Nothing counted.
    fn default() -> (r: Self)
        ensures
            r.total == 0 && r.passed == 0 && r.failed == 0 && r.skipped == 0 && r.pending == 0,
    {
        CategoryStats { total: 0, passed: 0, failed: 0, skipped: 0, pending: 0, total_duration: secs(0) }
    }
}

impl CategoryStats {
    /// Counts one more result under its status (counts saturate).
    pub fn add_result(&mut self, result: &TestResult)
        ensures
            final(self).total == sat_inc(old(self).total),
            final(self).passed == if result.status == TestStatus::Passed { sat_inc(old(self).passed) } else { old(self).passed },
            final(self).failed == if result.status == TestStatus::Failed { sat_inc(old(self).failed) } else { old(self).failed },
            final(self).skipped == if result.status == TestStatus::Skipped { sat_inc(old(self).skipped) } else { old(self).skipped },
            final(self).pending == if result.status == TestStatus::Pending { sat_inc(old(self).pending) } else { old(self).pending },
    {
        self.total = self.total.saturating_add(1);
        self.total_duration = add_durations(self.total_duration, result.duration);
        match result.status {
            TestStatus::Passed => self.passed = self.passed.saturating_add(1),
            TestStatus::Failed => self.failed = self.failed.saturating_add(1),
            TestStatus::Skipped => self.skipped = self.skipped.saturating_add(1),
            TestStatus::Pending => self.pending = self.pending.saturating_add(1),
        }
    }
}

/// `n + 1`, staying at the largest value.
pub open spec fn sat_inc(n: u32) -> u32 {
    if n < u32::MAX { (n + 1) as u32 } else { u32::MAX }
}

} // verus!
