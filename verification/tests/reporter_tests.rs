use channel_archive::reporter::{elapsed, CountingReporter, Reporter, SimpleReporter};

fn echo(message: u32, is_due: bool) -> (u32, bool) {
    (message, is_due)
}

#[test]
fn elapsed_is_zero_for_a_clock_that_went_back() {
    assert_eq!(elapsed(10, 25), 15);
    assert_eq!(elapsed(25, 10), 0);
    assert_eq!(elapsed(7, 7), 0);
}

#[test]
fn simple_reporter_is_due_only_after_the_interval() {
    let reporter = SimpleReporter::new(1000, 5000, echo);
    assert!(!Reporter::<u32, _, _>::is_report_due(&reporter, 5000));
    assert!(!Reporter::<u32, _, _>::is_report_due(&reporter, 6000));
    assert!(Reporter::<u32, _, _>::is_report_due(&reporter, 6001));
}

#[test]
fn simple_reporter_marks_every_report() {
    let mut reporter = SimpleReporter::new(1000, 0, echo);
    assert_eq!(reporter.report(1, 500), (1, false));
    assert_eq!(reporter.last_report, 500);
    assert_eq!(reporter.report(2, 1400), (2, false));
    assert_eq!(reporter.report(3, 2401), (3, true));
    assert_eq!(reporter.last_report, 2401);
}

#[test]
fn forced_report_always_fires() {
    let mut reporter = SimpleReporter::new(1000, 0, echo);
    assert_eq!(reporter.force_report(9, 1), (9, true));
    assert_eq!(reporter.last_report, 1);
    let mut counting = CountingReporter::new_with_defaults(5000, 20, 0, echo);
    assert_eq!(counting.force_report(4, 2), (4, true));
}

#[test]
fn into_report_function_gives_the_function_back() {
    let reporter = SimpleReporter::new(1000, 0, echo);
    let function = reporter.into_report_function();
    assert_eq!(function(3, true), (3, true));
    let counting = CountingReporter::new(1, 2, 3, 4, 5, 6, echo);
    let function = counting.into_report_function();
    assert_eq!(function(8, false), (8, false));
}

#[test]
fn counting_reporter_defaults() {
    let reporter = CountingReporter::new_with_defaults(5000, 20, 77, echo);
    assert_eq!(reporter.last_report, 77);
    assert_eq!(reporter.min_interval, 1000);
    assert_eq!(reporter.max_interval, 5000);
    assert_eq!(reporter.last_count, 0);
    assert_eq!(reporter.current_count, 0);
    assert_eq!(reporter.min_count, 1);
    assert_eq!(reporter.max_count, 20);
}

#[test]
fn counting_reporter_needs_the_minimum_count() {
    let reporter = CountingReporter::new_with_defaults(5000, 20, 0, echo);
    assert!(!Reporter::<u32, _, _>::is_report_due(&reporter, 1_000_000));
}

#[test]
fn counting_reporter_fires_on_the_maximum_count() {
    let mut reporter = CountingReporter::new_with_defaults(5000, 20, 0, echo);
    reporter.current_count = 19;
    assert!(!Reporter::<u32, _, _>::is_report_due(&reporter, 10));
    reporter.current_count = 20;
    assert!(Reporter::<u32, _, _>::is_report_due(&reporter, 10));
}

#[test]
fn counting_reporter_fires_on_the_maximum_interval() {
    let mut reporter = CountingReporter::new_with_defaults(5000, 20, 0, echo);
    reporter.current_count = 1;
    assert!(!Reporter::<u32, _, _>::is_report_due(&reporter, 4999));
    assert!(Reporter::<u32, _, _>::is_report_due(&reporter, 5000));
}

#[test]
fn counting_reporter_resets_the_count_on_report() {
    let mut reporter = CountingReporter::new_with_defaults(5000, 20, 0, echo);
    reporter.current_count = 25;
    assert_eq!(reporter.report(1, 100), (1, true));
    assert_eq!(reporter.last_count, 25);
    assert_eq!(reporter.last_report, 100);
    assert!(!Reporter::<u32, _, _>::is_report_due(&reporter, 1_000_000));
    reporter.current_count = 26;
    assert_eq!(reporter.report(2, 200), (2, false));
}
