use log::Level;
use schedule_log::logger::{GlobalLogger, SchedulerLogger};

#[test]
fn levels_at_or_above_info_are_enabled() {
    let sink = GlobalLogger::new();
    assert!(sink.enabled(Level::Error));
    assert!(sink.enabled(Level::Warn));
    assert!(sink.enabled(Level::Info));
}

#[test]
fn levels_below_info_are_not_enabled() {
    let sink = GlobalLogger::new();
    assert!(!sink.enabled(Level::Debug));
    assert!(!sink.enabled(Level::Trace));
}

#[test]
fn enabled_does_not_depend_on_the_session() {
    let mut sink = GlobalLogger::new();
    let session = SchedulerLogger::context(&mut sink);
    assert!(sink.enabled(Level::Info));
    assert!(!sink.enabled(Level::Debug));
    let _ = session.into_inner(&mut sink);
    assert!(sink.enabled(Level::Info));
    assert!(!sink.enabled(Level::Debug));
}

#[test]
fn records_below_info_leave_no_line() {
    let mut sink = GlobalLogger::new();
    let session = SchedulerLogger::context(&mut sink);
    sink.log(Level::Debug, Some("m"), "hidden");
    sink.log(Level::Trace, Some("m"), "hidden too");
    assert_eq!(session.into_inner(&mut sink), "");
}

#[test]
fn filtered_records_do_not_disturb_the_others() {
    let mut sink = GlobalLogger::new();
    let session = SchedulerLogger::context(&mut sink);
    sink.log(Level::Info, Some("m"), "a");
    sink.log(Level::Debug, Some("m"), "b");
    sink.log(Level::Warn, Some("m"), "c");
    sink.log(Level::Trace, Some("m"), "d");
    sink.log(Level::Error, Some("m"), "e");
    assert_eq!(
        session.into_inner(&mut sink),
        " INFO: m[]: a\n WARN: m[]: c\nERROR: m[]: e\n"
    );
}

#[test]
fn a_filtered_record_is_accepted_without_a_session() {
    let mut sink = GlobalLogger::new();
    sink.log(Level::Debug, Some("m"), "nobody listens");
    sink.log(Level::Trace, None, "nobody listens");
    assert!(!sink.is_active());
    let session = SchedulerLogger::context(&mut sink);
    assert_eq!(session.into_inner(&mut sink), "");
}
