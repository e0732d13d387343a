use log::Level;
use schedule_log::logger::{GlobalLogger, SchedulerLogger, Sublogger};

fn one_line(level: Level, origin: Option<&str>, message: &str) -> String {
    let mut sink = GlobalLogger::new();
    let session = SchedulerLogger::context(&mut sink);
    sink.log(level, origin, message);
    session.into_inner(&mut sink)
}

#[test]
fn error_fills_the_level_column() {
    assert_eq!(one_line(Level::Error, Some("m"), "x"), "ERROR: m[]: x\n");
}

#[test]
fn warn_is_padded_on_the_left() {
    assert_eq!(one_line(Level::Warn, Some("m"), "x"), " WARN: m[]: x\n");
}

#[test]
fn info_is_padded_on_the_left() {
    assert_eq!(one_line(Level::Info, Some("m"), "x"), " INFO: m[]: x\n");
}

#[test]
fn the_line_agrees_with_the_formatting_of_the_level() {
    for level in [Level::Error, Level::Warn, Level::Info] {
        let expected = format!("{:>5}: {}[{}]: {}\n", level, "a::b", "", "msg");
        assert_eq!(one_line(level, Some("a::b"), "msg"), expected);
    }
}

#[test]
fn a_record_without_module_names_the_placeholder() {
    assert_eq!(one_line(Level::Info, None, "x"), " INFO: <unknown>[]: x\n");
}

#[test]
fn an_empty_message_keeps_the_frame() {
    assert_eq!(one_line(Level::Info, Some("m"), ""), " INFO: m[]: \n");
}

#[test]
fn an_empty_module_keeps_the_frame() {
    assert_eq!(one_line(Level::Info, Some(""), "x"), " INFO: []: x\n");
}

#[test]
fn a_message_is_copied_as_it_is() {
    assert_eq!(
        one_line(Level::Warn, Some("m"), "a: b[c]: d — é"),
        " WARN: m[]: a: b[c]: d — é\n"
    );
}

#[test]
fn a_message_with_a_line_break_spans_two_lines() {
    let text = one_line(Level::Info, Some("m"), "one\ntwo");
    assert_eq!(text, " INFO: m[]: one\ntwo\n");
    assert_eq!(text.lines().count(), 2);
}

#[test]
fn the_path_stands_in_the_brackets() {
    let mut sink = GlobalLogger::new();
    let session = SchedulerLogger::context(&mut sink);
    let scope = Sublogger::context(&mut sink, "scheduler");
    sink.log(Level::Error, Some("core"), "boom");
    scope.pop(&mut sink);
    assert_eq!(session.into_inner(&mut sink), "ERROR: core[scheduler]: boom\n");
}

#[test]
fn the_line_agrees_with_the_formatting_under_a_path() {
    let mut sink = GlobalLogger::new();
    let session = SchedulerLogger::context(&mut sink);
    let a = Sublogger::context(&mut sink, "scheduler");
    let b = Sublogger::context(&mut sink, "placement");
    let mut expected = String::new();
    for level in [Level::Error, Level::Warn, Level::Info, Level::Debug, Level::Trace] {
        sink.log(level, Some("crate::module"), "the message");
        if level <= Level::Info {
            expected.push_str(&format!(
                "{:>5}: {}[{}]: {}\n",
                level, "crate::module", "scheduler.placement", "the message"
            ));
        }
    }
    b.pop(&mut sink);
    a.pop(&mut sink);
    assert_eq!(session.into_inner(&mut sink), expected);
}
