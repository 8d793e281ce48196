use picolog::level::{Level, LevelFilter};
use picolog::timestamp::Timestamp;
use picolog::PicoLogger;

#[test]
fn level_filter() {
    let sink = PicoLogger::new(LevelFilter::Info);
    assert!(sink.enabled(Level::Info));
    assert!(sink.enabled(Level::Warn));
    assert!(sink.enabled(Level::Error));
    assert!(!sink.enabled(Level::Debug));
    assert!(!sink.enabled(Level::Trace));
}

#[test]
fn filter_off_suppresses_everything() {
    let sink = PicoLogger::new(LevelFilter::Off);
    assert!(!sink.enabled(Level::Error));
    let ts = Timestamp::from_unix(0);
    let line = sink.format_record(&ts, Level::Error, "app", None, None, "boom");
    assert!(line.is_none());
}

#[test]
fn format_scenario() {
    let sink = PicoLogger::new(LevelFilter::Trace).with_colors(false);
    let ts = Timestamp::from_unix(0);
    let line = sink.format_record(
        &ts,
        Level::Info,
        "",
        Some("app::net::server"),
        Some("worker"),
        "listening",
    );
    assert_eq!(line.unwrap(), "1970-01-01 00:00:00 INFO  [server/worker] listening");
}

#[test]
fn location_fallback() {
    let sink = PicoLogger::new(LevelFilter::Trace).with_colors(false);
    let ts = Timestamp::from_unix(0);
    let line = sink.format_record(&ts, Level::Info, "", None, None, "listening");
    assert_eq!(line.unwrap(), "1970-01-01 00:00:00 INFO  [?] listening");
}

#[test]
fn main_thread_suppression() {
    let sink = PicoLogger::new(LevelFilter::Trace).with_colors(false);
    let ts = Timestamp::from_unix(0);

    let named_main = sink.format_record(
        &ts,
        Level::Info,
        "",
        Some("app::net::server"),
        Some("main"),
        "listening",
    );
    assert_eq!(named_main.unwrap(), "1970-01-01 00:00:00 INFO  [server] listening");

    let unnamed = sink.format_record(
        &ts,
        Level::Info,
        "",
        Some("app::net::server"),
        None,
        "listening",
    );
    assert_eq!(unnamed.unwrap(), "1970-01-01 00:00:00 INFO  [server] listening");
}

#[test]
fn target_beats_module_path() {
    let sink = PicoLogger::new(LevelFilter::Trace).with_colors(false);
    let ts = Timestamp::from_unix(0);
    let line = sink.format_record(&ts, Level::Warn, "tgt::leaf", Some("other::module"), None, "m");
    assert_eq!(line.unwrap(), "1970-01-01 00:00:00 WARN  [leaf] m");
}

#[test]
fn split_consumes_separators_left_to_right() {
    let sink = PicoLogger::new(LevelFilter::Trace).with_colors(false);
    let ts = Timestamp::from_unix(0);

    // Three colons: the separator is consumed at the first position, the
    // stray third colon starts the last piece.
    let odd = sink.format_record(&ts, Level::Info, "a:::b", None, None, "m");
    assert_eq!(odd.unwrap(), "1970-01-01 00:00:00 INFO  [:b] m");

    // A trailing separator leaves an empty last piece.
    let trailing = sink.format_record(&ts, Level::Info, "a::", None, None, "m");
    assert_eq!(trailing.unwrap(), "1970-01-01 00:00:00 INFO  [] m");
}

#[test]
fn colorized_tags() {
    let sink = PicoLogger::new(LevelFilter::Trace);
    let ts = Timestamp::from_unix(0);

    let info = sink.format_record(&ts, Level::Info, "app", None, None, "m");
    assert_eq!(info.unwrap(), "1970-01-01 00:00:00 \x1b[36mINFO \x1b[m [app] m");

    let error = sink.format_record(&ts, Level::Error, "app", None, None, "m");
    assert_eq!(error.unwrap(), "1970-01-01 00:00:00 \x1b[31mERROR\x1b[m [app] m");

    let trace = sink.format_record(&ts, Level::Trace, "app", None, None, "m");
    assert_eq!(trace.unwrap(), "1970-01-01 00:00:00 \x1b[mTRACE\x1b[m [app] m");
}

#[test]
fn builder_keeps_filter() {
    let sink = PicoLogger::new(LevelFilter::Warn).with_colors(false);
    assert!(sink.enabled(Level::Error));
    assert!(sink.enabled(Level::Warn));
    assert!(!sink.enabled(Level::Info));
    let ts = Timestamp::from_unix(0);
    assert!(sink.format_record(&ts, Level::Info, "app", None, None, "m").is_none());
    let warn = sink.format_record(&ts, Level::Warn, "app", None, None, "m");
    assert_eq!(warn.unwrap(), "1970-01-01 00:00:00 WARN  [app] m");
}
