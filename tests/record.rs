use multi_logger::level::Level;
use multi_logger::logger::Event;
use multi_logger::write_options::WriteOptions;
use multi_logger::Logger;

fn event() -> Event {
    Event {
        level: Level::Warn,
        message: "disk low".to_string(),
        module: Some("app::disk".to_string()),
        file: Some("src/disk.rs".to_string()),
        line: Some(42),
    }
}

#[test]
fn full_location_order() {
    let opts = WriteOptions::module()
        .union(WriteOptions::file())
        .union(WriteOptions::line())
        .union(WriteOptions::thread());
    assert_eq!(
        Logger::location(&event(), opts, "ThreadId(1)"),
        "(app::disk; <src/disk.rs> #42; ThreadId(1))"
    );
}

#[test]
fn omitted_fields_leave_nothing() {
    let opts = WriteOptions::line().union(WriteOptions::thread());
    assert_eq!(Logger::location(&event(), opts, "main"), "(#42; main)");
    let opts = WriteOptions::file().union(WriteOptions::thread());
    assert_eq!(Logger::location(&event(), opts, "main"), "(<src/disk.rs>; main)");
    assert_eq!(Logger::location(&event(), WriteOptions::none(), "main"), "");
}

#[test]
fn missing_location_values() {
    let ev = Event { module: None, file: None, line: None, ..event() };
    let opts = WriteOptions::module().union(WriteOptions::file()).union(WriteOptions::line());
    assert_eq!(Logger::location(&ev, opts, "t"), "(; <> #0)");
}

#[test]
fn composed_record() {
    let opts = WriteOptions::timestamp()
        .union(WriteOptions::level())
        .union(WriteOptions::module())
        .union(WriteOptions::line());
    let text = Logger::compose_record(&event(), opts, "2024-01-02 03:04:05.006", "WARN: ", "t", "");
    assert_eq!(text, "[2024-01-02 03:04:05.006] WARN: disk low (app::disk #42)\n");
}

#[test]
fn composed_record_with_backtrace() {
    let opts = WriteOptions::backtrace();
    let text = Logger::compose_record(&event(), opts, "", "", "", "frames");
    assert_eq!(text, "disk low \nframes\n");
}

#[test]
fn record_without_clock_or_color() {
    let b = Logger::builder().with_stdout(Level::Info, None);
    let open = b.destinations_to_open();
    let logger = b.build(&open);
    let opts = WriteOptions::level().union(WriteOptions::thread());
    assert_eq!(logger.record_as_string(&event(), opts, "main"), "WARN: disk low (main)\n");
}

#[test]
fn record_with_clock_color_and_trace() {
    let logger = Logger::builder().build(&Vec::new());
    let text = logger.record_as_string(&event(), WriteOptions::all(), "main");
    assert!(text.starts_with('['));
    assert!(text.contains("WARN: "));
    assert!(text.contains("disk low (app::disk; <src/disk.rs> #42; main)\n"));
    assert!(text.len() > "disk low (app::disk; <src/disk.rs> #42; main)\n".len() + 30);
}

#[test]
fn level_labels() {
    assert_eq!(Level::Error.label(), "ERROR");
    assert_eq!(Level::Trace.label(), "TRACE");
    assert_eq!(Level::more_verbose(Level::Warn, Level::Debug), Level::Debug);
}
