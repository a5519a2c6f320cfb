use multi_logger::destination::Destination;
use multi_logger::err::LoggerError;
use multi_logger::level::Level;
use multi_logger::write_options::WriteOptions;
use multi_logger::color::Color;
use multi_logger::Logger;

fn names(v: &[Destination]) -> Vec<String> {
    v.iter().map(|d| format!("{:?}", d)).collect()
}

#[test]
fn same_options_twice_is_one_entry() {
    let b = Logger::builder()
        .with_stdout(Level::Info, Some(WriteOptions::basic()))
        .with_stdout(Level::Info, Some(WriteOptions::basic()));
    let open = b.destinations_to_open();
    assert_eq!(names(&open), vec!["StdOut".to_string()]);
    let logger = b.build(&open);
    assert_eq!(logger.targets(Level::Info), vec![(0, WriteOptions::basic())]);
    assert_eq!(logger.flush_targets(), vec![0]);
}

#[test]
fn different_options_share_writer() {
    let b = Logger::builder()
        .with_stderr(Level::Warn, Some(WriteOptions::basic()))
        .with_stderr(Level::Warn, None);
    let open = b.destinations_to_open();
    assert_eq!(open.len(), 1);
    let logger = b.build(&open);
    assert_eq!(
        logger.targets(Level::Warn),
        vec![(0, WriteOptions::basic()), (0, WriteOptions::none())]
    );
}

#[test]
fn file_spellings_share_writer() {
    let b = Logger::builder()
        .with_file(Level::Error, "/", None)
        .with_file(Level::Debug, "/./", None);
    let open = b.destinations_to_open();
    assert_eq!(open.len(), 1);
    match &open[0] {
        Destination::File(p) => assert_eq!(p, "/"),
        _ => panic!("expected a file"),
    }
    let logger = b.build(&open);
    assert_eq!(logger.targets(Level::Error), vec![(0, WriteOptions::none())]);
    assert_eq!(logger.targets(Level::Debug), vec![(0, WriteOptions::none())]);
    assert_eq!(logger.flush_targets(), vec![0]);
}

#[test]
fn missing_file_is_kept_as_written() {
    let b = Logger::builder().with_file(Level::Info, "no/such/dir/x.log", None);
    let open = b.destinations_to_open();
    assert_eq!(names(&open), vec!["File(\"no/such/dir/x.log\")".to_string()]);
}

#[test]
fn threshold_is_most_verbose_level_with_entries() {
    let b = Logger::builder()
        .with_stdout(Level::Warn, None)
        .with_stdout(Level::Debug, None);
    let open = b.destinations_to_open();
    let logger = b.build(&open);
    assert!(logger.enabled(Level::Error));
    assert!(logger.enabled(Level::Debug));
    assert!(!logger.enabled(Level::Trace));
    assert!(logger.targets(Level::Trace).is_empty());
    assert!(logger.targets(Level::Info).is_empty());
}

#[test]
fn empty_configuration_defaults_to_error() {
    let b = Logger::builder();
    let open = b.destinations_to_open();
    assert!(open.is_empty());
    let logger = b.build(&open);
    assert!(logger.enabled(Level::Error));
    assert!(!logger.enabled(Level::Warn));
    assert!(logger.flush_targets().is_empty());
}

#[test]
fn suppressed_is_never_a_writer() {
    let b = Logger::builder()
        .add_destination(Level::Trace, Destination::Suppressed, None)
        .with_stdout(Level::Info, None);
    let open = b.destinations_to_open();
    assert_eq!(names(&open), vec!["StdOut".to_string()]);
    let logger = b.build(&open);
    assert!(logger.targets(Level::Trace).is_empty());
    assert!(!logger.enabled(Level::Trace));
    assert_eq!(logger.targets(Level::Info), vec![(0, WriteOptions::none())]);
}

#[test]
fn failed_sink_drops_only_its_entries() {
    let b = Logger::builder()
        .with_custom(Level::Info, "broken".to_string(), None)
        .with_stdout(Level::Info, None)
        .with_stderr(Level::Error, None);
    let open = b.destinations_to_open();
    assert_eq!(open.len(), 3);
    let opened: Vec<Destination> = open
        .iter()
        .filter(|d| !matches!(d, Destination::Custom(_)))
        .map(|d| d.duplicate())
        .collect();
    let logger = b.build(&opened);
    assert_eq!(logger.targets(Level::Info), vec![(0, WriteOptions::none())]);
    assert_eq!(logger.targets(Level::Error), vec![(1, WriteOptions::none())]);
    assert_eq!(logger.flush_targets(), vec![0, 1]);
}

#[test]
fn one_writer_across_three_levels_is_flushed_once() {
    let b = Logger::builder()
        .with_stdout(Level::Error, None)
        .with_stdout(Level::Info, Some(WriteOptions::basic()))
        .with_stdout(Level::Trace, Some(WriteOptions::all()));
    let open = b.destinations_to_open();
    let logger = b.build(&open);
    assert_eq!(logger.flush_targets(), vec![0]);
    assert_eq!(logger.targets(Level::Trace), vec![(0, WriteOptions::all())]);
}

#[test]
fn color_overrides() {
    let b = Logger::builder()
        .with_stdout(Level::Trace, None)
        .with_color(Level::Warn, Color::blue());
    let open = b.destinations_to_open();
    let logger = b.build(&open);
    assert_eq!(logger.level_color(Level::Warn), Color::blue());
    assert_eq!(logger.level_color(Level::Info), Color::cl_info());
    let b = Logger::builder().with_color_all(Color::white());
    let logger = b.build(&Vec::new());
    assert_eq!(logger.level_color(Level::Trace), Color::white());
    assert_eq!(logger.level_color(Level::Error), Color::white());
}

#[test]
fn error_message() {
    let e = LoggerError::BuildError("already set".to_string());
    assert_eq!(e.message(), "Logger Error: already set");
}
