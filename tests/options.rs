use multi_logger::write_options::WriteOptions;

#[test]
fn default_is_none() {
    assert_eq!(WriteOptions::default(), WriteOptions::none());
    assert!(!WriteOptions::default().contains(WriteOptions::timestamp()));
}

#[test]
fn presets() {
    let basic = WriteOptions::basic();
    assert!(basic.contains(WriteOptions::timestamp()));
    assert!(basic.contains(WriteOptions::level()));
    assert!(basic.contains(WriteOptions::level_color()));
    assert!(!basic.contains(WriteOptions::file()));
    let expanded = WriteOptions::expanded();
    assert!(expanded.contains(basic));
    assert!(expanded.contains(WriteOptions::file().union(WriteOptions::line())));
    assert!(expanded.contains(WriteOptions::module().union(WriteOptions::thread())));
    assert!(!expanded.contains(WriteOptions::backtrace()));
    assert!(WriteOptions::all().contains(WriteOptions::backtrace()));
}

#[test]
fn uncolored_presets() {
    assert_eq!(
        WriteOptions::basic_uncolored(),
        WriteOptions::timestamp().union(WriteOptions::level())
    );
    assert!(!WriteOptions::expanded_uncolored().contains(WriteOptions::level_color()));
    assert!(WriteOptions::expanded_uncolored().contains(WriteOptions::thread()));
    assert!(!WriteOptions::all_uncolored().contains(WriteOptions::level_color()));
    assert!(WriteOptions::all_uncolored().contains(WriteOptions::backtrace()));
}

#[test]
fn intersection_and_difference() {
    let a = WriteOptions::file().union(WriteOptions::line());
    let b = WriteOptions::line().union(WriteOptions::module());
    assert_eq!(a.intersection(b), WriteOptions::line());
    assert_eq!(a.difference(b), WriteOptions::file());
}
