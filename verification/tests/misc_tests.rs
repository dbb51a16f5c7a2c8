use learn_os::cloning::{CloningLab, Mammal, NewTrait};
use learn_os::logger::{
    format_log_line, init, level_to_color_code, max_level_for, Level, LevelFilter, LogSettings,
};
use learn_os::text::{join, longest};

#[derive(Clone, Debug, PartialEq)]
struct Sheep {
    wool: u8,
}

impl Mammal for Sheep {
    fn walk(&self) {}
    fn run(&self) {}
}

impl NewTrait for Sheep {}

#[test]
fn clone_subjects_copies_every_subject() {
    let lab = CloningLab { subjects: vec![Box::new(Sheep { wool: 3 }), Box::new(Sheep { wool: 7 })] };
    let copies = lab.clone_subjects();
    assert_eq!(copies, lab.subjects);
    let empty: CloningLab<Sheep> = CloningLab { subjects: Vec::new() };
    assert!(empty.clone_subjects().is_empty());
}

#[test]
fn join_prefixes() {
    assert_eq!(join(&"Hello".to_string()), "HHHHello");
    assert_eq!(join(&String::new()), "HHH");
}

#[test]
fn longest_by_bytes() {
    assert_eq!(longest("Hello", "Hi"), "Hello");
    assert_eq!(longest("Hi", "Hello"), "Hello");
    assert_eq!(longest("abc", "xyz"), "xyz");
    // "é" has two bytes
    assert_eq!(longest("é", "a"), "é");
}

#[test]
fn log_setting_selects_filter() {
    assert!(max_level_for(Some("error")) == LevelFilter::Error);
    assert!(max_level_for(Some("warn")) == LevelFilter::Warn);
    assert!(max_level_for(Some("info")) == LevelFilter::Info);
    assert!(max_level_for(Some("debug")) == LevelFilter::Debug);
    assert!(max_level_for(Some("trace")) == LevelFilter::Trace);
    assert!(max_level_for(Some("INFO")) == LevelFilter::Off);
    assert!(max_level_for(Some("")) == LevelFilter::Off);
    assert!(max_level_for(Some("errors")) == LevelFilter::Off);
    assert!(max_level_for(None) == LevelFilter::Off);
}

#[test]
fn init_sets_the_log_crate_level() {
    let mut settings = LogSettings::new();
    assert_eq!(log::max_level(), log::LevelFilter::Off);
    assert!(init(&mut settings, Some("debug")) == LevelFilter::Debug);
    assert_eq!(log::max_level(), log::LevelFilter::Debug);
    assert!(init(&mut settings, Some("trace")) == LevelFilter::Trace);
    assert_eq!(log::max_level(), log::LevelFilter::Trace);
    assert!(init(&mut settings, Some("INFO")) == LevelFilter::Off);
    assert_eq!(log::max_level(), log::LevelFilter::Off);
    assert!(init(&mut settings, Some("warn")) == LevelFilter::Warn);
    assert_eq!(log::max_level(), log::LevelFilter::Warn);
    assert!(init(&mut settings, None) == LevelFilter::Off);
    assert_eq!(log::max_level(), log::LevelFilter::Off);
}

#[test]
fn color_codes() {
    assert_eq!(level_to_color_code(Level::Error), 31);
    assert_eq!(level_to_color_code(Level::Warn), 93);
    assert_eq!(level_to_color_code(Level::Info), 34);
    assert_eq!(level_to_color_code(Level::Debug), 32);
    assert_eq!(level_to_color_code(Level::Trace), 90);
}

#[test]
fn log_lines() {
    assert_eq!(format_log_line(Level::Error, "boom"), "\u{1B}[31m[ERROR] boom\u{1B}[0m");
    assert_eq!(format_log_line(Level::Warn, "w"), "\u{1B}[93m[ WARN] w\u{1B}[0m");
    assert_eq!(format_log_line(Level::Info, "log init finished!"), "\u{1B}[34m[ INFO] log init finished!\u{1B}[0m");
    assert_eq!(format_log_line(Level::Debug, ""), "\u{1B}[32m[DEBUG] \u{1B}[0m");
    assert_eq!(format_log_line(Level::Trace, "t"), "\u{1B}[90m[TRACE] t\u{1B}[0m");
}
