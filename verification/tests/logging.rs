use os::fmt::Argument;
use os::logging::{init, Level, LevelFilter, Logger, Record};
use os::machine::{Effect, ExitStatus, Machine};
use os::sbi::SbiCall;

const LEVELS: [Level; 5] = [Level::Error, Level::Warn, Level::Info, Level::Debug, Level::Trace];

const FILTERS: [LevelFilter; 6] = [
    LevelFilter::Off,
    LevelFilter::Error,
    LevelFilter::Warn,
    LevelFilter::Info,
    LevelFilter::Debug,
    LevelFilter::Trace,
];

const NAMES: [&str; 5] = ["ERROR", "WARN", "INFO", "DEBUG", "TRACE"];

fn calls(machine: &Machine) -> Vec<SbiCall> {
    machine
        .effects()
        .iter()
        .filter_map(|effect| match effect {
            Effect::Call(call) => Some(*call),
            Effect::Store(_) => None,
        })
        .collect()
}

fn console_text(machine: &Machine) -> String {
    calls(machine)
        .iter()
        .filter(|call| call.which == 1)
        .map(|call| char::from_u32(call.arg0 as u32).unwrap())
        .collect()
}

fn logger_with(config: Option<&str>) -> Logger {
    let mut logger = Logger::new();
    init(&mut logger, config);
    logger
}

fn logged(config: Option<&str>, level: Level, message: &str) -> String {
    let logger = logger_with(config);
    let mut machine = Machine::new();
    logger.log(&mut machine, &Record { level, args: &[Argument::Str(message)] });
    console_text(&machine)
}

#[test]
fn new_logger_is_not_initialised() {
    assert_eq!(Logger::new().max_level(), None);
}

#[test]
fn init_takes_the_level_named_in_capitals() {
    assert_eq!(logger_with(Some("ERROR")).max_level(), Some(LevelFilter::Error));
    assert_eq!(logger_with(Some("WARN")).max_level(), Some(LevelFilter::Warn));
    assert_eq!(logger_with(Some("INFO")).max_level(), Some(LevelFilter::Info));
    assert_eq!(logger_with(Some("DEBUG")).max_level(), Some(LevelFilter::Debug));
    assert_eq!(logger_with(Some("TRACE")).max_level(), Some(LevelFilter::Trace));
}

#[test]
fn init_without_a_value_switches_logging_off() {
    assert_eq!(logger_with(None).max_level(), Some(LevelFilter::Off));
}

#[test]
fn init_with_any_other_value_switches_logging_off() {
    let values = [
        "", "OFF", "info", "Info", "INFO ", " INFO", "INF", "INFOS", "WARNING", "TRACE\n", "5",
        "ÉRROR",
    ];
    for value in values {
        assert_eq!(logger_with(Some(value)).max_level(), Some(LevelFilter::Off), "{:?}", value);
    }
}

#[test]
fn a_record_is_written_iff_it_is_at_least_as_severe_as_the_threshold() {
    for (t, name) in NAMES.iter().enumerate() {
        let logger = logger_with(Some(name));
        assert_eq!(logger.max_level(), Some(FILTERS[t + 1]));
        for (s, level) in LEVELS.iter().enumerate() {
            let expected = s <= t;
            assert_eq!(logger.enabled(*level), expected, "{} {:?}", name, level);
            let mut machine = Machine::new();
            logger.log(&mut machine, &Record { level: *level, args: &[Argument::Str("m")] });
            assert_eq!(!calls(&machine).is_empty(), expected, "{} {:?}", name, level);
        }
    }
}

#[test]
fn off_admits_nothing() {
    let logger = logger_with(None);
    for level in LEVELS {
        assert!(!logger.enabled(level));
        let mut machine = Machine::new();
        logger.log(&mut machine, &Record { level, args: &[Argument::Str("m")] });
        assert!(calls(&machine).is_empty());
    }
}

#[test]
fn trace_admits_everything() {
    let logger = logger_with(Some("TRACE"));
    for level in LEVELS {
        assert!(logger.enabled(level));
    }
}

#[test]
fn enabled_agrees_with_the_log_crate() {
    let outside_levels = [
        log::Level::Error,
        log::Level::Warn,
        log::Level::Info,
        log::Level::Debug,
        log::Level::Trace,
    ];
    let outside_filters = [
        log::LevelFilter::Off,
        log::LevelFilter::Error,
        log::LevelFilter::Warn,
        log::LevelFilter::Info,
        log::LevelFilter::Debug,
        log::LevelFilter::Trace,
    ];
    let configs = [None, Some("ERROR"), Some("WARN"), Some("INFO"), Some("DEBUG"), Some("TRACE")];
    for (f, config) in configs.iter().enumerate() {
        let logger = logger_with(*config);
        for (l, level) in LEVELS.iter().enumerate() {
            assert_eq!(logger.enabled(*level), outside_levels[l] <= outside_filters[f]);
        }
    }
}

#[test]
fn each_level_has_its_colour() {
    assert_eq!(Level::Error.color(), 31);
    assert_eq!(Level::Warn.color(), 93);
    assert_eq!(Level::Info.color(), 34);
    assert_eq!(Level::Debug.color(), 32);
    assert_eq!(Level::Trace.color(), 90);
}

#[test]
fn a_filter_names_its_level() {
    assert_eq!(LevelFilter::Off.to_level(), None);
    assert_eq!(LevelFilter::Error.to_level(), Some(Level::Error));
    assert_eq!(LevelFilter::Warn.to_level(), Some(Level::Warn));
    assert_eq!(LevelFilter::Info.to_level(), Some(Level::Info));
    assert_eq!(LevelFilter::Debug.to_level(), Some(Level::Debug));
    assert_eq!(LevelFilter::Trace.to_level(), Some(Level::Trace));
}

#[test]
fn a_line_is_coloured_tagged_and_reset() {
    assert_eq!(
        logged(Some("TRACE"), Level::Error, "disk on fire"),
        "\u{1b}[31m[ERROR] disk on fire\u{1b}[0m\n"
    );
    assert_eq!(
        logged(Some("TRACE"), Level::Warn, "careful"),
        "\u{1b}[93m[ WARN] careful\u{1b}[0m\n"
    );
    assert_eq!(logged(Some("TRACE"), Level::Info, "hello"), "\u{1b}[34m[ INFO] hello\u{1b}[0m\n");
    assert_eq!(logged(Some("TRACE"), Level::Debug, "x=1"), "\u{1b}[32m[DEBUG] x=1\u{1b}[0m\n");
    assert_eq!(logged(Some("TRACE"), Level::Trace, ""), "\u{1b}[90m[TRACE] \u{1b}[0m\n");
}

#[test]
fn a_line_is_what_the_format_string_gives() {
    let colours = [31, 93, 34, 32, 90];
    let outside = [
        log::Level::Error,
        log::Level::Warn,
        log::Level::Info,
        log::Level::Debug,
        log::Level::Trace,
    ];
    for (i, level) in LEVELS.iter().enumerate() {
        let expected =
            format!("\u{1B}[{}m[{:>5}] {}\u{1B}[0m\n", colours[i], outside[i], "a message");
        assert_eq!(logged(Some("TRACE"), *level, "a message"), expected);
    }
}

#[test]
fn a_line_holds_the_message_of_all_pieces() {
    let logger = logger_with(Some("INFO"));
    let mut machine = Machine::new();
    logger.log(
        &mut machine,
        &Record {
            level: Level::Info,
            args: &[
                Argument::Str("["),
                Argument::LowerHex(0x10),
                Argument::Str(", "),
                Argument::Decimal(32),
                Argument::Str(")"),
            ],
        },
    );
    assert_eq!(console_text(&machine), "\u{1b}[34m[ INFO] [0x10, 32)\u{1b}[0m\n");
    assert_eq!(calls(&machine).len(), 28);
}

#[test]
fn records_are_written_in_the_order_of_the_calls() {
    let logger = logger_with(Some("WARN"));
    let mut machine = Machine::new();
    logger.log(&mut machine, &Record { level: Level::Warn, args: &[Argument::Str("first")] });
    logger.log(&mut machine, &Record { level: Level::Info, args: &[Argument::Str("dropped")] });
    logger.log(&mut machine, &Record { level: Level::Error, args: &[Argument::Str("second")] });
    assert_eq!(
        console_text(&machine),
        "\u{1b}[93m[ WARN] first\u{1b}[0m\n\u{1b}[31m[ERROR] second\u{1b}[0m\n"
    );
}

#[test]
fn a_stopped_machine_logs_nothing() {
    let logger = logger_with(Some("TRACE"));
    let mut machine = Machine::new();
    machine.halt(ExitStatus::Success);
    logger.log(&mut machine, &Record { level: Level::Error, args: &[Argument::Str("late")] });
    assert!(calls(&machine).is_empty());
}
