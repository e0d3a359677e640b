//! The logger: records filtered by severity and written to the console in
//! colour.

use vstd::prelude::*;
use crate::console::{print, write_decimal, write_right_aligned, write_str};
use crate::fmt::{decimal_text, right_aligned_text, text_of, Argument};
use crate::machine::{
    console_output, lemma_console_round_trip, lemma_emit_concat, Machine, MachineState,
};

verus! {

/// The severity of a record, most severe first.
#[derive(Clone, Copy, PartialEq, Eq, Debug, Structural)]
pub enum Level {
    Error,
    Warn,
    Info,
    Debug,
    Trace,
}

/// The threshold of a logger: the least severe level that it still writes,
/// or `Off` for none.
#[derive(Clone, Copy, PartialEq, Eq, Debug, Structural)]
pub enum LevelFilter {
    Off,
    Error,
    Warn,
    Info,
    Debug,
    Trace,
}

/// A record: a severity and a message.
#[derive(Clone, Copy, Debug)]
pub struct Record<'a> {
    pub level: Level,
    pub args: &'a [Argument<'a>],
}

impl Level {
    /// The place of the level in the order of severity: 1 for `Error`, the
    /// most severe, up to 5 for `Trace`.
    pub open spec fn rank(self) -> nat {
        match self {
            Level::Error => 1,
            Level::Warn => 2,
            Level::Info => 3,
            Level::Debug => 4,
            Level::Trace => 5,
        }
    }

    /// The name under which the level appears in a line.
    pub open spec fn name(self) -> Seq<char> {
        match self {
            Level::Error => "ERROR"@,
            Level::Warn => "WARN"@,
            Level::Info => "INFO"@,
            Level::Debug => "DEBUG"@,
            Level::Trace => "TRACE"@,
        }
    }

    /// The terminal colour of the level's lines.
    pub open spec fn spec_color(self) -> usize {
        match self {
            Level::Error => 31,
            Level::Warn => 93,
            Level::Info => 34,
            Level::Debug => 32,
            Level::Trace => 90,
        }
    }

    /// The terminal colour of the level's lines: red, bright yellow, blue,
    /// green, bright black.
    #[verifier::when_used_as_spec(spec_color)]
    pub fn color(self) -> (code: usize)
        ensures
            code == self.spec_color(),
    {
        match self {
            Level::Error => 31,
            Level::Warn => 93,
            Level::Info => 34,
            Level::Debug => 32,
            Level::Trace => 90,
        }
    }
}

impl LevelFilter {
    /// The place of the threshold: 0 for `Off`, then the rank of the level
    /// of the same name.
    pub open spec fn rank(self) -> nat {
        match self {
            LevelFilter::Off => 0,
            LevelFilter::Error => 1,
            LevelFilter::Warn => 2,
            LevelFilter::Info => 3,
            LevelFilter::Debug => 4,
            LevelFilter::Trace => 5,
        }
    }

    /// A record of `level` passes this threshold: it is at least as severe.
    pub open spec fn admits(self, level: Level) -> bool {
        level.rank() <= self.rank()
    }

    /// The level of the same name; none for `Off`.
    pub open spec fn spec_to_level(self) -> Option<Level> {
        match self {
            LevelFilter::Off => None,
            LevelFilter::Error => Some(Level::Error),
            LevelFilter::Warn => Some(Level::Warn),
            LevelFilter::Info => Some(Level::Info),
            LevelFilter::Debug => Some(Level::Debug),
            LevelFilter::Trace => Some(Level::Trace),
        }
    }

    /// The level of the same name; none for `Off`.
    #[verifier::when_used_as_spec(spec_to_level)]
    pub fn to_level(self) -> (level: Option<Level>)
        ensures
            level == self.spec_to_level(),
    {
        match self {
            LevelFilter::Off => None,
            LevelFilter::Error => Some(Level::Error),
            LevelFilter::Warn => Some(Level::Warn),
            LevelFilter::Info => Some(Level::Info),
            LevelFilter::Debug => Some(Level::Debug),
            LevelFilter::Trace => Some(Level::Trace),
        }
    }
}

/// The threshold that a configuration value selects: the level named, in
/// capitals; `Off` for any other value and for none.
pub open spec fn threshold_of(config: Option<&str>) -> LevelFilter {
    match config {
        Some(name) => if name@ == "ERROR"@ {
            LevelFilter::Error
        } else if name@ == "WARN"@ {
            LevelFilter::Warn
        } else if name@ == "INFO"@ {
            LevelFilter::Info
        } else if name@ == "DEBUG"@ {
            LevelFilter::Debug
        } else if name@ == "TRACE"@ {
            LevelFilter::Trace
        } else {
            LevelFilter::Off
        },
        None => LevelFilter::Off,
    }
}

/// The line of a record: the level's colour switched on, the level's name
/// right-aligned in five characters between brackets, the message, the
/// colour switched off, and the end of the line.
pub open spec fn log_line(level: Level, message: Seq<char>) -> Seq<char> {
    "\u{1b}["@ + decimal_text(level.spec_color() as nat) + "m["@ + right_aligned_text(
        level.name(),
        5,
    ) + "] "@ + message + "\u{1b}[0m\n"@
}

/// The state after a logger with `threshold` was handed a record.
pub open spec fn logged(
    state: MachineState,
    threshold: LevelFilter,
    level: Level,
    message: Seq<char>,
) -> MachineState {
    if threshold.admits(level) {
        state.emit(log_line(level, message))
    } else {
        state
    }
}

/// The thresholds form a chain. `Off` admits no level; every other
/// threshold admits the level of its name and the more severe ones, and no
/// other; so each threshold admits all that the one before it admits, and
/// `Trace` admits every level.
pub proof fn lemma_threshold_order(threshold: LevelFilter, level: Level)
    ensures
        !LevelFilter::Off.admits(level),
        LevelFilter::Trace.admits(level),
        LevelFilter::Error.admits(level) <==> level == Level::Error,
        LevelFilter::Warn.admits(level) <==> level == Level::Error || level == Level::Warn,
        LevelFilter::Info.admits(level) <==> level == Level::Error || level == Level::Warn
            || level == Level::Info,
        LevelFilter::Debug.admits(level) <==> level != Level::Trace,
        threshold.spec_to_level() matches Some(bound) ==> (threshold.admits(level)
            <==> level.rank() <= bound.rank()),
        forall|wider: LevelFilter|
            threshold.admits(level) && threshold.rank() <= wider.rank() ==> wider.admits(level),
{
}

/// A running machine writes the line of a record if and only if the level
/// of the record passes the threshold; the line is then all that it writes.
pub proof fn lemma_logged_iff_admitted(
    state: MachineState,
    threshold: LevelFilter,
    level: Level,
    message: Seq<char>,
)
    requires
        state.running(),
    ensures
        logged(state, threshold, level, message) != state <==> threshold.admits(level),
        threshold.admits(level) ==> console_output(
            logged(state, threshold, level, message).effects,
        ) == console_output(state.effects) + log_line(level, message),
{
    if threshold.admits(level) {
        let line = log_line(level, message);
        reveal_strlit("\u{1b}[");
        assert(line.len() >= 2);
        lemma_console_round_trip(state, line);
    }
}

/// The name of a level. Not proved here: the call is `log::Level::as_str`
/// on the level of the same name, which gives that name in capitals, as the
/// `log` crate prints it.
#[verifier::external_body]
fn level_name(level: Level) -> (name: &'static str)
    ensures
        name@ == level.name(),
{
    match level {
        Level::Error => log::Level::Error,
        Level::Warn => log::Level::Warn,
        Level::Info => log::Level::Info,
        Level::Debug => log::Level::Debug,
        Level::Trace => log::Level::Trace,
    }.as_str()
}

/// Whether a record of `level` passes the threshold that is named like
/// `bound`. Not proved here: the call is the `log` crate's `<=` between a
/// `log::Level` and a `log::LevelFilter`, which compares their places in the
/// order from `Error`, the first, to `Trace`, the last.
#[verifier::external_body]
fn level_within(level: Level, bound: Level) -> (within: bool)
    ensures
        within == (level.rank() <= bound.rank()),
{
    let level = match level {
        Level::Error => log::Level::Error,
        Level::Warn => log::Level::Warn,
        Level::Info => log::Level::Info,
        Level::Debug => log::Level::Debug,
        Level::Trace => log::Level::Trace,
    };
    let bound = match bound {
        Level::Error => log::LevelFilter::Error,
        Level::Warn => log::LevelFilter::Warn,
        Level::Info => log::LevelFilter::Info,
        Level::Debug => log::LevelFilter::Debug,
        Level::Trace => log::LevelFilter::Trace,
    };
    level <= bound
}

/// Whether two strings hold the same characters.
fn same_text(a: &str, b: &str) -> (same: bool)
    ensures
        same == (a@ == b@),
{
    let len = a.unicode_len();
    if len != b.unicode_len() {
        return false;
    }
    let mut i: usize = 0;
    while i < len
        invariant
            len == a@.len(),
            len == b@.len(),
            i <= len,
            a@.take(i as int) == b@.take(i as int),
        decreases len - i,
    {
        if a.get_char(i) != b.get_char(i) {
            return false;
        }
        assert(a@.take(i + 1) =~= a@.take(i as int).push(a@[i as int]));
        assert(b@.take(i + 1) =~= b@.take(i as int).push(b@[i as int]));
        i = i + 1;
    }
    assert(a@.take(len as int) =~= a@);
    assert(b@.take(len as int) =~= b@);
    true
}

/// The logger of a kernel. It is made without a threshold and gets one when
/// it is initialised; from then on the threshold stays.
pub struct Logger {
    threshold: Option<LevelFilter>,
}

impl View for Logger {
    type V = Option<LevelFilter>;

    /// The threshold; none before the logger is initialised.
    closed spec fn view(&self) -> Option<LevelFilter> {
        self.threshold
    }
}

impl Logger {
    /// A logger that has not been initialised.
    pub fn new() -> (logger: Logger)
        ensures
            logger@ is None,
    {
        Logger { threshold: None }
    }

    /// The threshold; none before the logger is initialised.
    pub fn max_level(&self) -> (threshold: Option<LevelFilter>)
        ensures
            threshold == self@,
    {
        self.threshold
    }

    /// Whether the logger writes records of `level`.
    pub fn enabled(&self, level: Level) -> (enabled: bool)
        requires
            self@ is Some,
        ensures
            enabled == self@->0.admits(level),
    {
        match self.threshold {
            Some(threshold) => match threshold.to_level() {
                Some(bound) => level_within(level, bound),
                None => false,
            },
            None => false,
        }
    }

    /// Writes the line of `record` to the console if its level passes the
    /// threshold, and nothing otherwise.
    pub fn log(&self, machine: &mut Machine, record: &Record)
        requires
            self@ is Some,
        ensures
            final(machine)@ == logged(
                old(machine)@,
                self@->0,
                record.level,
                text_of(record.args@),
            ),
    {
        if !self.enabled(record.level) {
            return ;
        }
        let level = record.level;
        write_str(machine, "\u{1b}[");
        write_decimal(machine, level.color());
        write_str(machine, "m[");
        write_right_aligned(machine, level_name(level), 5);
        write_str(machine, "] ");
        print(machine, record.args);
        write_str(machine, "\u{1b}[0m\n");
        proof {
            let start = old(machine)@;
            let a = "\u{1b}["@;
            let b = a + decimal_text(level.spec_color() as nat);
            let c = b + "m["@;
            let d = c + right_aligned_text(level.name(), 5);
            let e = d + "] "@;
            let f = e + text_of(record.args@);
            lemma_emit_concat(start, a, decimal_text(level.spec_color() as nat));
            lemma_emit_concat(start, b, "m["@);
            lemma_emit_concat(start, c, right_aligned_text(level.name(), 5));
            lemma_emit_concat(start, d, "] "@);
            lemma_emit_concat(start, e, text_of(record.args@));
            lemma_emit_concat(start, f, "\u{1b}[0m\n"@);
        }
    }
}

/// Initialises the logger: sets the threshold that `config` selects.
pub fn init(logger: &mut Logger, config: Option<&str>)
    requires
        old(logger)@ is None,
    ensures
        final(logger)@ == Some(threshold_of(config)),
{
    let threshold = match config {
        Some(name) => if same_text(name, "ERROR") {
            LevelFilter::Error
        } else if same_text(name, "WARN") {
            LevelFilter::Warn
        } else if same_text(name, "INFO") {
            LevelFilter::Info
        } else if same_text(name, "DEBUG") {
            LevelFilter::Debug
        } else if same_text(name, "TRACE") {
            LevelFilter::Trace
        } else {
            LevelFilter::Off
        },
        None => LevelFilter::Off,
    };
    logger.threshold = Some(threshold);
}

} // verus!
