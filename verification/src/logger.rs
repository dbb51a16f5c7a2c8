//! The console logger: which records pass, how a level is colored, and the
//! line printed for a record.
//!
//! The logger object itself implements the `log` crate's `Log` trait and is
//! installed by the program; this module holds what it decides.
use vstd::prelude::*;

verus! {

/// The level of a log record, from the most to the least severe.
#[derive(Clone, Copy, PartialEq, Eq, Structural)]
pub enum Level {
    Error,
    Warn,
    Info,
    Debug,
    Trace,
}

/// The most verbose level that is still printed; `Off` prints nothing.
#[derive(Clone, Copy, PartialEq, Eq, Structural)]
pub enum LevelFilter {
    Off,
    Error,
    Warn,
    Info,
    Debug,
    Trace,
}

/// The filter that the value of the `LOG` setting selects.
pub open spec fn filter_named(name: Seq<char>) -> LevelFilter {
    if name == "error"@ {
        LevelFilter::Error
    } else if name == "warn"@ {
        LevelFilter::Warn
    } else if name == "info"@ {
        LevelFilter::Info
    } else if name == "debug"@ {
        LevelFilter::Debug
    } else if name == "trace"@ {
        LevelFilter::Trace
    } else {
        LevelFilter::Off
    }
}

/// The filter for an optional `LOG` setting: nothing set means `Off`.
pub open spec fn filter_for(value: Option<&str>) -> LevelFilter {
    match value {
        Some(name) => filter_named(name@),
        None => LevelFilter::Off,
    }
}

/// Each level's name in lower case selects that level, and only those five
/// names select anything: every other setting, upper-case names included,
/// turns logging off.
pub proof fn law_log_setting_names(name: Seq<char>)
    ensures
        filter_named("error"@) == LevelFilter::Error,
        filter_named("warn"@) == LevelFilter::Warn,
        filter_named("info"@) == LevelFilter::Info,
        filter_named("debug"@) == LevelFilter::Debug,
        filter_named("trace"@) == LevelFilter::Trace,
        filter_named("INFO"@) == LevelFilter::Off,
        name != "error"@ && name != "warn"@ && name != "info"@ && name != "debug"@ && name
            != "trace"@ ==> filter_named(name) == LevelFilter::Off,
{
    reveal_strlit("error");
    reveal_strlit("warn");
    reveal_strlit("info");
    reveal_strlit("debug");
    reveal_strlit("trace");
    reveal_strlit("INFO");
    assert("INFO"@ != "info"@) by {
        assert("INFO"@[0] != "info"@[0]);
    }
    assert("warn"@ != "error"@) by {
        assert("warn"@[0] != "error"@[0]);
    }
    assert("info"@ != "error"@ && "info"@ != "warn"@) by {
        assert("info"@[0] != "error"@[0]);
        assert("info"@[0] != "warn"@[0]);
    }
    assert("debug"@ != "error"@ && "debug"@ != "warn"@ && "debug"@ != "info"@) by {
        assert("debug"@[0] != "error"@[0]);
        assert("debug"@[0] != "warn"@[0]);
        assert("debug"@[0] != "info"@[0]);
    }
    assert("trace"@ != "error"@ && "trace"@ != "warn"@ && "trace"@ != "info"@ && "trace"@ != "debug"@) by {
        assert("trace"@[0] != "error"@[0]);
        assert("trace"@[0] != "debug"@[0]);
    }
    assert("INFO"@ != "error"@ && "INFO"@ != "warn"@ && "INFO"@ != "debug"@ && "INFO"@ != "trace"@) by {
        assert("INFO"@[0] != "error"@[0]);
        assert("INFO"@[0] != "warn"@[0]);
        assert("INFO"@[0] != "debug"@[0]);
        assert("INFO"@[0] != "trace"@[0]);
    }
}

/// Whether two strings hold the same characters.
fn same_text(a: &str, b: &str) -> (r: bool)
    ensures
        r == (a@ == b@),
{
    let n = a.unicode_len();
    if n != b.unicode_len() {
        return false;
    }
    let mut i: usize = 0;
    while i < n
        invariant
            n == a@.len(),
            n == b@.len(),
            i <= n,
            forall|j: int| 0 <= j < i ==> a@[j] == b@[j],
        decreases n - i,
    {
        if a.get_char(i) != b.get_char(i) {
            return false;
        }
        i = i + 1;
    }
    assert(a@ =~= b@);
    true
}

/// The filter selected by the `LOG` setting: `error`, `warn`, `info`,
/// `debug` or `trace`; anything else, or no setting, turns logging off.
pub fn max_level_for(value: Option<&str>) -> (r: LevelFilter)
    ensures
        r == filter_for(value),
{
    match value {
        Some(name) => {
            if same_text(name, "error") {
                LevelFilter::Error
            } else if same_text(name, "warn") {
                LevelFilter::Warn
            } else if same_text(name, "info") {
                LevelFilter::Info
            } else if same_text(name, "debug") {
                LevelFilter::Debug
            } else if same_text(name, "trace") {
                LevelFilter::Trace
            } else {
                LevelFilter::Off
            }
        },
        None => LevelFilter::Off,
    }
}

/// The maximum level that this library has handed to the `log` crate.
/// `log` keeps the level in a global; a `LogSettings` records, for the
/// proofs, what was last stored there through it.
pub struct LogSettings {
    max_level: Ghost<LevelFilter>,
}

impl LogSettings {
    /// The level last handed to `log::set_max_level`.
    pub closed spec fn max_level(&self) -> LevelFilter {
        self.max_level@
    }

    /// Settings before any level was handed over: the `log` crate starts
    /// with its maximum level at `Off`.
    pub fn new() -> (r: LogSettings)
        ensures
            r.max_level() == LevelFilter::Off,
    {
        LogSettings { max_level: Ghost(LevelFilter::Off) }
    }
}

/// Calls `log::set_max_level` with the filter of the same name, which
/// stores it in the `log` crate's global maximum level; the settings then
/// record that filter as the level handed over.
#[verifier::external_body]
fn set_max_level(settings: &mut LogSettings, filter: LevelFilter)
    ensures
        final(settings).max_level() == filter,
{
    log::set_max_level(
        match filter {
            LevelFilter::Off => log::LevelFilter::Off,
            LevelFilter::Error => log::LevelFilter::Error,
            LevelFilter::Warn => log::LevelFilter::Warn,
            LevelFilter::Info => log::LevelFilter::Info,
            LevelFilter::Debug => log::LevelFilter::Debug,
            LevelFilter::Trace => log::LevelFilter::Trace,
        },
    );
}

/// Hands the `log` crate the maximum level selected by the `LOG` setting,
/// and returns that level. Installing the logger object is the caller's
/// part.
pub fn init(settings: &mut LogSettings, log_env: Option<&str>) -> (r: LevelFilter)
    ensures
        r == filter_for(log_env),
        final(settings).max_level() == filter_for(log_env),
{
    let filter = max_level_for(log_env);
    set_max_level(settings, filter);
    filter
}

/// The terminal color of a level: red, bright yellow, blue, green and
/// bright black.
pub open spec fn color_code(level: Level) -> u8 {
    match level {
        Level::Error => 31,
        Level::Warn => 93,
        Level::Info => 34,
        Level::Debug => 32,
        Level::Trace => 90,
    }
}

/// The ANSI color code that a record of `level` is printed in.
pub fn level_to_color_code(level: Level) -> (r: u8)
    ensures
        r == color_code(level),
{
    match level {
        Level::Error => 31,
        Level::Warn => 93,
        Level::Info => 34,
        Level::Debug => 32,
        Level::Trace => 90,
    }
}


/// The name of a level as the `log` crate writes it.
pub open spec fn level_name(level: Level) -> Seq<char> {
    match level {
        Level::Error => "ERROR"@,
        Level::Warn => "WARN"@,
        Level::Info => "INFO"@,
        Level::Debug => "DEBUG"@,
        Level::Trace => "TRACE"@,
    }
}

/// Calls `log::Level::as_str` on the level of the same name, which returns
/// its entry of the crate's table of level names: "ERROR", "WARN", "INFO",
/// "DEBUG" or "TRACE".
#[verifier::external_body]
fn level_as_str(level: Level) -> (r: &'static str)
    ensures
        r@ == level_name(level),
{
    match level {
        Level::Error => log::Level::Error,
        Level::Warn => log::Level::Warn,
        Level::Info => log::Level::Info,
        Level::Debug => log::Level::Debug,
        Level::Trace => log::Level::Trace,
    }.as_str()
}

/// The decimal digit for `d`.
pub open spec fn digit_char(d: nat) -> char {
    (d + 48) as char
}

/// The decimal representation of `n`, without leading zeros.
pub open spec fn decimal(n: nat) -> Seq<char>
    decreases n,
{
    if n < 10 {
        seq![digit_char(n)]
    } else {
        decimal(n / 10).push(digit_char(n % 10))
    }
}

/// `text` right-aligned in a field of `width` characters.
pub open spec fn pad_left(text: Seq<char>, width: nat) -> Seq<char> {
    if text.len() < width {
        Seq::new((width - text.len()) as nat, |i: int| ' ') + text
    } else {
        text
    }
}

/// The line printed for a record of `level` with `message`: the level name
/// right-aligned in five columns inside brackets, then the message, the
/// whole line wrapped in the level's terminal color.
pub open spec fn log_line(level: Level, message: Seq<char>) -> Seq<char> {
    "\u{1B}["@ + decimal(color_code(level) as nat) + "m["@ + pad_left(level_name(level), 5) + "] "@
        + message + "\u{1B}[0m"@
}

fn digit_str(d: u8) -> (r: &'static str)
    requires
        d < 10,
    ensures
        r@ == seq![digit_char(d as nat)],
{
    proof {
        reveal_strlit("0");
        reveal_strlit("1");
        reveal_strlit("2");
        reveal_strlit("3");
        reveal_strlit("4");
        reveal_strlit("5");
        reveal_strlit("6");
        reveal_strlit("7");
        reveal_strlit("8");
        reveal_strlit("9");
    }
    match d {
        0 => "0",
        1 => "1",
        2 => "2",
        3 => "3",
        4 => "4",
        5 => "5",
        6 => "6",
        7 => "7",
        8 => "8",
        _ => "9",
    }
}

fn push_decimal(out: &mut String, n: u8)
    ensures
        final(out)@ == old(out)@ + decimal(n as nat),
{
    proof {
        reveal_with_fuel(decimal, 3);
    }
    if n >= 100 {
        out.append(digit_str(n / 100));
        out.append(digit_str((n / 10) % 10));
        out.append(digit_str(n % 10));
        assert(decimal(n as nat) == seq![digit_char((n / 100) as nat)].push(
            digit_char(((n / 10) % 10) as nat),
        ).push(digit_char((n % 10) as nat)));
    } else if n >= 10 {
        out.append(digit_str(n / 10));
        out.append(digit_str(n % 10));
        assert(decimal(n as nat) == seq![digit_char((n / 10) as nat)].push(
            digit_char((n % 10) as nat),
        ));
    } else {
        out.append(digit_str(n));
    }
}

/// The line the console logger prints for a record of `level` whose
/// formatted arguments are `message` (without the final newline).
pub fn format_log_line(level: Level, message: &str) -> (r: String)
    ensures
        r@ == log_line(level, message@),
{
    let mut out = String::from_str("\u{1B}[");
    push_decimal(&mut out, level_to_color_code(level));
    out.append("m[");
    let name = level_as_str(level);
    let mut k = name.unicode_len();
    let ghost before = out@;
    while k < 5
        invariant
            k <= 5 || k == name@.len(),
            name@.len() <= k,
            out@ == before + Seq::new((k - name@.len()) as nat, |i: int| ' '),
        decreases 5 - k,
    {
        proof {
            reveal_strlit(" ");
        }
        out.append(" ");
        k = k + 1;
        assert(out@ =~= before + Seq::new((k - name@.len()) as nat, |i: int| ' '));
    }
    out.append(name);
    out.append("] ");
    out.append(message);
    out.append("\u{1B}[0m");
    assert(out@ =~= log_line(level, message@));
    out
}

/// The start of the printed line for each level, written out: the color
/// escape, then the level name right-aligned in five columns in brackets,
/// then a space.
pub open spec fn line_start(level: Level) -> Seq<char> {
    match level {
        Level::Error => "\u{1B}[31m[ERROR] "@,
        Level::Warn => "\u{1B}[93m[ WARN] "@,
        Level::Info => "\u{1B}[34m[ INFO] "@,
        Level::Debug => "\u{1B}[32m[DEBUG] "@,
        Level::Trace => "\u{1B}[90m[TRACE] "@,
    }
}

/// The printed line is the colored, bracketed level tag, the whole message
/// unchanged, and the color reset: thirteen characters before the message
/// and four after it.
pub proof fn law_log_line_layout(level: Level, message: Seq<char>)
    ensures
        log_line(level, message) == line_start(level) + message + "\u{1B}[0m"@,
        line_start(level).len() == 13,
        "\u{1B}[0m"@.len() == 4,
        log_line(level, message).len() == message.len() + 17,
        log_line(level, message).subrange(13, 13 + message.len() as int) == message,
{
    reveal_strlit("\u{1B}[");
    reveal_strlit("m[");
    reveal_strlit("] ");
    reveal_strlit("\u{1B}[0m");
    reveal_strlit("ERROR");
    reveal_strlit("WARN");
    reveal_strlit("INFO");
    reveal_strlit("DEBUG");
    reveal_strlit("TRACE");
    reveal_strlit("\u{1B}[31m[ERROR] ");
    reveal_strlit("\u{1B}[93m[ WARN] ");
    reveal_strlit("\u{1B}[34m[ INFO] ");
    reveal_strlit("\u{1B}[32m[DEBUG] ");
    reveal_strlit("\u{1B}[90m[TRACE] ");
    reveal_with_fuel(decimal, 3);
    let code = color_code(level) as nat;
    assert(decimal(code) == seq![digit_char(code / 10), digit_char(code % 10)]);
    assert(pad_left(level_name(level), 5).len() == 5);
    assert(log_line(level, message) =~= line_start(level) + message + "\u{1B}[0m"@);
    assert(log_line(level, message).subrange(13, 13 + message.len() as int) =~= message);
}

} // verus!
