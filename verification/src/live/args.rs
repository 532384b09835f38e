//! The command line of the live poller.

use vstd::prelude::*;
use vstd::string::*;

use crate::args::{
    match_named, match_option, read_common_word, refuse_unknown, ArgError, ArgFault, Choice, Given,
    GivenText, Word, WordText,
};
use crate::text::{parse_u64, quoted, same, IntError};

verus! {

/// How often volumes are polled unless the command line says otherwise.
pub const VWAP_DEFAULT_INTERVAL_MS: u64 = 3_600_000;

/// What the command line asks for.
pub struct Config {
    /// Poll interval in milliseconds; `None` is to run once and exit.
    pub interval_ms: Option<u64>,
    /// Volume poll interval in milliseconds. A single run polls once whatever
    /// stands here.
    pub vwap_interval_ms: u64,
    /// Path of the results log; `None` is the default with a time stamp.
    pub results_path: Option<String>,
    /// Path of the error log; `None` is the default with a time stamp.
    pub errors_path: Option<String>,
    /// Path of the volume log; `None` is the default with a time stamp.
    pub vwap_path: Option<String>,
    /// Write no log at all.
    pub no_log: bool,
    /// Print no table.
    pub quiet: bool,
}

/// A `Config` with its texts as sequences of characters.
#[verifier::ext_equal]
pub struct Settings {
    pub interval_ms: Option<u64>,
    pub vwap_interval_ms: u64,
    pub results_path: Option<Seq<char>>,
    pub errors_path: Option<Seq<char>>,
    pub vwap_path: Option<Seq<char>>,
    pub no_log: bool,
    pub quiet: bool,
}

impl View for Config {
    type V = Settings;

    open spec fn view(&self) -> Settings {
        Settings {
            interval_ms: self.interval_ms,
            vwap_interval_ms: self.vwap_interval_ms,
            results_path: crate::args::opt_text(self.results_path),
            errors_path: crate::args::opt_text(self.errors_path),
            vwap_path: crate::args::opt_text(self.vwap_path),
            no_log: self.no_log,
            quiet: self.quiet,
        }
    }
}

/// What a command line that is not refused asks for.
pub enum Command {
    /// To explain the options.
    Help,
    /// To poll.
    Run(Config),
}

/// What becomes of a command line.
pub enum Outcome {
    Help,
    Run(Settings),
    Refused(ArgFault),
}

pub open spec fn outcome(r: Result<Command, ArgError>) -> Outcome {
    match r {
        Ok(Command::Help) => Outcome::Help,
        Ok(Command::Run(cfg)) => Outcome::Run(cfg@),
        Err(e) => Outcome::Refused(e@),
    }
}

/// The settings where the command line says nothing.
pub open spec fn default_settings() -> Settings {
    Settings {
        interval_ms: None,
        vwap_interval_ms: VWAP_DEFAULT_INTERVAL_MS,
        results_path: None,
        errors_path: None,
        vwap_path: None,
        no_log: false,
        quiet: false,
    }
}

/// A positive number of milliseconds, or why `v` is none.
pub open spec fn interval_of(v: Seq<char>) -> Result<u64, ArgFault> {
    match crate::text::parsed_u64(v) {
        Ok(ms) => if ms == 0 {
            Err(
                ArgFault {
                    message: "interval must be greater than 0"@,
                    cause: None,
                },
            )
        } else {
            Ok(ms)
        },
        Err(e) => Err(
            ArgFault {
                message: "invalid interval "@ + crate::text::debug_quoted(v)
                    + "; expected milliseconds"@,
                cause: Some(e),
            },
        ),
    }
}

/// Reads a positive number of milliseconds.
pub fn parse_interval(v: &str) -> (r: Result<u64, ArgError>)
    ensures
        match r {
            Ok(ms) => interval_of(v@) == Ok::<u64, ArgFault>(ms),
            Err(e) => interval_of(v@) == Err::<u64, ArgFault>(e@),
        },
{
    match parse_u64(v) {
        Ok(ms) => if ms == 0 {
            Err(ArgError { message: "interval must be greater than 0".to_owned(), cause: None })
        } else {
            Ok(ms)
        },
        Err(e) => Err(invalid_interval(v, e)),
    }
}

/// Refuses `v` as an interval; `cause` is what was wrong with it as a number.
pub fn invalid_interval(v: &str, cause: IntError) -> (r: ArgError)
    ensures
        r@ == (ArgFault {
            message: "invalid interval "@ + crate::text::debug_quoted(v@)
                + "; expected milliseconds"@,
            cause: Some(cause),
        }),
{
    let mut message = "invalid interval ".to_owned();
    message.append(quoted(v).as_str());
    message.append("; expected milliseconds");
    ArgError { message, cause: Some(cause) }
}

/// What an argument says where an option is due.
pub open spec fn word_of(arg: Seq<char>) -> WordText {
    if let Some(g) = crate::args::named(arg, "--interval"@, "-i"@) {
        WordText::Valued(Choice::Interval, g)
    } else if let Some(g) = crate::args::option_given(arg, "--vwap-interval"@) {
        WordText::Valued(Choice::VwapInterval, g)
    } else if let Some(g) = crate::args::named(arg, "--results"@, "-o"@) {
        WordText::Valued(Choice::Results, g)
    } else if let Some(g) = crate::args::option_given(arg, "--ndjson"@) {
        WordText::Valued(Choice::Results, g)
    } else if let Some(g) = crate::args::named(arg, "--errors"@, "-e"@) {
        WordText::Valued(Choice::Errors, g)
    } else if let Some(g) = crate::args::option_given(arg, "--vwap-results"@) {
        WordText::Valued(Choice::VwapResults, g)
    } else if arg == "--no-log"@ {
        WordText::NoLog
    } else {
        crate::args::common_word(arg)
    }
}

fn read_word(arg: &str) -> (r: Word)
    ensures
        r@ == word_of(arg@),
{
    if let Some(g) = match_named(arg, "--interval", "-i") {
        return Word::Valued(Choice::Interval, g);
    }
    if let Some(g) = match_option(arg, "--vwap-interval") {
        return Word::Valued(Choice::VwapInterval, g);
    }
    if let Some(g) = match_named(arg, "--results", "-o") {
        return Word::Valued(Choice::Results, g);
    }
    if let Some(g) = match_option(arg, "--ndjson") {
        return Word::Valued(Choice::Results, g);
    }
    if let Some(g) = match_named(arg, "--errors", "-e") {
        return Word::Valued(Choice::Errors, g);
    }
    if let Some(g) = match_option(arg, "--vwap-results") {
        return Word::Valued(Choice::VwapResults, g);
    }
    if same(arg, "--no-log") {
        Word::NoLog
    } else {
        read_common_word(arg)
    }
}

/// What is said of an option that lacks its value.
pub open spec fn value_missing(choice: Choice) -> ArgFault {
    let message = match choice {
        Choice::Interval => "--interval requires a value in milliseconds"@,
        Choice::VwapInterval => "--vwap-interval requires a value in milliseconds"@,
        Choice::Results => "--results requires a file path"@,
        Choice::Errors => "--errors requires a file path"@,
        _ => "--vwap-results requires a file path"@,
    };
    ArgFault { message, cause: None }
}

fn refuse_missing(choice: Choice) -> (r: ArgError)
    ensures
        r@ == value_missing(choice),
{
    let message = match choice {
        Choice::Interval => "--interval requires a value in milliseconds".to_owned(),
        Choice::VwapInterval => "--vwap-interval requires a value in milliseconds".to_owned(),
        Choice::Results => "--results requires a file path".to_owned(),
        Choice::Errors => "--errors requires a file path".to_owned(),
        _ => "--vwap-results requires a file path".to_owned(),
    };
    ArgError { message, cause: None }
}

impl Settings {
    /// The settings with the option `choice` set to `v`, or why `v` is refused.
    pub open spec fn with(self, choice: Choice, v: Seq<char>) -> Result<
        Settings,
        ArgFault,
    > {
        match choice {
            Choice::Interval => match interval_of(v) {
                Ok(ms) => Ok(Settings { interval_ms: Some(ms), ..self }),
                Err(e) => Err(e),
            },
            Choice::VwapInterval => match interval_of(v) {
                Ok(ms) => Ok(Settings { vwap_interval_ms: ms, ..self }),
                Err(e) => Err(e),
            },
            Choice::Results => Ok(Settings { results_path: Some(v), ..self }),
            Choice::Errors => Ok(Settings { errors_path: Some(v), ..self }),
            _ => Ok(Settings { vwap_path: Some(v), ..self }),
        }
    }

    /// Whether some log was given a path.
    pub open spec fn names_a_log(self) -> bool {
        self.results_path is Some || self.errors_path is Some || self.vwap_path is Some
    }
}

/// What becomes of the arguments from `i` on, where those before have led to
/// the settings `cfg`.
pub open spec fn parse_from(args: Seq<Seq<char>>, i: int, cfg: Settings) -> Outcome
    decreases args.len() - i,
{
    if i >= args.len() {
        if cfg.no_log && cfg.names_a_log() {
            Outcome::Refused(
                ArgFault {
                    message:
                        "--no-log cannot be combined with --results/--errors/--vwap-results"@,
                    cause: None,
                },
            )
        } else {
            Outcome::Run(cfg)
        }
    } else {
        match word_of(args[i]) {
            WordText::Valued(choice, given) => match crate::args::value_at(
                args,
                i,
                given,
            ) {
                None => Outcome::Refused(value_missing(choice)),
                Some(v) => match cfg.with(choice, v) {
                    Err(e) => Outcome::Refused(e),
                    Ok(next) => parse_from(args, i + crate::args::width(given), next),
                },
            },
            WordText::NoLog => parse_from(
                args,
                i + 1,
                Settings { no_log: true, ..cfg },
            ),
            WordText::Quiet => parse_from(
                args,
                i + 1,
                Settings { quiet: true, ..cfg },
            ),
            WordText::Help => Outcome::Help,
            WordText::Unknown => Outcome::Refused(
                crate::args::unknown_argument(args[i]),
            ),
        }
    }
}

fn set(cfg: Config, choice: Choice, v: String) -> (r: Result<Config, ArgError>)
    ensures
        match r {
            Ok(next) => cfg@.with(choice, v@) == Ok::<Settings, ArgFault>(next@),
            Err(e) => cfg@.with(choice, v@) == Err::<Settings, ArgFault>(e@),
        },
{
    let mut next = cfg;
    match choice {
        Choice::Interval => match parse_interval(v.as_str()) {
            Ok(ms) => {
                next.interval_ms = Some(ms);
            },
            Err(e) => {
                return Err(e);
            },
        },
        Choice::VwapInterval => match parse_interval(v.as_str()) {
            Ok(ms) => {
                next.vwap_interval_ms = ms;
            },
            Err(e) => {
                return Err(e);
            },
        },
        Choice::Results => {
            next.results_path = Some(v);
        },
        Choice::Errors => {
            next.errors_path = Some(v);
        },
        _ => {
            next.vwap_path = Some(v);
        },
    }
    Ok(next)
}

/// Reads the command line.
pub fn parse_args(args: &Vec<String>) -> (r: Result<Command, ArgError>)
    ensures
        outcome(r) == parse_from(crate::args::texts(args@), 0, default_settings()),
{
    let mut cfg = Config {
        interval_ms: None,
        vwap_interval_ms: VWAP_DEFAULT_INTERVAL_MS,
        results_path: None,
        errors_path: None,
        vwap_path: None,
        no_log: false,
        quiet: false,
    };
    let ghost all = crate::args::texts(args@);
    let mut i: usize = 0;
    while i < args.len()
        invariant
            i <= args.len(),
            all == crate::args::texts(args@),
            parse_from(all, 0, default_settings()) == parse_from(all, i as int, cfg@),
        decreases args.len() - i,
    {
        match read_word(args[i].as_str()) {
            Word::Valued(choice, given) => {
                let (value, next): (String, usize) = match given {
                    Given::Inline(v) => (v, i + 1),
                    Given::Next => {
                        if args.len() - i <= 1 {
                            return Err(refuse_missing(choice));
                        }
                        (args[i + 1].clone(), i + 2)
                    },
                };
                match set(cfg, choice, value) {
                    Ok(c) => {
                        cfg = c;
                        i = next;
                    },
                    Err(e) => {
                        return Err(e);
                    },
                }
            },
            Word::NoLog => {
                cfg.no_log = true;
                i = i + 1;
            },
            Word::Quiet => {
                cfg.quiet = true;
                i = i + 1;
            },
            Word::Help => {
                return Ok(Command::Help);
            },
            Word::Unknown => {
                return Err(refuse_unknown(args[i].as_str()));
            },
        }
    }
    if cfg.no_log && (cfg.results_path.is_some() || cfg.errors_path.is_some()
        || cfg.vwap_path.is_some()) {
        return Err(
            ArgError {
                message:
                    "--no-log cannot be combined with --results/--errors/--vwap-results".to_owned(),
                cause: None,
            },
        );
    }
    Ok(Command::Run(cfg))
}

/// What every command line that is not refused keeps to: intervals are
/// positive, and no path is given to a log that is switched off.
pub open spec fn coherent(cfg: Settings) -> bool {
    &&& cfg.interval_ms matches Some(ms) ==> ms > 0
    &&& cfg.vwap_interval_ms > 0
    &&& cfg.no_log ==> !cfg.names_a_log()
}

proof fn lemma_coherent_from(args: Seq<Seq<char>>, i: int, cfg: Settings)
    requires
        cfg.interval_ms matches Some(ms) ==> ms > 0,
        cfg.vwap_interval_ms > 0,
    ensures
        parse_from(args, i, cfg) matches Outcome::Run(s) ==> coherent(s),
    decreases args.len() - i,
{
    if i < args.len() {
        match word_of(args[i]) {
            WordText::Valued(choice, given) => {
                if let Some(v) = crate::args::value_at(args, i, given) {
                    if let Ok(next) = cfg.with(choice, v) {
                        lemma_coherent_from(args, i + crate::args::width(given), next);
                    }
                }
            },
            WordText::NoLog => {
                lemma_coherent_from(args, i + 1, Settings { no_log: true, ..cfg });
            },
            WordText::Quiet => {
                lemma_coherent_from(args, i + 1, Settings { quiet: true, ..cfg });
            },
            _ => {},
        }
    }
}

/// A command line that is not refused asks for positive intervals, and gives
/// no path to a log that it switches off.
pub proof fn accepted_settings_are_coherent(args: Seq<Seq<char>>)
    ensures
        parse_from(args, 0, default_settings()) matches Outcome::Run(s) ==> coherent(s),
{
    lemma_coherent_from(args, 0, default_settings());
}


/// Every option is known by its name, with its value in the next argument or
/// behind an equals sign; and by its short name, where it has one.
#[verifier::rlimit(60)]
pub proof fn options_are_known(v: Seq<char>)
    ensures
        word_of("--interval"@) == WordText::Valued(Choice::Interval, GivenText::Next),
        !crate::text::starts_with(v, "--interval="@) ==> word_of("--interval="@ + v) == WordText::Valued(
            Choice::Interval,
            GivenText::Inline(v),
        ),
        word_of("-i"@) == WordText::Valued(Choice::Interval, GivenText::Next),
        word_of("--vwap-interval"@) == WordText::Valued(Choice::VwapInterval, GivenText::Next),
        !crate::text::starts_with(v, "--vwap-interval="@) ==> word_of("--vwap-interval="@ + v) == WordText::Valued(
            Choice::VwapInterval,
            GivenText::Inline(v),
        ),
        word_of("--results"@) == WordText::Valued(Choice::Results, GivenText::Next),
        !crate::text::starts_with(v, "--results="@) ==> word_of("--results="@ + v) == WordText::Valued(
            Choice::Results,
            GivenText::Inline(v),
        ),
        word_of("-o"@) == WordText::Valued(Choice::Results, GivenText::Next),
        word_of("--ndjson"@) == WordText::Valued(Choice::Results, GivenText::Next),
        !crate::text::starts_with(v, "--ndjson="@) ==> word_of("--ndjson="@ + v) == WordText::Valued(
            Choice::Results,
            GivenText::Inline(v),
        ),
        word_of("--errors"@) == WordText::Valued(Choice::Errors, GivenText::Next),
        !crate::text::starts_with(v, "--errors="@) ==> word_of("--errors="@ + v) == WordText::Valued(
            Choice::Errors,
            GivenText::Inline(v),
        ),
        word_of("-e"@) == WordText::Valued(Choice::Errors, GivenText::Next),
        word_of("--vwap-results"@) == WordText::Valued(Choice::VwapResults, GivenText::Next),
        !crate::text::starts_with(v, "--vwap-results="@) ==> word_of("--vwap-results="@ + v) == WordText::Valued(
            Choice::VwapResults,
            GivenText::Inline(v),
        ),
        word_of("--no-log"@) is NoLog,
        word_of("--quiet"@) is Quiet,
        word_of("-q"@) is Quiet,
        word_of("--help"@) is Help,
        word_of("-h"@) is Help,
{
    reveal_strlit("--interval");
    reveal_strlit("-i");
    reveal_strlit("--vwap-interval");
    reveal_strlit("--results");
    reveal_strlit("-o");
    reveal_strlit("--ndjson");
    reveal_strlit("--errors");
    reveal_strlit("-e");
    reveal_strlit("--vwap-results");
    reveal_strlit("--no-log");
    reveal_strlit("--quiet");
    reveal_strlit("-q");
    reveal_strlit("--help");
    reveal_strlit("-h");
    reveal_strlit("=");
    reveal_strlit("--interval=");
    assert("--interval="@ =~= "--interval"@ + "="@);
    reveal_strlit("--vwap-interval=");
    assert("--vwap-interval="@ =~= "--vwap-interval"@ + "="@);
    reveal_strlit("--results=");
    assert("--results="@ =~= "--results"@ + "="@);
    reveal_strlit("--ndjson=");
    assert("--ndjson="@ =~= "--ndjson"@ + "="@);
    reveal_strlit("--errors=");
    assert("--errors="@ =~= "--errors"@ + "="@);
    reveal_strlit("--vwap-results=");
    assert("--vwap-results="@ =~= "--vwap-results"@ + "="@);
    assert(word_of("--interval"@) == WordText::Valued(Choice::Interval, GivenText::Next)) by {
        assert("--interval"@ != "-i"@) by {
            assert("--interval"@.len() != "-i"@.len());
        }
        crate::args::lemma_is_option("--interval"@, v);
    }
    if !crate::text::starts_with(v, "--interval="@) {
        let arg = "--interval="@ + v;
        assert(arg != "-i"@) by {
            assert(arg.len() != "-i"@.len());
        }
        crate::args::lemma_is_option("--interval"@, v);
        assert(word_of(arg) == WordText::Valued(Choice::Interval, GivenText::Inline(v)));
    }
    assert(word_of("-i"@) == WordText::Valued(Choice::Interval, GivenText::Next)) by {
    }
    assert(word_of("--vwap-interval"@) == WordText::Valued(Choice::VwapInterval, GivenText::Next)) by {
        assert("--vwap-interval"@ != "-i"@) by {
            assert("--vwap-interval"@.len() != "-i"@.len() || "--vwap-interval"@[1] != "-i"@[1]);
        }
        crate::args::lemma_is_no_option("--vwap-interval"@, "--interval"@, 2);
        crate::args::lemma_is_option("--vwap-interval"@, v);
    }
    if !crate::text::starts_with(v, "--vwap-interval="@) {
        let arg = "--vwap-interval="@ + v;
        assert(arg != "-i"@) by {
            assert(arg.len() != "-i"@.len() || arg[1] != "-i"@[1]);
        }
        crate::args::lemma_is_no_option(arg, "--interval"@, 2);
        crate::args::lemma_is_option("--vwap-interval"@, v);
        assert(word_of(arg) == WordText::Valued(Choice::VwapInterval, GivenText::Inline(v)));
    }
    assert(word_of("--results"@) == WordText::Valued(Choice::Results, GivenText::Next)) by {
        assert("--results"@ != "-i"@) by {
            assert("--results"@.len() != "-i"@.len() || "--results"@[1] != "-i"@[1]);
        }
        crate::args::lemma_is_no_option("--results"@, "--interval"@, 2);
        crate::args::lemma_is_no_option("--results"@, "--vwap-interval"@, 2);
        assert("--results"@ != "-o"@) by {
            assert("--results"@.len() != "-o"@.len());
        }
        crate::args::lemma_is_option("--results"@, v);
    }
    if !crate::text::starts_with(v, "--results="@) {
        let arg = "--results="@ + v;
        assert(arg != "-i"@) by {
            assert(arg.len() != "-i"@.len() || arg[1] != "-i"@[1]);
        }
        crate::args::lemma_is_no_option(arg, "--interval"@, 2);
        crate::args::lemma_is_no_option(arg, "--vwap-interval"@, 2);
        assert(arg != "-o"@) by {
            assert(arg.len() != "-o"@.len());
        }
        crate::args::lemma_is_option("--results"@, v);
        assert(word_of(arg) == WordText::Valued(Choice::Results, GivenText::Inline(v)));
    }
    assert(word_of("-o"@) == WordText::Valued(Choice::Results, GivenText::Next)) by {
        assert("-o"@ != "-i"@) by {
            assert("-o"@.len() != "-i"@.len() || "-o"@[1] != "-i"@[1]);
        }
        crate::args::lemma_is_no_option("-o"@, "--interval"@, 1);
        crate::args::lemma_is_no_option("-o"@, "--vwap-interval"@, 1);
    }
    assert(word_of("--ndjson"@) == WordText::Valued(Choice::Results, GivenText::Next)) by {
        assert("--ndjson"@ != "-i"@) by {
            assert("--ndjson"@.len() != "-i"@.len() || "--ndjson"@[1] != "-i"@[1]);
        }
        crate::args::lemma_is_no_option("--ndjson"@, "--interval"@, 2);
        crate::args::lemma_is_no_option("--ndjson"@, "--vwap-interval"@, 2);
        assert("--ndjson"@ != "-o"@) by {
            assert("--ndjson"@.len() != "-o"@.len() || "--ndjson"@[1] != "-o"@[1]);
        }
        crate::args::lemma_is_no_option("--ndjson"@, "--results"@, 2);
        crate::args::lemma_is_option("--ndjson"@, v);
    }
    if !crate::text::starts_with(v, "--ndjson="@) {
        let arg = "--ndjson="@ + v;
        assert(arg != "-i"@) by {
            assert(arg.len() != "-i"@.len() || arg[1] != "-i"@[1]);
        }
        crate::args::lemma_is_no_option(arg, "--interval"@, 2);
        crate::args::lemma_is_no_option(arg, "--vwap-interval"@, 2);
        assert(arg != "-o"@) by {
            assert(arg.len() != "-o"@.len() || arg[1] != "-o"@[1]);
        }
        crate::args::lemma_is_no_option(arg, "--results"@, 2);
        crate::args::lemma_is_option("--ndjson"@, v);
        assert(word_of(arg) == WordText::Valued(Choice::Results, GivenText::Inline(v)));
    }
    assert(word_of("--errors"@) == WordText::Valued(Choice::Errors, GivenText::Next)) by {
        assert("--errors"@ != "-i"@) by {
            assert("--errors"@.len() != "-i"@.len() || "--errors"@[1] != "-i"@[1]);
        }
        crate::args::lemma_is_no_option("--errors"@, "--interval"@, 2);
        crate::args::lemma_is_no_option("--errors"@, "--vwap-interval"@, 2);
        assert("--errors"@ != "-o"@) by {
            assert("--errors"@.len() != "-o"@.len() || "--errors"@[1] != "-o"@[1]);
        }
        crate::args::lemma_is_no_option("--errors"@, "--results"@, 2);
        crate::args::lemma_is_no_option("--errors"@, "--ndjson"@, 2);
        assert("--errors"@ != "-e"@) by {
            assert("--errors"@.len() != "-e"@.len());
        }
        crate::args::lemma_is_option("--errors"@, v);
    }
    if !crate::text::starts_with(v, "--errors="@) {
        let arg = "--errors="@ + v;
        assert(arg != "-i"@) by {
            assert(arg.len() != "-i"@.len() || arg[1] != "-i"@[1]);
        }
        crate::args::lemma_is_no_option(arg, "--interval"@, 2);
        crate::args::lemma_is_no_option(arg, "--vwap-interval"@, 2);
        assert(arg != "-o"@) by {
            assert(arg.len() != "-o"@.len() || arg[1] != "-o"@[1]);
        }
        crate::args::lemma_is_no_option(arg, "--results"@, 2);
        crate::args::lemma_is_no_option(arg, "--ndjson"@, 2);
        assert(arg != "-e"@) by {
            assert(arg.len() != "-e"@.len());
        }
        crate::args::lemma_is_option("--errors"@, v);
        assert(word_of(arg) == WordText::Valued(Choice::Errors, GivenText::Inline(v)));
    }
    assert(word_of("-e"@) == WordText::Valued(Choice::Errors, GivenText::Next)) by {
        assert("-e"@ != "-i"@) by {
            assert("-e"@.len() != "-i"@.len() || "-e"@[1] != "-i"@[1]);
        }
        crate::args::lemma_is_no_option("-e"@, "--interval"@, 1);
        crate::args::lemma_is_no_option("-e"@, "--vwap-interval"@, 1);
        assert("-e"@ != "-o"@) by {
            assert("-e"@.len() != "-o"@.len() || "-e"@[1] != "-o"@[1]);
        }
        crate::args::lemma_is_no_option("-e"@, "--results"@, 1);
        crate::args::lemma_is_no_option("-e"@, "--ndjson"@, 1);
    }
    assert(word_of("--vwap-results"@) == WordText::Valued(Choice::VwapResults, GivenText::Next)) by {
        assert("--vwap-results"@ != "-i"@) by {
            assert("--vwap-results"@.len() != "-i"@.len() || "--vwap-results"@[1] != "-i"@[1]);
        }
        crate::args::lemma_is_no_option("--vwap-results"@, "--interval"@, 2);
        crate::args::lemma_is_no_option("--vwap-results"@, "--vwap-interval"@, 7);
        assert("--vwap-results"@ != "-o"@) by {
            assert("--vwap-results"@.len() != "-o"@.len() || "--vwap-results"@[1] != "-o"@[1]);
        }
        crate::args::lemma_is_no_option("--vwap-results"@, "--results"@, 2);
        crate::args::lemma_is_no_option("--vwap-results"@, "--ndjson"@, 2);
        assert("--vwap-results"@ != "-e"@) by {
            assert("--vwap-results"@.len() != "-e"@.len() || "--vwap-results"@[1] != "-e"@[1]);
        }
        crate::args::lemma_is_no_option("--vwap-results"@, "--errors"@, 2);
        crate::args::lemma_is_option("--vwap-results"@, v);
    }
    if !crate::text::starts_with(v, "--vwap-results="@) {
        let arg = "--vwap-results="@ + v;
        assert(arg != "-i"@) by {
            assert(arg.len() != "-i"@.len() || arg[1] != "-i"@[1]);
        }
        crate::args::lemma_is_no_option(arg, "--interval"@, 2);
        crate::args::lemma_is_no_option(arg, "--vwap-interval"@, 7);
        assert(arg != "-o"@) by {
            assert(arg.len() != "-o"@.len() || arg[1] != "-o"@[1]);
        }
        crate::args::lemma_is_no_option(arg, "--results"@, 2);
        crate::args::lemma_is_no_option(arg, "--ndjson"@, 2);
        assert(arg != "-e"@) by {
            assert(arg.len() != "-e"@.len() || arg[1] != "-e"@[1]);
        }
        crate::args::lemma_is_no_option(arg, "--errors"@, 2);
        crate::args::lemma_is_option("--vwap-results"@, v);
        assert(word_of(arg) == WordText::Valued(Choice::VwapResults, GivenText::Inline(v)));
    }
    assert(word_of("--no-log"@) is NoLog) by {
        assert("--no-log"@ != "-i"@) by {
            assert("--no-log"@.len() != "-i"@.len() || "--no-log"@[1] != "-i"@[1]);
        }
        crate::args::lemma_is_no_option("--no-log"@, "--interval"@, 2);
        crate::args::lemma_is_no_option("--no-log"@, "--vwap-interval"@, 2);
        assert("--no-log"@ != "-o"@) by {
            assert("--no-log"@.len() != "-o"@.len() || "--no-log"@[1] != "-o"@[1]);
        }
        crate::args::lemma_is_no_option("--no-log"@, "--results"@, 2);
        crate::args::lemma_is_no_option("--no-log"@, "--ndjson"@, 3);
        assert("--no-log"@ != "-e"@) by {
            assert("--no-log"@.len() != "-e"@.len() || "--no-log"@[1] != "-e"@[1]);
        }
        crate::args::lemma_is_no_option("--no-log"@, "--errors"@, 2);
        crate::args::lemma_is_no_option("--no-log"@, "--vwap-results"@, 2);
    }
    assert(word_of("--quiet"@) is Quiet) by {
        assert("--quiet"@ != "-i"@) by {
            assert("--quiet"@.len() != "-i"@.len() || "--quiet"@[1] != "-i"@[1]);
        }
        crate::args::lemma_is_no_option("--quiet"@, "--interval"@, 2);
        crate::args::lemma_is_no_option("--quiet"@, "--vwap-interval"@, 2);
        assert("--quiet"@ != "-o"@) by {
            assert("--quiet"@.len() != "-o"@.len() || "--quiet"@[1] != "-o"@[1]);
        }
        crate::args::lemma_is_no_option("--quiet"@, "--results"@, 2);
        crate::args::lemma_is_no_option("--quiet"@, "--ndjson"@, 2);
        assert("--quiet"@ != "-e"@) by {
            assert("--quiet"@.len() != "-e"@.len() || "--quiet"@[1] != "-e"@[1]);
        }
        crate::args::lemma_is_no_option("--quiet"@, "--errors"@, 2);
        crate::args::lemma_is_no_option("--quiet"@, "--vwap-results"@, 2);
        assert("--quiet"@ != "--no-log"@) by {
            assert("--quiet"@.len() != "--no-log"@.len() || "--quiet"@[2] != "--no-log"@[2]);
        }
        crate::args::common_words_are_known();
    }
    assert(word_of("-q"@) is Quiet) by {
        assert("-q"@ != "-i"@) by {
            assert("-q"@.len() != "-i"@.len() || "-q"@[1] != "-i"@[1]);
        }
        crate::args::lemma_is_no_option("-q"@, "--interval"@, 1);
        crate::args::lemma_is_no_option("-q"@, "--vwap-interval"@, 1);
        assert("-q"@ != "-o"@) by {
            assert("-q"@.len() != "-o"@.len() || "-q"@[1] != "-o"@[1]);
        }
        crate::args::lemma_is_no_option("-q"@, "--results"@, 1);
        crate::args::lemma_is_no_option("-q"@, "--ndjson"@, 1);
        assert("-q"@ != "-e"@) by {
            assert("-q"@.len() != "-e"@.len() || "-q"@[1] != "-e"@[1]);
        }
        crate::args::lemma_is_no_option("-q"@, "--errors"@, 1);
        crate::args::lemma_is_no_option("-q"@, "--vwap-results"@, 1);
        assert("-q"@ != "--no-log"@) by {
            assert("-q"@.len() != "--no-log"@.len() || "-q"@[2] != "--no-log"@[2]);
        }
        crate::args::common_words_are_known();
    }
    assert(word_of("--help"@) is Help) by {
        assert("--help"@ != "-i"@) by {
            assert("--help"@.len() != "-i"@.len() || "--help"@[1] != "-i"@[1]);
        }
        crate::args::lemma_is_no_option("--help"@, "--interval"@, 2);
        crate::args::lemma_is_no_option("--help"@, "--vwap-interval"@, 2);
        assert("--help"@ != "-o"@) by {
            assert("--help"@.len() != "-o"@.len() || "--help"@[1] != "-o"@[1]);
        }
        crate::args::lemma_is_no_option("--help"@, "--results"@, 2);
        crate::args::lemma_is_no_option("--help"@, "--ndjson"@, 2);
        assert("--help"@ != "-e"@) by {
            assert("--help"@.len() != "-e"@.len() || "--help"@[1] != "-e"@[1]);
        }
        crate::args::lemma_is_no_option("--help"@, "--errors"@, 2);
        crate::args::lemma_is_no_option("--help"@, "--vwap-results"@, 2);
        assert("--help"@ != "--no-log"@) by {
            assert("--help"@.len() != "--no-log"@.len() || "--help"@[2] != "--no-log"@[2]);
        }
        crate::args::common_words_are_known();
    }
    assert(word_of("-h"@) is Help) by {
        assert("-h"@ != "-i"@) by {
            assert("-h"@.len() != "-i"@.len() || "-h"@[1] != "-i"@[1]);
        }
        crate::args::lemma_is_no_option("-h"@, "--interval"@, 1);
        crate::args::lemma_is_no_option("-h"@, "--vwap-interval"@, 1);
        assert("-h"@ != "-o"@) by {
            assert("-h"@.len() != "-o"@.len() || "-h"@[1] != "-o"@[1]);
        }
        crate::args::lemma_is_no_option("-h"@, "--results"@, 1);
        crate::args::lemma_is_no_option("-h"@, "--ndjson"@, 1);
        assert("-h"@ != "-e"@) by {
            assert("-h"@.len() != "-e"@.len() || "-h"@[1] != "-e"@[1]);
        }
        crate::args::lemma_is_no_option("-h"@, "--errors"@, 1);
        crate::args::lemma_is_no_option("-h"@, "--vwap-results"@, 1);
        assert("-h"@ != "--no-log"@) by {
            assert("-h"@.len() != "--no-log"@.len() || "-h"@[2] != "--no-log"@[2]);
        }
        crate::args::common_words_are_known();
    }
}


/// A command line is read from left to right. Every option sets its setting to
/// the value behind it and leaves the others as they were; one without a value,
/// or with one that is no number where there must be one, is refused; and who
/// asks for help gets it.
#[verifier::rlimit(60)]
pub proof fn options_set_their_settings(
    args: Seq<Seq<char>>,
    i: int,
    cfg: Settings,
    v: Seq<char>,
)
    requires
        0 <= i < args.len(),
    ensures
        args[i] == "--interval"@ && i + 1 == args.len() ==> parse_from(args, i, cfg) == Outcome::Refused(
            ArgFault { message: "--interval requires a value in milliseconds"@, cause: None },
        ),
        args[i] == "--interval"@ && i + 1 < args.len() && crate::text::parsed_u64(args[i + 1]) is Ok && crate::text::parsed_u64(args[i + 1])->Ok_0 > 0
            ==> parse_from(args, i, cfg) == parse_from(
            args,
            i + 2,
            Settings { interval_ms: Some(crate::text::parsed_u64(args[i + 1])->Ok_0), ..cfg },
        ),
        args[i] == "--interval"@ && i + 1 < args.len() && !(crate::text::parsed_u64(args[i + 1]) is Ok && crate::text::parsed_u64(args[i + 1])->Ok_0 > 0)
            ==> parse_from(args, i, cfg) is Refused,
        args[i] == "--interval="@ + v && !crate::text::starts_with(v, "--interval="@) && crate::text::parsed_u64(
            v,
        ) is Ok && crate::text::parsed_u64(v)->Ok_0 > 0 ==> parse_from(args, i, cfg) == parse_from(
            args,
            i + 1,
            Settings { interval_ms: Some(crate::text::parsed_u64(v)->Ok_0), ..cfg },
        ),
        args[i] == "--interval="@ + v && !crate::text::starts_with(v, "--interval="@) && !(crate::text::parsed_u64(
            v,
        ) is Ok && crate::text::parsed_u64(v)->Ok_0 > 0) ==> parse_from(args, i, cfg) is Refused,
        args[i] == "-i"@ && i + 1 == args.len() ==> parse_from(args, i, cfg) == Outcome::Refused(
            ArgFault { message: "--interval requires a value in milliseconds"@, cause: None },
        ),
        args[i] == "-i"@ && i + 1 < args.len() && crate::text::parsed_u64(args[i + 1]) is Ok && crate::text::parsed_u64(args[i + 1])->Ok_0 > 0
            ==> parse_from(args, i, cfg) == parse_from(
            args,
            i + 2,
            Settings { interval_ms: Some(crate::text::parsed_u64(args[i + 1])->Ok_0), ..cfg },
        ),
        args[i] == "-i"@ && i + 1 < args.len() && !(crate::text::parsed_u64(args[i + 1]) is Ok && crate::text::parsed_u64(args[i + 1])->Ok_0 > 0)
            ==> parse_from(args, i, cfg) is Refused,
        args[i] == "--vwap-interval"@ && i + 1 == args.len() ==> parse_from(args, i, cfg) == Outcome::Refused(
            ArgFault { message: "--vwap-interval requires a value in milliseconds"@, cause: None },
        ),
        args[i] == "--vwap-interval"@ && i + 1 < args.len() && crate::text::parsed_u64(args[i + 1]) is Ok && crate::text::parsed_u64(args[i + 1])->Ok_0 > 0
            ==> parse_from(args, i, cfg) == parse_from(
            args,
            i + 2,
            Settings { vwap_interval_ms: crate::text::parsed_u64(args[i + 1])->Ok_0, ..cfg },
        ),
        args[i] == "--vwap-interval"@ && i + 1 < args.len() && !(crate::text::parsed_u64(args[i + 1]) is Ok && crate::text::parsed_u64(args[i + 1])->Ok_0 > 0)
            ==> parse_from(args, i, cfg) is Refused,
        args[i] == "--vwap-interval="@ + v && !crate::text::starts_with(v, "--vwap-interval="@) && crate::text::parsed_u64(
            v,
        ) is Ok && crate::text::parsed_u64(v)->Ok_0 > 0 ==> parse_from(args, i, cfg) == parse_from(
            args,
            i + 1,
            Settings { vwap_interval_ms: crate::text::parsed_u64(v)->Ok_0, ..cfg },
        ),
        args[i] == "--vwap-interval="@ + v && !crate::text::starts_with(v, "--vwap-interval="@) && !(crate::text::parsed_u64(
            v,
        ) is Ok && crate::text::parsed_u64(v)->Ok_0 > 0) ==> parse_from(args, i, cfg) is Refused,
        args[i] == "--results"@ ==> parse_from(args, i, cfg) == if i + 1 < args.len() {
            parse_from(args, i + 2, Settings { results_path: Some(args[i + 1]), ..cfg })
        } else {
            Outcome::Refused(ArgFault { message: "--results requires a file path"@, cause: None })
        },
        args[i] == "--results="@ + v && !crate::text::starts_with(v, "--results="@) ==> parse_from(args, i, cfg)
            == parse_from(args, i + 1, Settings { results_path: Some(v), ..cfg }),
        args[i] == "-o"@ ==> parse_from(args, i, cfg) == if i + 1 < args.len() {
            parse_from(args, i + 2, Settings { results_path: Some(args[i + 1]), ..cfg })
        } else {
            Outcome::Refused(ArgFault { message: "--results requires a file path"@, cause: None })
        },
        args[i] == "--ndjson"@ ==> parse_from(args, i, cfg) == if i + 1 < args.len() {
            parse_from(args, i + 2, Settings { results_path: Some(args[i + 1]), ..cfg })
        } else {
            Outcome::Refused(ArgFault { message: "--results requires a file path"@, cause: None })
        },
        args[i] == "--ndjson="@ + v && !crate::text::starts_with(v, "--ndjson="@) ==> parse_from(args, i, cfg)
            == parse_from(args, i + 1, Settings { results_path: Some(v), ..cfg }),
        args[i] == "--errors"@ ==> parse_from(args, i, cfg) == if i + 1 < args.len() {
            parse_from(args, i + 2, Settings { errors_path: Some(args[i + 1]), ..cfg })
        } else {
            Outcome::Refused(ArgFault { message: "--errors requires a file path"@, cause: None })
        },
        args[i] == "--errors="@ + v && !crate::text::starts_with(v, "--errors="@) ==> parse_from(args, i, cfg)
            == parse_from(args, i + 1, Settings { errors_path: Some(v), ..cfg }),
        args[i] == "-e"@ ==> parse_from(args, i, cfg) == if i + 1 < args.len() {
            parse_from(args, i + 2, Settings { errors_path: Some(args[i + 1]), ..cfg })
        } else {
            Outcome::Refused(ArgFault { message: "--errors requires a file path"@, cause: None })
        },
        args[i] == "--vwap-results"@ ==> parse_from(args, i, cfg) == if i + 1 < args.len() {
            parse_from(args, i + 2, Settings { vwap_path: Some(args[i + 1]), ..cfg })
        } else {
            Outcome::Refused(ArgFault { message: "--vwap-results requires a file path"@, cause: None })
        },
        args[i] == "--vwap-results="@ + v && !crate::text::starts_with(v, "--vwap-results="@) ==> parse_from(args, i, cfg)
            == parse_from(args, i + 1, Settings { vwap_path: Some(v), ..cfg }),
        args[i] == "--no-log"@ ==> parse_from(args, i, cfg) == parse_from(
            args,
            i + 1,
            Settings { no_log: true, ..cfg },
        ),
        args[i] == "--quiet"@ ==> parse_from(args, i, cfg) == parse_from(
            args,
            i + 1,
            Settings { quiet: true, ..cfg },
        ),
        args[i] == "-q"@ ==> parse_from(args, i, cfg) == parse_from(
            args,
            i + 1,
            Settings { quiet: true, ..cfg },
        ),
        args[i] == "--help"@ ==> parse_from(args, i, cfg) is Help,
        args[i] == "-h"@ ==> parse_from(args, i, cfg) is Help,
{
    options_are_known(v);
}


/// With nothing left to read, a command line runs with what it has set, unless it
/// both names a log and switches logs off.
pub proof fn read_command_lines_run(args: Seq<Seq<char>>, cfg: Settings)
    ensures
        ({
            let off = cfg.no_log && (cfg.results_path is Some || cfg.errors_path is Some
                || cfg.vwap_path is Some);
            &&& off <==> parse_from(args, args.len() as int, cfg) is Refused
            &&& !off ==> parse_from(args, args.len() as int, cfg) == Outcome::Run(cfg)
        }),
{
}


/// An argument that is no option is refused, and named.
pub proof fn other_arguments_are_refused(args: Seq<Seq<char>>, i: int, cfg: Settings)
    requires
        0 <= i < args.len(),
        args[i] != "--interval"@,
        !crate::text::starts_with(args[i], "--interval"@ + "="@),
        args[i] != "--vwap-interval"@,
        !crate::text::starts_with(args[i], "--vwap-interval"@ + "="@),
        args[i] != "--results"@,
        !crate::text::starts_with(args[i], "--results"@ + "="@),
        args[i] != "--ndjson"@,
        !crate::text::starts_with(args[i], "--ndjson"@ + "="@),
        args[i] != "--errors"@,
        !crate::text::starts_with(args[i], "--errors"@ + "="@),
        args[i] != "--vwap-results"@,
        !crate::text::starts_with(args[i], "--vwap-results"@ + "="@),
        args[i] != "-i"@,
        args[i] != "-o"@,
        args[i] != "-e"@,
        args[i] != "--no-log"@,
        args[i] != "--quiet"@,
        args[i] != "-q"@,
        args[i] != "--help"@,
        args[i] != "-h"@,
    ensures
        parse_from(args, i, cfg) == Outcome::Refused(
            ArgFault { message: "unknown argument: "@ + args[i], cause: None },
        ),
{
}

} // verus!
