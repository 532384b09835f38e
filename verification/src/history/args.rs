//! The command line of the historical backfill.

use vstd::prelude::*;

use crate::args::{
    given_number, given_text, match_named, match_option, read_common_word, refuse_unknown, ArgError,
    ArgFault, Choice, Given, GivenText, Word, WordText,
};

verus! {

/// Seconds in the year that is fetched unless the command line says otherwise.
pub const YEAR: u64 = 31_536_000;

/// What the command line asks for.
pub struct Config {
    /// Start of the window, in Unix seconds.
    pub from: u64,
    /// End of the window, exclusive.
    pub to: u64,
    /// Path of the results log.
    pub results_path: String,
    /// Path of the volume log.
    pub vwap_path: String,
    /// Path of the error log.
    pub errors_path: String,
    /// Say nothing along the way.
    pub quiet: bool,
}

/// A `Config` with its texts as sequences of characters.
#[verifier::ext_equal]
pub struct Settings {
    pub from: u64,
    pub to: u64,
    pub results_path: Seq<char>,
    pub vwap_path: Seq<char>,
    pub errors_path: Seq<char>,
    pub quiet: bool,
}

impl View for Config {
    type V = Settings;

    open spec fn view(&self) -> Settings {
        Settings {
            from: self.from,
            to: self.to,
            results_path: self.results_path@,
            vwap_path: self.vwap_path@,
            errors_path: self.errors_path@,
            quiet: self.quiet,
        }
    }
}

/// What a command line that is not refused asks for.
pub enum Command {
    /// To explain the options.
    Help,
    /// To fetch.
    Run(Config),
}

/// What becomes of a command line.
pub enum Outcome {
    Help,
    Run(Settings),
    Refused(ArgFault),
}

pub open spec fn outcome(r: Result<Command, ArgError>) -> Outcome {
    match r {
        Ok(Command::Help) => Outcome::Help,
        Ok(Command::Run(cfg)) => Outcome::Run(cfg@),
        Err(e) => Outcome::Refused(e@),
    }
}

/// The settings where the command line says nothing, at the time `now`: the
/// year up to then.
pub open spec fn default_settings(now: u64) -> Settings {
    Settings {
        from: if now >= YEAR {
            (now - YEAR) as u64
        } else {
            0
        },
        to: now,
        results_path: "results_historical.ndjson"@,
        vwap_path: "vwap_historical.ndjson"@,
        errors_path: "errors_historical.ndjson"@,
        quiet: false,
    }
}

/// What an argument says where an option is due.
pub open spec fn word_of(arg: Seq<char>) -> WordText {
    if let Some(g) = crate::args::option_given(arg, "--from"@) {
        WordText::Valued(Choice::From, g)
    } else if let Some(g) = crate::args::option_given(arg, "--to"@) {
        WordText::Valued(Choice::To, g)
    } else if let Some(g) = crate::args::named(arg, "--results"@, "-o"@) {
        WordText::Valued(Choice::Results, g)
    } else if let Some(g) = crate::args::option_given(arg, "--vwap-results"@) {
        WordText::Valued(Choice::VwapResults, g)
    } else if let Some(g) = crate::args::named(arg, "--errors"@, "-e"@) {
        WordText::Valued(Choice::Errors, g)
    } else {
        crate::args::common_word(arg)
    }
}

fn read_word(arg: &str) -> (r: Word)
    ensures
        r@ == word_of(arg@),
{
    if let Some(g) = match_option(arg, "--from") {
        return Word::Valued(Choice::From, g);
    }
    if let Some(g) = match_option(arg, "--to") {
        return Word::Valued(Choice::To, g);
    }
    if let Some(g) = match_named(arg, "--results", "-o") {
        return Word::Valued(Choice::Results, g);
    }
    if let Some(g) = match_option(arg, "--vwap-results") {
        return Word::Valued(Choice::VwapResults, g);
    }
    if let Some(g) = match_named(arg, "--errors", "-e") {
        return Word::Valued(Choice::Errors, g);
    }
    read_common_word(arg)
}

impl Settings {
    /// The settings with the option `choice` at `i` applied, or why it is
    /// refused.
    pub open spec fn with(
        self,
        args: Seq<Seq<char>>,
        i: int,
        choice: Choice,
        given: GivenText,
    ) -> Result<Settings, ArgFault> {
        match choice {
            Choice::From => match crate::args::number_given(args, i, given, "--from"@) {
                Ok(n) => Ok(Settings { from: n, ..self }),
                Err(e) => Err(e),
            },
            Choice::To => match crate::args::number_given(args, i, given, "--to"@) {
                Ok(n) => Ok(Settings { to: n, ..self }),
                Err(e) => Err(e),
            },
            Choice::Results => match crate::args::text_given(args, i, given, "--results"@) {
                Ok(s) => Ok(Settings { results_path: s, ..self }),
                Err(e) => Err(e),
            },
            Choice::VwapResults => match crate::args::text_given(args, i, given, "--vwap-results"@) {
                Ok(s) => Ok(Settings { vwap_path: s, ..self }),
                Err(e) => Err(e),
            },
            _ => match crate::args::text_given(args, i, given, "--errors"@) {
                Ok(s) => Ok(Settings { errors_path: s, ..self }),
                Err(e) => Err(e),
            },
        }
    }

    /// Whether the window is empty.
    pub open spec fn is_empty_window(self) -> bool {
        self.to <= self.from
    }
}

/// What becomes of the arguments from `i` on, where those before have led to
/// the settings `cfg`.
pub open spec fn parse_from(args: Seq<Seq<char>>, i: int, cfg: Settings) -> Outcome
    decreases args.len() - i,
{
    if i >= args.len() {
        if cfg.is_empty_window() {
            Outcome::Refused(
                ArgFault { message: "--to must be greater than --from"@, cause: None },
            )
        } else {
            Outcome::Run(cfg)
        }
    } else {
        match word_of(args[i]) {
            WordText::Valued(choice, given) => match cfg.with(args, i, choice, given) {
                Err(e) => Outcome::Refused(e),
                Ok(next) => parse_from(args, i + crate::args::width(given), next),
            },
            WordText::Quiet => parse_from(args, i + 1, Settings { quiet: true, ..cfg }),
            WordText::Help => Outcome::Help,
            _ => Outcome::Refused(crate::args::unknown_argument(args[i])),
        }
    }
}

fn set(cfg: Config, args: &Vec<String>, i: usize, choice: Choice, given: &Given) -> (r: Result<
    Config,
    ArgError,
>)
    requires
        i < args.len(),
    ensures
        match r {
            Ok(next) => cfg@.with(crate::args::texts(args@), i as int, choice, given@) == Ok::<
                Settings,
                ArgFault,
            >(next@),
            Err(e) => cfg@.with(crate::args::texts(args@), i as int, choice, given@) == Err::<
                Settings,
                ArgFault,
            >(e@),
        },
{
    let mut next = cfg;
    match choice {
        Choice::From => match given_number(args, i, given, "--from") {
            Ok(n) => {
                next.from = n;
            },
            Err(e) => {
                return Err(e);
            },
        },
        Choice::To => match given_number(args, i, given, "--to") {
            Ok(n) => {
                next.to = n;
            },
            Err(e) => {
                return Err(e);
            },
        },
        Choice::Results => match given_text(args, i, given, "--results") {
            Ok(s) => {
                next.results_path = s;
            },
            Err(e) => {
                return Err(e);
            },
        },
        Choice::VwapResults => match given_text(args, i, given, "--vwap-results") {
            Ok(s) => {
                next.vwap_path = s;
            },
            Err(e) => {
                return Err(e);
            },
        },
        _ => match given_text(args, i, given, "--errors") {
            Ok(s) => {
                next.errors_path = s;
            },
            Err(e) => {
                return Err(e);
            },
        },
    }
    Ok(next)
}

/// Reads the command line at the time `now`.
pub fn parse_args(args: &Vec<String>, now: u64) -> (r: Result<Command, ArgError>)
    ensures
        outcome(r) == parse_from(crate::args::texts(args@), 0, default_settings(now)),
{
    let mut cfg = Config {
        from: now.saturating_sub(YEAR),
        to: now,
        results_path: "results_historical.ndjson".to_owned(),
        vwap_path: "vwap_historical.ndjson".to_owned(),
        errors_path: "errors_historical.ndjson".to_owned(),
        quiet: false,
    };
    let ghost all = crate::args::texts(args@);
    let mut i: usize = 0;
    while i < args.len()
        invariant
            i <= args.len(),
            all == crate::args::texts(args@),
            parse_from(all, 0, default_settings(now)) == parse_from(all, i as int, cfg@),
        decreases args.len() - i,
    {
        match read_word(args[i].as_str()) {
            Word::Valued(choice, given) => match set(cfg, args, i, choice, &given) {
                Ok(next) => {
                    cfg = next;
                    i = match given {
                        Given::Next => i + 2,
                        Given::Inline(_) => i + 1,
                    };
                },
                Err(e) => {
                    return Err(e);
                },
            },
            Word::Quiet => {
                cfg.quiet = true;
                i = i + 1;
            },
            Word::Help => {
                return Ok(Command::Help);
            },
            _ => {
                return Err(refuse_unknown(args[i].as_str()));
            },
        }
    }
    if cfg.to <= cfg.from {
        return Err(
            ArgError { message: "--to must be greater than --from".to_owned(), cause: None },
        );
    }
    Ok(Command::Run(cfg))
}

proof fn lemma_window_from(args: Seq<Seq<char>>, i: int, cfg: Settings)
    ensures
        parse_from(args, i, cfg) matches Outcome::Run(s) ==> !s.is_empty_window(),
    decreases args.len() - i,
{
    if i < args.len() {
        match word_of(args[i]) {
            WordText::Valued(choice, given) => {
                if let Ok(next) = cfg.with(args, i, choice, given) {
                    lemma_window_from(args, i + crate::args::width(given), next);
                }
            },
            WordText::Quiet => {
                lemma_window_from(args, i + 1, Settings { quiet: true, ..cfg });
            },
            _ => {},
        }
    }
}

/// A command line that is not refused does not ask for an empty window.
pub proof fn accepted_window_is_not_empty(args: Seq<Seq<char>>, now: u64)
    ensures
        parse_from(args, 0, default_settings(now)) matches Outcome::Run(s) ==> !s.is_empty_window(),
{
    lemma_window_from(args, 0, default_settings(now));
}


/// Every option is known by its name, with its value in the next argument or
/// behind an equals sign; and by its short name, where it has one.
#[verifier::rlimit(60)]
pub proof fn options_are_known(v: Seq<char>)
    ensures
        word_of("--from"@) == WordText::Valued(Choice::From, GivenText::Next),
        !crate::text::starts_with(v, "--from="@) ==> word_of("--from="@ + v) == WordText::Valued(
            Choice::From,
            GivenText::Inline(v),
        ),
        word_of("--to"@) == WordText::Valued(Choice::To, GivenText::Next),
        !crate::text::starts_with(v, "--to="@) ==> word_of("--to="@ + v) == WordText::Valued(
            Choice::To,
            GivenText::Inline(v),
        ),
        word_of("--results"@) == WordText::Valued(Choice::Results, GivenText::Next),
        !crate::text::starts_with(v, "--results="@) ==> word_of("--results="@ + v) == WordText::Valued(
            Choice::Results,
            GivenText::Inline(v),
        ),
        word_of("-o"@) == WordText::Valued(Choice::Results, GivenText::Next),
        word_of("--vwap-results"@) == WordText::Valued(Choice::VwapResults, GivenText::Next),
        !crate::text::starts_with(v, "--vwap-results="@) ==> word_of("--vwap-results="@ + v) == WordText::Valued(
            Choice::VwapResults,
            GivenText::Inline(v),
        ),
        word_of("--errors"@) == WordText::Valued(Choice::Errors, GivenText::Next),
        !crate::text::starts_with(v, "--errors="@) ==> word_of("--errors="@ + v) == WordText::Valued(
            Choice::Errors,
            GivenText::Inline(v),
        ),
        word_of("-e"@) == WordText::Valued(Choice::Errors, GivenText::Next),
        word_of("--quiet"@) is Quiet,
        word_of("-q"@) is Quiet,
        word_of("--help"@) is Help,
        word_of("-h"@) is Help,
{
    reveal_strlit("--from");
    reveal_strlit("--to");
    reveal_strlit("--results");
    reveal_strlit("-o");
    reveal_strlit("--vwap-results");
    reveal_strlit("--errors");
    reveal_strlit("-e");
    reveal_strlit("--quiet");
    reveal_strlit("-q");
    reveal_strlit("--help");
    reveal_strlit("-h");
    reveal_strlit("=");
    reveal_strlit("--from=");
    assert("--from="@ =~= "--from"@ + "="@);
    reveal_strlit("--to=");
    assert("--to="@ =~= "--to"@ + "="@);
    reveal_strlit("--results=");
    assert("--results="@ =~= "--results"@ + "="@);
    reveal_strlit("--vwap-results=");
    assert("--vwap-results="@ =~= "--vwap-results"@ + "="@);
    reveal_strlit("--errors=");
    assert("--errors="@ =~= "--errors"@ + "="@);
    assert(word_of("--from"@) == WordText::Valued(Choice::From, GivenText::Next)) by {
        crate::args::lemma_is_option("--from"@, v);
    }
    if !crate::text::starts_with(v, "--from="@) {
        let arg = "--from="@ + v;
        crate::args::lemma_is_option("--from"@, v);
        assert(word_of(arg) == WordText::Valued(Choice::From, GivenText::Inline(v)));
    }
    assert(word_of("--to"@) == WordText::Valued(Choice::To, GivenText::Next)) by {
        crate::args::lemma_is_no_option("--to"@, "--from"@, 2);
        crate::args::lemma_is_option("--to"@, v);
    }
    if !crate::text::starts_with(v, "--to="@) {
        let arg = "--to="@ + v;
        crate::args::lemma_is_no_option(arg, "--from"@, 2);
        crate::args::lemma_is_option("--to"@, v);
        assert(word_of(arg) == WordText::Valued(Choice::To, GivenText::Inline(v)));
    }
    assert(word_of("--results"@) == WordText::Valued(Choice::Results, GivenText::Next)) by {
        crate::args::lemma_is_no_option("--results"@, "--from"@, 2);
        crate::args::lemma_is_no_option("--results"@, "--to"@, 2);
        assert("--results"@ != "-o"@) by {
            assert("--results"@.len() != "-o"@.len());
        }
        crate::args::lemma_is_option("--results"@, v);
    }
    if !crate::text::starts_with(v, "--results="@) {
        let arg = "--results="@ + v;
        crate::args::lemma_is_no_option(arg, "--from"@, 2);
        crate::args::lemma_is_no_option(arg, "--to"@, 2);
        assert(arg != "-o"@) by {
            assert(arg.len() != "-o"@.len());
        }
        crate::args::lemma_is_option("--results"@, v);
        assert(word_of(arg) == WordText::Valued(Choice::Results, GivenText::Inline(v)));
    }
    assert(word_of("-o"@) == WordText::Valued(Choice::Results, GivenText::Next)) by {
        crate::args::lemma_is_no_option("-o"@, "--from"@, 1);
        crate::args::lemma_is_no_option("-o"@, "--to"@, 1);
    }
    assert(word_of("--vwap-results"@) == WordText::Valued(Choice::VwapResults, GivenText::Next)) by {
        crate::args::lemma_is_no_option("--vwap-results"@, "--from"@, 2);
        crate::args::lemma_is_no_option("--vwap-results"@, "--to"@, 2);
        assert("--vwap-results"@ != "-o"@) by {
            assert("--vwap-results"@.len() != "-o"@.len() || "--vwap-results"@[1] != "-o"@[1]);
        }
        crate::args::lemma_is_no_option("--vwap-results"@, "--results"@, 2);
        crate::args::lemma_is_option("--vwap-results"@, v);
    }
    if !crate::text::starts_with(v, "--vwap-results="@) {
        let arg = "--vwap-results="@ + v;
        crate::args::lemma_is_no_option(arg, "--from"@, 2);
        crate::args::lemma_is_no_option(arg, "--to"@, 2);
        assert(arg != "-o"@) by {
            assert(arg.len() != "-o"@.len() || arg[1] != "-o"@[1]);
        }
        crate::args::lemma_is_no_option(arg, "--results"@, 2);
        crate::args::lemma_is_option("--vwap-results"@, v);
        assert(word_of(arg) == WordText::Valued(Choice::VwapResults, GivenText::Inline(v)));
    }
    assert(word_of("--errors"@) == WordText::Valued(Choice::Errors, GivenText::Next)) by {
        crate::args::lemma_is_no_option("--errors"@, "--from"@, 2);
        crate::args::lemma_is_no_option("--errors"@, "--to"@, 2);
        assert("--errors"@ != "-o"@) by {
            assert("--errors"@.len() != "-o"@.len() || "--errors"@[1] != "-o"@[1]);
        }
        crate::args::lemma_is_no_option("--errors"@, "--results"@, 2);
        crate::args::lemma_is_no_option("--errors"@, "--vwap-results"@, 2);
        assert("--errors"@ != "-e"@) by {
            assert("--errors"@.len() != "-e"@.len());
        }
        crate::args::lemma_is_option("--errors"@, v);
    }
    if !crate::text::starts_with(v, "--errors="@) {
        let arg = "--errors="@ + v;
        crate::args::lemma_is_no_option(arg, "--from"@, 2);
        crate::args::lemma_is_no_option(arg, "--to"@, 2);
        assert(arg != "-o"@) by {
            assert(arg.len() != "-o"@.len() || arg[1] != "-o"@[1]);
        }
        crate::args::lemma_is_no_option(arg, "--results"@, 2);
        crate::args::lemma_is_no_option(arg, "--vwap-results"@, 2);
        assert(arg != "-e"@) by {
            assert(arg.len() != "-e"@.len());
        }
        crate::args::lemma_is_option("--errors"@, v);
        assert(word_of(arg) == WordText::Valued(Choice::Errors, GivenText::Inline(v)));
    }
    assert(word_of("-e"@) == WordText::Valued(Choice::Errors, GivenText::Next)) by {
        crate::args::lemma_is_no_option("-e"@, "--from"@, 1);
        crate::args::lemma_is_no_option("-e"@, "--to"@, 1);
        assert("-e"@ != "-o"@) by {
            assert("-e"@.len() != "-o"@.len() || "-e"@[1] != "-o"@[1]);
        }
        crate::args::lemma_is_no_option("-e"@, "--results"@, 1);
        crate::args::lemma_is_no_option("-e"@, "--vwap-results"@, 1);
    }
    assert(word_of("--quiet"@) is Quiet) by {
        crate::args::lemma_is_no_option("--quiet"@, "--from"@, 2);
        crate::args::lemma_is_no_option("--quiet"@, "--to"@, 2);
        assert("--quiet"@ != "-o"@) by {
            assert("--quiet"@.len() != "-o"@.len() || "--quiet"@[1] != "-o"@[1]);
        }
        crate::args::lemma_is_no_option("--quiet"@, "--results"@, 2);
        crate::args::lemma_is_no_option("--quiet"@, "--vwap-results"@, 2);
        assert("--quiet"@ != "-e"@) by {
            assert("--quiet"@.len() != "-e"@.len() || "--quiet"@[1] != "-e"@[1]);
        }
        crate::args::lemma_is_no_option("--quiet"@, "--errors"@, 2);
        crate::args::common_words_are_known();
    }
    assert(word_of("-q"@) is Quiet) by {
        crate::args::lemma_is_no_option("-q"@, "--from"@, 1);
        crate::args::lemma_is_no_option("-q"@, "--to"@, 1);
        assert("-q"@ != "-o"@) by {
            assert("-q"@.len() != "-o"@.len() || "-q"@[1] != "-o"@[1]);
        }
        crate::args::lemma_is_no_option("-q"@, "--results"@, 1);
        crate::args::lemma_is_no_option("-q"@, "--vwap-results"@, 1);
        assert("-q"@ != "-e"@) by {
            assert("-q"@.len() != "-e"@.len() || "-q"@[1] != "-e"@[1]);
        }
        crate::args::lemma_is_no_option("-q"@, "--errors"@, 1);
        crate::args::common_words_are_known();
    }
    assert(word_of("--help"@) is Help) by {
        crate::args::lemma_is_no_option("--help"@, "--from"@, 2);
        crate::args::lemma_is_no_option("--help"@, "--to"@, 2);
        assert("--help"@ != "-o"@) by {
            assert("--help"@.len() != "-o"@.len() || "--help"@[1] != "-o"@[1]);
        }
        crate::args::lemma_is_no_option("--help"@, "--results"@, 2);
        crate::args::lemma_is_no_option("--help"@, "--vwap-results"@, 2);
        assert("--help"@ != "-e"@) by {
            assert("--help"@.len() != "-e"@.len() || "--help"@[1] != "-e"@[1]);
        }
        crate::args::lemma_is_no_option("--help"@, "--errors"@, 2);
        crate::args::common_words_are_known();
    }
    assert(word_of("-h"@) is Help) by {
        crate::args::lemma_is_no_option("-h"@, "--from"@, 1);
        crate::args::lemma_is_no_option("-h"@, "--to"@, 1);
        assert("-h"@ != "-o"@) by {
            assert("-h"@.len() != "-o"@.len() || "-h"@[1] != "-o"@[1]);
        }
        crate::args::lemma_is_no_option("-h"@, "--results"@, 1);
        crate::args::lemma_is_no_option("-h"@, "--vwap-results"@, 1);
        assert("-h"@ != "-e"@) by {
            assert("-h"@.len() != "-e"@.len() || "-h"@[1] != "-e"@[1]);
        }
        crate::args::lemma_is_no_option("-h"@, "--errors"@, 1);
        crate::args::common_words_are_known();
    }
}


/// A command line is read from left to right. Every option sets its setting to
/// the value behind it and leaves the others as they were; one without a value,
/// or with one that is no number where there must be one, is refused; and who
/// asks for help gets it.
#[verifier::rlimit(60)]
pub proof fn options_set_their_settings(
    args: Seq<Seq<char>>,
    i: int,
    cfg: Settings,
    v: Seq<char>,
)
    requires
        0 <= i < args.len(),
    ensures
        args[i] == "--from"@ && i + 1 == args.len() ==> parse_from(args, i, cfg) == Outcome::Refused(
            ArgFault { message: "--from requires a value"@, cause: None },
        ),
        args[i] == "--from"@ && i + 1 < args.len() && crate::text::parsed_u64(args[i + 1]) is Ok
            ==> parse_from(args, i, cfg) == parse_from(
            args,
            i + 2,
            Settings { from: crate::text::parsed_u64(args[i + 1])->Ok_0, ..cfg },
        ),
        args[i] == "--from"@ && i + 1 < args.len() && !(crate::text::parsed_u64(args[i + 1]) is Ok)
            ==> parse_from(args, i, cfg) is Refused,
        args[i] == "--from="@ + v && !crate::text::starts_with(v, "--from="@) && crate::text::parsed_u64(
            v,
        ) is Ok ==> parse_from(args, i, cfg) == parse_from(
            args,
            i + 1,
            Settings { from: crate::text::parsed_u64(v)->Ok_0, ..cfg },
        ),
        args[i] == "--from="@ + v && !crate::text::starts_with(v, "--from="@) && !(crate::text::parsed_u64(
            v,
        ) is Ok) ==> parse_from(args, i, cfg) is Refused,
        args[i] == "--to"@ && i + 1 == args.len() ==> parse_from(args, i, cfg) == Outcome::Refused(
            ArgFault { message: "--to requires a value"@, cause: None },
        ),
        args[i] == "--to"@ && i + 1 < args.len() && crate::text::parsed_u64(args[i + 1]) is Ok
            ==> parse_from(args, i, cfg) == parse_from(
            args,
            i + 2,
            Settings { to: crate::text::parsed_u64(args[i + 1])->Ok_0, ..cfg },
        ),
        args[i] == "--to"@ && i + 1 < args.len() && !(crate::text::parsed_u64(args[i + 1]) is Ok)
            ==> parse_from(args, i, cfg) is Refused,
        args[i] == "--to="@ + v && !crate::text::starts_with(v, "--to="@) && crate::text::parsed_u64(
            v,
        ) is Ok ==> parse_from(args, i, cfg) == parse_from(
            args,
            i + 1,
            Settings { to: crate::text::parsed_u64(v)->Ok_0, ..cfg },
        ),
        args[i] == "--to="@ + v && !crate::text::starts_with(v, "--to="@) && !(crate::text::parsed_u64(
            v,
        ) is Ok) ==> parse_from(args, i, cfg) is Refused,
        args[i] == "--results"@ ==> parse_from(args, i, cfg) == if i + 1 < args.len() {
            parse_from(args, i + 2, Settings { results_path: args[i + 1], ..cfg })
        } else {
            Outcome::Refused(ArgFault { message: "--results requires a value"@, cause: None })
        },
        args[i] == "--results="@ + v && !crate::text::starts_with(v, "--results="@) ==> parse_from(args, i, cfg)
            == parse_from(args, i + 1, Settings { results_path: v, ..cfg }),
        args[i] == "-o"@ ==> parse_from(args, i, cfg) == if i + 1 < args.len() {
            parse_from(args, i + 2, Settings { results_path: args[i + 1], ..cfg })
        } else {
            Outcome::Refused(ArgFault { message: "--results requires a value"@, cause: None })
        },
        args[i] == "--vwap-results"@ ==> parse_from(args, i, cfg) == if i + 1 < args.len() {
            parse_from(args, i + 2, Settings { vwap_path: args[i + 1], ..cfg })
        } else {
            Outcome::Refused(ArgFault { message: "--vwap-results requires a value"@, cause: None })
        },
        args[i] == "--vwap-results="@ + v && !crate::text::starts_with(v, "--vwap-results="@) ==> parse_from(args, i, cfg)
            == parse_from(args, i + 1, Settings { vwap_path: v, ..cfg }),
        args[i] == "--errors"@ ==> parse_from(args, i, cfg) == if i + 1 < args.len() {
            parse_from(args, i + 2, Settings { errors_path: args[i + 1], ..cfg })
        } else {
            Outcome::Refused(ArgFault { message: "--errors requires a value"@, cause: None })
        },
        args[i] == "--errors="@ + v && !crate::text::starts_with(v, "--errors="@) ==> parse_from(args, i, cfg)
            == parse_from(args, i + 1, Settings { errors_path: v, ..cfg }),
        args[i] == "-e"@ ==> parse_from(args, i, cfg) == if i + 1 < args.len() {
            parse_from(args, i + 2, Settings { errors_path: args[i + 1], ..cfg })
        } else {
            Outcome::Refused(ArgFault { message: "--errors requires a value"@, cause: None })
        },
        args[i] == "--quiet"@ ==> parse_from(args, i, cfg) == parse_from(
            args,
            i + 1,
            Settings { quiet: true, ..cfg },
        ),
        args[i] == "-q"@ ==> parse_from(args, i, cfg) == parse_from(
            args,
            i + 1,
            Settings { quiet: true, ..cfg },
        ),
        args[i] == "--help"@ ==> parse_from(args, i, cfg) is Help,
        args[i] == "-h"@ ==> parse_from(args, i, cfg) is Help,
{
    options_are_known(v);
    reveal_strlit("--from");
    reveal_strlit(" requires a value");
    reveal_strlit("--from requires a value");
    assert("--from requires a value"@ =~= "--from"@ + " requires a value"@);
    reveal_strlit("--to");
    reveal_strlit(" requires a value");
    reveal_strlit("--to requires a value");
    assert("--to requires a value"@ =~= "--to"@ + " requires a value"@);
    reveal_strlit("--results");
    reveal_strlit(" requires a value");
    reveal_strlit("--results requires a value");
    assert("--results requires a value"@ =~= "--results"@ + " requires a value"@);
    reveal_strlit("--vwap-results");
    reveal_strlit(" requires a value");
    reveal_strlit("--vwap-results requires a value");
    assert("--vwap-results requires a value"@ =~= "--vwap-results"@ + " requires a value"@);
    reveal_strlit("--errors");
    reveal_strlit(" requires a value");
    reveal_strlit("--errors requires a value");
    assert("--errors requires a value"@ =~= "--errors"@ + " requires a value"@);
}


/// With nothing left to read, a command line runs with what it has set, unless
/// its window does not end after it starts.
pub proof fn read_command_lines_run(args: Seq<Seq<char>>, cfg: Settings)
    ensures
        cfg.to > cfg.from ==> parse_from(args, args.len() as int, cfg) == Outcome::Run(cfg),
        cfg.to <= cfg.from ==> parse_from(args, args.len() as int, cfg) is Refused,
{
}


/// An argument that is no option is refused, and named.
pub proof fn other_arguments_are_refused(args: Seq<Seq<char>>, i: int, cfg: Settings)
    requires
        0 <= i < args.len(),
        args[i] != "--from"@,
        !crate::text::starts_with(args[i], "--from"@ + "="@),
        args[i] != "--to"@,
        !crate::text::starts_with(args[i], "--to"@ + "="@),
        args[i] != "--results"@,
        !crate::text::starts_with(args[i], "--results"@ + "="@),
        args[i] != "--vwap-results"@,
        !crate::text::starts_with(args[i], "--vwap-results"@ + "="@),
        args[i] != "--errors"@,
        !crate::text::starts_with(args[i], "--errors"@ + "="@),
        args[i] != "-o"@,
        args[i] != "-e"@,
        args[i] != "--quiet"@,
        args[i] != "-q"@,
        args[i] != "--help"@,
        args[i] != "-h"@,
    ensures
        parse_from(args, i, cfg) == Outcome::Refused(
            ArgFault { message: "unknown argument: "@ + args[i], cause: None },
        ),
{
}

} // verus!
