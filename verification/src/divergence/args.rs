//! The command line of the divergence analysis.

use vstd::prelude::*;

use crate::args::{
    given_number, given_text, match_named, match_option, read_common_word, refuse_unknown, ArgError,
    ArgFault, Choice, Given, GivenText, Word, WordText,
};

verus! {

/// What the command line asks for.
pub struct Config {
    /// Start of the window, in Unix seconds, where it is given.
    pub from: Option<u64>,
    /// End of the window, exclusive, where it is given.
    pub to: Option<u64>,
    /// Path of the results log.
    pub results_path: String,
    /// Path of the log of episodes.
    pub occurrences_path: String,
    /// Path of the error log.
    pub errors_path: String,
    /// Path of an earlier results log to analyse in place of fetching.
    pub input: Option<String>,
    /// Say nothing along the way.
    pub quiet: bool,
}

/// A `Config` with its texts as sequences of characters.
#[verifier::ext_equal]
pub struct Settings {
    pub from: Option<u64>,
    pub to: Option<u64>,
    pub results_path: Seq<char>,
    pub occurrences_path: Seq<char>,
    pub errors_path: Seq<char>,
    pub input: Option<Seq<char>>,
    pub quiet: bool,
}

impl View for Config {
    type V = Settings;

    open spec fn view(&self) -> Settings {
        Settings {
            from: self.from,
            to: self.to,
            results_path: self.results_path@,
            occurrences_path: self.occurrences_path@,
            errors_path: self.errors_path@,
            input: crate::args::opt_text(self.input),
            quiet: self.quiet,
        }
    }
}

/// What a command line that is not refused asks for.
pub enum Command {
    /// To explain the options.
    Help,
    /// To analyse.
    Run(Config),
}

/// What becomes of a command line.
pub enum Outcome {
    Help,
    Run(Settings),
    Refused(ArgFault),
}

pub open spec fn outcome(r: Result<Command, ArgError>) -> Outcome {
    match r {
        Ok(Command::Help) => Outcome::Help,
        Ok(Command::Run(cfg)) => Outcome::Run(cfg@),
        Err(e) => Outcome::Refused(e@),
    }
}

/// The settings where the command line says nothing.
pub open spec fn default_settings() -> Settings {
    Settings {
        from: None,
        to: None,
        results_path: "divergence_1m.ndjson"@,
        occurrences_path: "divergence_occurrences.ndjson"@,
        errors_path: "errors_divergence.ndjson"@,
        input: None,
        quiet: false,
    }
}

/// What an argument says where an option is due.
pub open spec fn word_of(arg: Seq<char>) -> WordText {
    if let Some(g) = crate::args::option_given(arg, "--from"@) {
        WordText::Valued(Choice::From, g)
    } else if let Some(g) = crate::args::option_given(arg, "--to"@) {
        WordText::Valued(Choice::To, g)
    } else if let Some(g) = crate::args::named(arg, "--results"@, "-o"@) {
        WordText::Valued(Choice::Results, g)
    } else if let Some(g) = crate::args::option_given(arg, "--occurrences"@) {
        WordText::Valued(Choice::Occurrences, g)
    } else if let Some(g) = crate::args::named(arg, "--errors"@, "-e"@) {
        WordText::Valued(Choice::Errors, g)
    } else if let Some(g) = crate::args::named(arg, "--input"@, "-i"@) {
        WordText::Valued(Choice::Input, g)
    } else {
        crate::args::common_word(arg)
    }
}

fn read_word(arg: &str) -> (r: Word)
    ensures
        r@ == word_of(arg@),
{
    if let Some(g) = match_option(arg, "--from") {
        return Word::Valued(Choice::From, g);
    }
    if let Some(g) = match_option(arg, "--to") {
        return Word::Valued(Choice::To, g);
    }
    if let Some(g) = match_named(arg, "--results", "-o") {
        return Word::Valued(Choice::Results, g);
    }
    if let Some(g) = match_option(arg, "--occurrences") {
        return Word::Valued(Choice::Occurrences, g);
    }
    if let Some(g) = match_named(arg, "--errors", "-e") {
        return Word::Valued(Choice::Errors, g);
    }
    if let Some(g) = match_named(arg, "--input", "-i") {
        return Word::Valued(Choice::Input, g);
    }
    read_common_word(arg)
}

impl Settings {
    /// The settings with the option `choice` at `i` applied, or why it is
    /// refused.
    pub open spec fn with(
        self,
        args: Seq<Seq<char>>,
        i: int,
        choice: Choice,
        given: GivenText,
    ) -> Result<Settings, ArgFault> {
        match choice {
            Choice::From => match crate::args::number_given(args, i, given, "--from"@) {
                Ok(n) => Ok(Settings { from: Some(n), ..self }),
                Err(e) => Err(e),
            },
            Choice::To => match crate::args::number_given(args, i, given, "--to"@) {
                Ok(n) => Ok(Settings { to: Some(n), ..self }),
                Err(e) => Err(e),
            },
            Choice::Results => match crate::args::text_given(args, i, given, "--results"@) {
                Ok(s) => Ok(Settings { results_path: s, ..self }),
                Err(e) => Err(e),
            },
            Choice::Occurrences => match crate::args::text_given(args, i, given, "--occurrences"@) {
                Ok(s) => Ok(Settings { occurrences_path: s, ..self }),
                Err(e) => Err(e),
            },
            Choice::Errors => match crate::args::text_given(args, i, given, "--errors"@) {
                Ok(s) => Ok(Settings { errors_path: s, ..self }),
                Err(e) => Err(e),
            },
            _ => match crate::args::text_given(args, i, given, "--input"@) {
                Ok(s) => Ok(Settings { input: Some(s), ..self }),
                Err(e) => Err(e),
            },
        }
    }

    /// Whether both ends of the window are given, and it is empty.
    pub open spec fn is_empty_window(self) -> bool {
        match (self.from, self.to) {
            (Some(from), Some(to)) => to <= from,
            _ => false,
        }
    }
}

/// What becomes of the arguments from `i` on, where those before have led to
/// the settings `cfg`.
pub open spec fn parse_from(args: Seq<Seq<char>>, i: int, cfg: Settings) -> Outcome
    decreases args.len() - i,
{
    if i >= args.len() {
        if cfg.is_empty_window() {
            Outcome::Refused(
                ArgFault { message: "--to must be greater than --from"@, cause: None },
            )
        } else {
            Outcome::Run(cfg)
        }
    } else {
        match word_of(args[i]) {
            WordText::Valued(choice, given) => match cfg.with(args, i, choice, given) {
                Err(e) => Outcome::Refused(e),
                Ok(next) => parse_from(args, i + crate::args::width(given), next),
            },
            WordText::Quiet => parse_from(args, i + 1, Settings { quiet: true, ..cfg }),
            WordText::Help => Outcome::Help,
            _ => Outcome::Refused(crate::args::unknown_argument(args[i])),
        }
    }
}

fn set(cfg: Config, args: &Vec<String>, i: usize, choice: Choice, given: &Given) -> (r: Result<
    Config,
    ArgError,
>)
    requires
        i < args.len(),
    ensures
        match r {
            Ok(next) => cfg@.with(crate::args::texts(args@), i as int, choice, given@) == Ok::<
                Settings,
                ArgFault,
            >(next@),
            Err(e) => cfg@.with(crate::args::texts(args@), i as int, choice, given@) == Err::<
                Settings,
                ArgFault,
            >(e@),
        },
{
    let mut next = cfg;
    match choice {
        Choice::From => match given_number(args, i, given, "--from") {
            Ok(n) => {
                next.from = Some(n);
            },
            Err(e) => {
                return Err(e);
            },
        },
        Choice::To => match given_number(args, i, given, "--to") {
            Ok(n) => {
                next.to = Some(n);
            },
            Err(e) => {
                return Err(e);
            },
        },
        Choice::Results => match given_text(args, i, given, "--results") {
            Ok(s) => {
                next.results_path = s;
            },
            Err(e) => {
                return Err(e);
            },
        },
        Choice::Occurrences => match given_text(args, i, given, "--occurrences") {
            Ok(s) => {
                next.occurrences_path = s;
            },
            Err(e) => {
                return Err(e);
            },
        },
        Choice::Errors => match given_text(args, i, given, "--errors") {
            Ok(s) => {
                next.errors_path = s;
            },
            Err(e) => {
                return Err(e);
            },
        },
        _ => match given_text(args, i, given, "--input") {
            Ok(s) => {
                next.input = Some(s);
            },
            Err(e) => {
                return Err(e);
            },
        },
    }
    Ok(next)
}

/// Reads the command line.
pub fn parse_args(args: &Vec<String>) -> (r: Result<Command, ArgError>)
    ensures
        outcome(r) == parse_from(crate::args::texts(args@), 0, default_settings()),
{
    let mut cfg = Config {
        from: None,
        to: None,
        results_path: "divergence_1m.ndjson".to_owned(),
        occurrences_path: "divergence_occurrences.ndjson".to_owned(),
        errors_path: "errors_divergence.ndjson".to_owned(),
        input: None,
        quiet: false,
    };
    let ghost all = crate::args::texts(args@);
    let mut i: usize = 0;
    while i < args.len()
        invariant
            i <= args.len(),
            all == crate::args::texts(args@),
            parse_from(all, 0, default_settings()) == parse_from(all, i as int, cfg@),
        decreases args.len() - i,
    {
        match read_word(args[i].as_str()) {
            Word::Valued(choice, given) => match set(cfg, args, i, choice, &given) {
                Ok(next) => {
                    cfg = next;
                    i = match given {
                        Given::Next => i + 2,
                        Given::Inline(_) => i + 1,
                    };
                },
                Err(e) => {
                    return Err(e);
                },
            },
            Word::Quiet => {
                cfg.quiet = true;
                i = i + 1;
            },
            Word::Help => {
                return Ok(Command::Help);
            },
            _ => {
                return Err(refuse_unknown(args[i].as_str()));
            },
        }
    }
    if let (Some(from), Some(to)) = (cfg.from, cfg.to) {
        if to <= from {
            return Err(
                ArgError { message: "--to must be greater than --from".to_owned(), cause: None },
            );
        }
    }
    Ok(Command::Run(cfg))
}

proof fn lemma_window_from(args: Seq<Seq<char>>, i: int, cfg: Settings)
    ensures
        parse_from(args, i, cfg) matches Outcome::Run(s) ==> !s.is_empty_window(),
    decreases args.len() - i,
{
    if i < args.len() {
        match word_of(args[i]) {
            WordText::Valued(choice, given) => {
                if let Ok(next) = cfg.with(args, i, choice, given) {
                    lemma_window_from(args, i + crate::args::width(given), next);
                }
            },
            WordText::Quiet => {
                lemma_window_from(args, i + 1, Settings { quiet: true, ..cfg });
            },
            _ => {},
        }
    }
}

/// A command line that is not refused does not ask for an empty window.
pub proof fn accepted_window_is_not_empty(args: Seq<Seq<char>>)
    ensures
        parse_from(args, 0, default_settings()) matches Outcome::Run(s) ==> !s.is_empty_window(),
{
    lemma_window_from(args, 0, default_settings());
}


/// Every option is known by its name, with its value in the next argument or
/// behind an equals sign; and by its short name, where it has one.
#[verifier::rlimit(60)]
pub proof fn options_are_known(v: Seq<char>)
    ensures
        word_of("--from"@) == WordText::Valued(Choice::From, GivenText::Next),
        !crate::text::starts_with(v, "--from="@) ==> word_of("--from="@ + v) == WordText::Valued(
            Choice::From,
            GivenText::Inline(v),
        ),
        word_of("--to"@) == WordText::Valued(Choice::To, GivenText::Next),
        !crate::text::starts_with(v, "--to="@) ==> word_of("--to="@ + v) == WordText::Valued(
            Choice::To,
            GivenText::Inline(v),
        ),
        word_of("--results"@) == WordText::Valued(Choice::Results, GivenText::Next),
        !crate::text::starts_with(v, "--results="@) ==> word_of("--results="@ + v) == WordText::Valued(
            Choice::Results,
            GivenText::Inline(v),
        ),
        word_of("-o"@) == WordText::Valued(Choice::Results, GivenText::Next),
        word_of("--occurrences"@) == WordText::Valued(Choice::Occurrences, GivenText::Next),
        !crate::text::starts_with(v, "--occurrences="@) ==> word_of("--occurrences="@ + v) == WordText::Valued(
            Choice::Occurrences,
            GivenText::Inline(v),
        ),
        word_of("--errors"@) == WordText::Valued(Choice::Errors, GivenText::Next),
        !crate::text::starts_with(v, "--errors="@) ==> word_of("--errors="@ + v) == WordText::Valued(
            Choice::Errors,
            GivenText::Inline(v),
        ),
        word_of("-e"@) == WordText::Valued(Choice::Errors, GivenText::Next),
        word_of("--input"@) == WordText::Valued(Choice::Input, GivenText::Next),
        !crate::text::starts_with(v, "--input="@) ==> word_of("--input="@ + v) == WordText::Valued(
            Choice::Input,
            GivenText::Inline(v),
        ),
        word_of("-i"@) == WordText::Valued(Choice::Input, GivenText::Next),
        word_of("--quiet"@) is Quiet,
        word_of("-q"@) is Quiet,
        word_of("--help"@) is Help,
        word_of("-h"@) is Help,
{
    reveal_strlit("--from");
    reveal_strlit("--to");
    reveal_strlit("--results");
    reveal_strlit("-o");
    reveal_strlit("--occurrences");
    reveal_strlit("--errors");
    reveal_strlit("-e");
    reveal_strlit("--input");
    reveal_strlit("-i");
    reveal_strlit("--quiet");
    reveal_strlit("-q");
    reveal_strlit("--help");
    reveal_strlit("-h");
    reveal_strlit("=");
    reveal_strlit("--from=");
    assert("--from="@ =~= "--from"@ + "="@);
    reveal_strlit("--to=");
    assert("--to="@ =~= "--to"@ + "="@);
    reveal_strlit("--results=");
    assert("--results="@ =~= "--results"@ + "="@);
    reveal_strlit("--occurrences=");
    assert("--occurrences="@ =~= "--occurrences"@ + "="@);
    reveal_strlit("--errors=");
    assert("--errors="@ =~= "--errors"@ + "="@);
    reveal_strlit("--input=");
    assert("--input="@ =~= "--input"@ + "="@);
    assert(word_of("--from"@) == WordText::Valued(Choice::From, GivenText::Next)) by {
        crate::args::lemma_is_option("--from"@, v);
    }
    if !crate::text::starts_with(v, "--from="@) {
        let arg = "--from="@ + v;
        crate::args::lemma_is_option("--from"@, v);
        assert(word_of(arg) == WordText::Valued(Choice::From, GivenText::Inline(v)));
    }
    assert(word_of("--to"@) == WordText::Valued(Choice::To, GivenText::Next)) by {
        crate::args::lemma_is_no_option("--to"@, "--from"@, 2);
        crate::args::lemma_is_option("--to"@, v);
    }
    if !crate::text::starts_with(v, "--to="@) {
        let arg = "--to="@ + v;
        crate::args::lemma_is_no_option(arg, "--from"@, 2);
        crate::args::lemma_is_option("--to"@, v);
        assert(word_of(arg) == WordText::Valued(Choice::To, GivenText::Inline(v)));
    }
    assert(word_of("--results"@) == WordText::Valued(Choice::Results, GivenText::Next)) by {
        crate::args::lemma_is_no_option("--results"@, "--from"@, 2);
        crate::args::lemma_is_no_option("--results"@, "--to"@, 2);
        assert("--results"@ != "-o"@) by {
            assert("--results"@.len() != "-o"@.len());
        }
        crate::args::lemma_is_option("--results"@, v);
    }
    if !crate::text::starts_with(v, "--results="@) {
        let arg = "--results="@ + v;
        crate::args::lemma_is_no_option(arg, "--from"@, 2);
        crate::args::lemma_is_no_option(arg, "--to"@, 2);
        assert(arg != "-o"@) by {
            assert(arg.len() != "-o"@.len());
        }
        crate::args::lemma_is_option("--results"@, v);
        assert(word_of(arg) == WordText::Valued(Choice::Results, GivenText::Inline(v)));
    }
    assert(word_of("-o"@) == WordText::Valued(Choice::Results, GivenText::Next)) by {
        crate::args::lemma_is_no_option("-o"@, "--from"@, 1);
        crate::args::lemma_is_no_option("-o"@, "--to"@, 1);
    }
    assert(word_of("--occurrences"@) == WordText::Valued(Choice::Occurrences, GivenText::Next)) by {
        crate::args::lemma_is_no_option("--occurrences"@, "--from"@, 2);
        crate::args::lemma_is_no_option("--occurrences"@, "--to"@, 2);
        assert("--occurrences"@ != "-o"@) by {
            assert("--occurrences"@.len() != "-o"@.len() || "--occurrences"@[1] != "-o"@[1]);
        }
        crate::args::lemma_is_no_option("--occurrences"@, "--results"@, 2);
        crate::args::lemma_is_option("--occurrences"@, v);
    }
    if !crate::text::starts_with(v, "--occurrences="@) {
        let arg = "--occurrences="@ + v;
        crate::args::lemma_is_no_option(arg, "--from"@, 2);
        crate::args::lemma_is_no_option(arg, "--to"@, 2);
        assert(arg != "-o"@) by {
            assert(arg.len() != "-o"@.len() || arg[1] != "-o"@[1]);
        }
        crate::args::lemma_is_no_option(arg, "--results"@, 2);
        crate::args::lemma_is_option("--occurrences"@, v);
        assert(word_of(arg) == WordText::Valued(Choice::Occurrences, GivenText::Inline(v)));
    }
    assert(word_of("--errors"@) == WordText::Valued(Choice::Errors, GivenText::Next)) by {
        crate::args::lemma_is_no_option("--errors"@, "--from"@, 2);
        crate::args::lemma_is_no_option("--errors"@, "--to"@, 2);
        assert("--errors"@ != "-o"@) by {
            assert("--errors"@.len() != "-o"@.len() || "--errors"@[1] != "-o"@[1]);
        }
        crate::args::lemma_is_no_option("--errors"@, "--results"@, 2);
        crate::args::lemma_is_no_option("--errors"@, "--occurrences"@, 2);
        assert("--errors"@ != "-e"@) by {
            assert("--errors"@.len() != "-e"@.len());
        }
        crate::args::lemma_is_option("--errors"@, v);
    }
    if !crate::text::starts_with(v, "--errors="@) {
        let arg = "--errors="@ + v;
        crate::args::lemma_is_no_option(arg, "--from"@, 2);
        crate::args::lemma_is_no_option(arg, "--to"@, 2);
        assert(arg != "-o"@) by {
            assert(arg.len() != "-o"@.len() || arg[1] != "-o"@[1]);
        }
        crate::args::lemma_is_no_option(arg, "--results"@, 2);
        crate::args::lemma_is_no_option(arg, "--occurrences"@, 2);
        assert(arg != "-e"@) by {
            assert(arg.len() != "-e"@.len());
        }
        crate::args::lemma_is_option("--errors"@, v);
        assert(word_of(arg) == WordText::Valued(Choice::Errors, GivenText::Inline(v)));
    }
    assert(word_of("-e"@) == WordText::Valued(Choice::Errors, GivenText::Next)) by {
        crate::args::lemma_is_no_option("-e"@, "--from"@, 1);
        crate::args::lemma_is_no_option("-e"@, "--to"@, 1);
        assert("-e"@ != "-o"@) by {
            assert("-e"@.len() != "-o"@.len() || "-e"@[1] != "-o"@[1]);
        }
        crate::args::lemma_is_no_option("-e"@, "--results"@, 1);
        crate::args::lemma_is_no_option("-e"@, "--occurrences"@, 1);
    }
    assert(word_of("--input"@) == WordText::Valued(Choice::Input, GivenText::Next)) by {
        crate::args::lemma_is_no_option("--input"@, "--from"@, 2);
        crate::args::lemma_is_no_option("--input"@, "--to"@, 2);
        assert("--input"@ != "-o"@) by {
            assert("--input"@.len() != "-o"@.len() || "--input"@[1] != "-o"@[1]);
        }
        crate::args::lemma_is_no_option("--input"@, "--results"@, 2);
        crate::args::lemma_is_no_option("--input"@, "--occurrences"@, 2);
        assert("--input"@ != "-e"@) by {
            assert("--input"@.len() != "-e"@.len() || "--input"@[1] != "-e"@[1]);
        }
        crate::args::lemma_is_no_option("--input"@, "--errors"@, 2);
        assert("--input"@ != "-i"@) by {
            assert("--input"@.len() != "-i"@.len());
        }
        crate::args::lemma_is_option("--input"@, v);
    }
    if !crate::text::starts_with(v, "--input="@) {
        let arg = "--input="@ + v;
        crate::args::lemma_is_no_option(arg, "--from"@, 2);
        crate::args::lemma_is_no_option(arg, "--to"@, 2);
        assert(arg != "-o"@) by {
            assert(arg.len() != "-o"@.len() || arg[1] != "-o"@[1]);
        }
        crate::args::lemma_is_no_option(arg, "--results"@, 2);
        crate::args::lemma_is_no_option(arg, "--occurrences"@, 2);
        assert(arg != "-e"@) by {
            assert(arg.len() != "-e"@.len() || arg[1] != "-e"@[1]);
        }
        crate::args::lemma_is_no_option(arg, "--errors"@, 2);
        assert(arg != "-i"@) by {
            assert(arg.len() != "-i"@.len());
        }
        crate::args::lemma_is_option("--input"@, v);
        assert(word_of(arg) == WordText::Valued(Choice::Input, GivenText::Inline(v)));
    }
    assert(word_of("-i"@) == WordText::Valued(Choice::Input, GivenText::Next)) by {
        crate::args::lemma_is_no_option("-i"@, "--from"@, 1);
        crate::args::lemma_is_no_option("-i"@, "--to"@, 1);
        assert("-i"@ != "-o"@) by {
            assert("-i"@.len() != "-o"@.len() || "-i"@[1] != "-o"@[1]);
        }
        crate::args::lemma_is_no_option("-i"@, "--results"@, 1);
        crate::args::lemma_is_no_option("-i"@, "--occurrences"@, 1);
        assert("-i"@ != "-e"@) by {
            assert("-i"@.len() != "-e"@.len() || "-i"@[1] != "-e"@[1]);
        }
        crate::args::lemma_is_no_option("-i"@, "--errors"@, 1);
    }
    assert(word_of("--quiet"@) is Quiet) by {
        crate::args::lemma_is_no_option("--quiet"@, "--from"@, 2);
        crate::args::lemma_is_no_option("--quiet"@, "--to"@, 2);
        assert("--quiet"@ != "-o"@) by {
            assert("--quiet"@.len() != "-o"@.len() || "--quiet"@[1] != "-o"@[1]);
        }
        crate::args::lemma_is_no_option("--quiet"@, "--results"@, 2);
        crate::args::lemma_is_no_option("--quiet"@, "--occurrences"@, 2);
        assert("--quiet"@ != "-e"@) by {
            assert("--quiet"@.len() != "-e"@.len() || "--quiet"@[1] != "-e"@[1]);
        }
        crate::args::lemma_is_no_option("--quiet"@, "--errors"@, 2);
        assert("--quiet"@ != "-i"@) by {
            assert("--quiet"@.len() != "-i"@.len() || "--quiet"@[1] != "-i"@[1]);
        }
        crate::args::lemma_is_no_option("--quiet"@, "--input"@, 2);
        crate::args::common_words_are_known();
    }
    assert(word_of("-q"@) is Quiet) by {
        crate::args::lemma_is_no_option("-q"@, "--from"@, 1);
        crate::args::lemma_is_no_option("-q"@, "--to"@, 1);
        assert("-q"@ != "-o"@) by {
            assert("-q"@.len() != "-o"@.len() || "-q"@[1] != "-o"@[1]);
        }
        crate::args::lemma_is_no_option("-q"@, "--results"@, 1);
        crate::args::lemma_is_no_option("-q"@, "--occurrences"@, 1);
        assert("-q"@ != "-e"@) by {
            assert("-q"@.len() != "-e"@.len() || "-q"@[1] != "-e"@[1]);
        }
        crate::args::lemma_is_no_option("-q"@, "--errors"@, 1);
        assert("-q"@ != "-i"@) by {
            assert("-q"@.len() != "-i"@.len() || "-q"@[1] != "-i"@[1]);
        }
        crate::args::lemma_is_no_option("-q"@, "--input"@, 1);
        crate::args::common_words_are_known();
    }
    assert(word_of("--help"@) is Help) by {
        crate::args::lemma_is_no_option("--help"@, "--from"@, 2);
        crate::args::lemma_is_no_option("--help"@, "--to"@, 2);
        assert("--help"@ != "-o"@) by {
            assert("--help"@.len() != "-o"@.len() || "--help"@[1] != "-o"@[1]);
        }
        crate::args::lemma_is_no_option("--help"@, "--results"@, 2);
        crate::args::lemma_is_no_option("--help"@, "--occurrences"@, 2);
        assert("--help"@ != "-e"@) by {
            assert("--help"@.len() != "-e"@.len() || "--help"@[1] != "-e"@[1]);
        }
        crate::args::lemma_is_no_option("--help"@, "--errors"@, 2);
        assert("--help"@ != "-i"@) by {
            assert("--help"@.len() != "-i"@.len() || "--help"@[1] != "-i"@[1]);
        }
        crate::args::lemma_is_no_option("--help"@, "--input"@, 2);
        crate::args::common_words_are_known();
    }
    assert(word_of("-h"@) is Help) by {
        crate::args::lemma_is_no_option("-h"@, "--from"@, 1);
        crate::args::lemma_is_no_option("-h"@, "--to"@, 1);
        assert("-h"@ != "-o"@) by {
            assert("-h"@.len() != "-o"@.len() || "-h"@[1] != "-o"@[1]);
        }
        crate::args::lemma_is_no_option("-h"@, "--results"@, 1);
        crate::args::lemma_is_no_option("-h"@, "--occurrences"@, 1);
        assert("-h"@ != "-e"@) by {
            assert("-h"@.len() != "-e"@.len() || "-h"@[1] != "-e"@[1]);
        }
        crate::args::lemma_is_no_option("-h"@, "--errors"@, 1);
        assert("-h"@ != "-i"@) by {
            assert("-h"@.len() != "-i"@.len() || "-h"@[1] != "-i"@[1]);
        }
        crate::args::lemma_is_no_option("-h"@, "--input"@, 1);
        crate::args::common_words_are_known();
    }
}


/// A command line is read from left to right. Every option sets its setting to
/// the value behind it and leaves the others as they were; one without a value,
/// or with one that is no number where there must be one, is refused; and who
/// asks for help gets it.
#[verifier::rlimit(60)]
pub proof fn options_set_their_settings(
    args: Seq<Seq<char>>,
    i: int,
    cfg: Settings,
    v: Seq<char>,
)
    requires
        0 <= i < args.len(),
    ensures
        args[i] == "--from"@ && i + 1 == args.len() ==> parse_from(args, i, cfg) == Outcome::Refused(
            ArgFault { message: "--from requires a value"@, cause: None },
        ),
        args[i] == "--from"@ && i + 1 < args.len() && crate::text::parsed_u64(args[i + 1]) is Ok
            ==> parse_from(args, i, cfg) == parse_from(
            args,
            i + 2,
            Settings { from: Some(crate::text::parsed_u64(args[i + 1])->Ok_0), ..cfg },
        ),
        args[i] == "--from"@ && i + 1 < args.len() && !(crate::text::parsed_u64(args[i + 1]) is Ok)
            ==> parse_from(args, i, cfg) is Refused,
        args[i] == "--from="@ + v && !crate::text::starts_with(v, "--from="@) && crate::text::parsed_u64(
            v,
        ) is Ok ==> parse_from(args, i, cfg) == parse_from(
            args,
            i + 1,
            Settings { from: Some(crate::text::parsed_u64(v)->Ok_0), ..cfg },
        ),
        args[i] == "--from="@ + v && !crate::text::starts_with(v, "--from="@) && !(crate::text::parsed_u64(
            v,
        ) is Ok) ==> parse_from(args, i, cfg) is Refused,
        args[i] == "--to"@ && i + 1 == args.len() ==> parse_from(args, i, cfg) == Outcome::Refused(
            ArgFault { message: "--to requires a value"@, cause: None },
        ),
        args[i] == "--to"@ && i + 1 < args.len() && crate::text::parsed_u64(args[i + 1]) is Ok
            ==> parse_from(args, i, cfg) == parse_from(
            args,
            i + 2,
            Settings { to: Some(crate::text::parsed_u64(args[i + 1])->Ok_0), ..cfg },
        ),
        args[i] == "--to"@ && i + 1 < args.len() && !(crate::text::parsed_u64(args[i + 1]) is Ok)
            ==> parse_from(args, i, cfg) is Refused,
        args[i] == "--to="@ + v && !crate::text::starts_with(v, "--to="@) && crate::text::parsed_u64(
            v,
        ) is Ok ==> parse_from(args, i, cfg) == parse_from(
            args,
            i + 1,
            Settings { to: Some(crate::text::parsed_u64(v)->Ok_0), ..cfg },
        ),
        args[i] == "--to="@ + v && !crate::text::starts_with(v, "--to="@) && !(crate::text::parsed_u64(
            v,
        ) is Ok) ==> parse_from(args, i, cfg) is Refused,
        args[i] == "--results"@ ==> parse_from(args, i, cfg) == if i + 1 < args.len() {
            parse_from(args, i + 2, Settings { results_path: args[i + 1], ..cfg })
        } else {
            Outcome::Refused(ArgFault { message: "--results requires a value"@, cause: None })
        },
        args[i] == "--results="@ + v && !crate::text::starts_with(v, "--results="@) ==> parse_from(args, i, cfg)
            == parse_from(args, i + 1, Settings { results_path: v, ..cfg }),
        args[i] == "-o"@ ==> parse_from(args, i, cfg) == if i + 1 < args.len() {
            parse_from(args, i + 2, Settings { results_path: args[i + 1], ..cfg })
        } else {
            Outcome::Refused(ArgFault { message: "--results requires a value"@, cause: None })
        },
        args[i] == "--occurrences"@ ==> parse_from(args, i, cfg) == if i + 1 < args.len() {
            parse_from(args, i + 2, Settings { occurrences_path: args[i + 1], ..cfg })
        } else {
            Outcome::Refused(ArgFault { message: "--occurrences requires a value"@, cause: None })
        },
        args[i] == "--occurrences="@ + v && !crate::text::starts_with(v, "--occurrences="@) ==> parse_from(args, i, cfg)
            == parse_from(args, i + 1, Settings { occurrences_path: v, ..cfg }),
        args[i] == "--errors"@ ==> parse_from(args, i, cfg) == if i + 1 < args.len() {
            parse_from(args, i + 2, Settings { errors_path: args[i + 1], ..cfg })
        } else {
            Outcome::Refused(ArgFault { message: "--errors requires a value"@, cause: None })
        },
        args[i] == "--errors="@ + v && !crate::text::starts_with(v, "--errors="@) ==> parse_from(args, i, cfg)
            == parse_from(args, i + 1, Settings { errors_path: v, ..cfg }),
        args[i] == "-e"@ ==> parse_from(args, i, cfg) == if i + 1 < args.len() {
            parse_from(args, i + 2, Settings { errors_path: args[i + 1], ..cfg })
        } else {
            Outcome::Refused(ArgFault { message: "--errors requires a value"@, cause: None })
        },
        args[i] == "--input"@ ==> parse_from(args, i, cfg) == if i + 1 < args.len() {
            parse_from(args, i + 2, Settings { input: Some(args[i + 1]), ..cfg })
        } else {
            Outcome::Refused(ArgFault { message: "--input requires a value"@, cause: None })
        },
        args[i] == "--input="@ + v && !crate::text::starts_with(v, "--input="@) ==> parse_from(args, i, cfg)
            == parse_from(args, i + 1, Settings { input: Some(v), ..cfg }),
        args[i] == "-i"@ ==> parse_from(args, i, cfg) == if i + 1 < args.len() {
            parse_from(args, i + 2, Settings { input: Some(args[i + 1]), ..cfg })
        } else {
            Outcome::Refused(ArgFault { message: "--input requires a value"@, cause: None })
        },
        args[i] == "--quiet"@ ==> parse_from(args, i, cfg) == parse_from(
            args,
            i + 1,
            Settings { quiet: true, ..cfg },
        ),
        args[i] == "-q"@ ==> parse_from(args, i, cfg) == parse_from(
            args,
            i + 1,
            Settings { quiet: true, ..cfg },
        ),
        args[i] == "--help"@ ==> parse_from(args, i, cfg) is Help,
        args[i] == "-h"@ ==> parse_from(args, i, cfg) is Help,
{
    options_are_known(v);
    reveal_strlit("--from");
    reveal_strlit(" requires a value");
    reveal_strlit("--from requires a value");
    assert("--from requires a value"@ =~= "--from"@ + " requires a value"@);
    reveal_strlit("--to");
    reveal_strlit(" requires a value");
    reveal_strlit("--to requires a value");
    assert("--to requires a value"@ =~= "--to"@ + " requires a value"@);
    reveal_strlit("--results");
    reveal_strlit(" requires a value");
    reveal_strlit("--results requires a value");
    assert("--results requires a value"@ =~= "--results"@ + " requires a value"@);
    reveal_strlit("--occurrences");
    reveal_strlit(" requires a value");
    reveal_strlit("--occurrences requires a value");
    assert("--occurrences requires a value"@ =~= "--occurrences"@ + " requires a value"@);
    reveal_strlit("--errors");
    reveal_strlit(" requires a value");
    reveal_strlit("--errors requires a value");
    assert("--errors requires a value"@ =~= "--errors"@ + " requires a value"@);
    reveal_strlit("--input");
    reveal_strlit(" requires a value");
    reveal_strlit("--input requires a value");
    assert("--input requires a value"@ =~= "--input"@ + " requires a value"@);
}


/// With nothing left to read, a command line runs with what it has set, unless
/// both ends of its window are given and it does not end after it starts.
pub proof fn read_command_lines_run(args: Seq<Seq<char>>, cfg: Settings)
    ensures
        ({
            let empty = cfg.from is Some && cfg.to is Some && cfg.to->Some_0 <= cfg.from->Some_0;
            &&& !empty ==> parse_from(args, args.len() as int, cfg) == Outcome::Run(cfg)
            &&& empty ==> parse_from(args, args.len() as int, cfg) is Refused
        }),
{
}


/// An argument that is no option is refused, and named.
pub proof fn other_arguments_are_refused(args: Seq<Seq<char>>, i: int, cfg: Settings)
    requires
        0 <= i < args.len(),
        args[i] != "--from"@,
        !crate::text::starts_with(args[i], "--from"@ + "="@),
        args[i] != "--to"@,
        !crate::text::starts_with(args[i], "--to"@ + "="@),
        args[i] != "--results"@,
        !crate::text::starts_with(args[i], "--results"@ + "="@),
        args[i] != "--occurrences"@,
        !crate::text::starts_with(args[i], "--occurrences"@ + "="@),
        args[i] != "--errors"@,
        !crate::text::starts_with(args[i], "--errors"@ + "="@),
        args[i] != "--input"@,
        !crate::text::starts_with(args[i], "--input"@ + "="@),
        args[i] != "-o"@,
        args[i] != "-e"@,
        args[i] != "-i"@,
        args[i] != "--quiet"@,
        args[i] != "-q"@,
        args[i] != "--help"@,
        args[i] != "-h"@,
    ensures
        parse_from(args, i, cfg) == Outcome::Refused(
            ArgFault { message: "unknown argument: "@ + args[i], cause: None },
        ),
{
}

} // verus!
