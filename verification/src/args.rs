//! What the command lines of the three programs have in common.

use vstd::prelude::*;
use vstd::string::*;

use crate::text::{has_prefix, parse_u64, same, strip_prefixes, IntError};

verus! {

/// Why a command line is refused.
pub struct ArgError {
    /// What is said to the user.
    pub message: String,
    /// What was wrong with a number, where the message does not say it.
    pub cause: Option<IntError>,
}

/// An `ArgError` with its text as a sequence of characters.
#[verifier::ext_equal]
pub struct ArgFault {
    pub message: Seq<char>,
    pub cause: Option<IntError>,
}

impl View for ArgError {
    type V = ArgFault;

    open spec fn view(&self) -> ArgFault {
        ArgFault { message: self.message@, cause: self.cause }
    }
}

/// The arguments as sequences of characters.
pub open spec fn texts(args: Seq<String>) -> Seq<Seq<char>> {
    args.map_values(|s: String| s@)
}

/// An optional text as a sequence of characters.
pub open spec fn opt_text(s: Option<String>) -> Option<Seq<char>> {
    match s {
        Some(t) => Some(t@),
        None => None,
    }
}

/// Where the value of an option stands.
pub enum Given {
    /// In the next argument.
    Next,
    /// In the same argument, behind an equals sign.
    Inline(String),
}

/// A `Given` with its text as a sequence of characters.
pub enum GivenText {
    Next,
    Inline(Seq<char>),
}

impl View for Given {
    type V = GivenText;

    open spec fn view(&self) -> GivenText {
        match self {
            Given::Next => GivenText::Next,
            Given::Inline(s) => GivenText::Inline(s@),
        }
    }
}

/// Whether `arg` is the option `name`, and where its value stands then.
pub open spec fn option_given(arg: Seq<char>, name: Seq<char>) -> Option<GivenText> {
    let inline = name + "="@;
    if arg == name {
        Some(GivenText::Next)
    } else if crate::text::starts_with(arg, inline) {
        Some(GivenText::Inline(crate::text::without_prefixes(arg, inline)))
    } else {
        None
    }
}

/// Tests whether `arg` is the option `name`.
pub fn match_option(arg: &str, name: &str) -> (r: Option<Given>)
    ensures
        match r {
            Some(g) => option_given(arg@, name@) == Some(g@),
            None => option_given(arg@, name@) is None,
        },
{
    if same(arg, name) {
        return Some(Given::Next);
    }
    let mut inline = name.to_owned();
    inline.append("=");
    if has_prefix(arg, inline.as_str()) {
        Some(Given::Inline(strip_prefixes(arg, inline.as_str()).to_owned()))
    } else {
        None
    }
}

/// Whether `arg` is the option `name`, or `short` for it, and where its value
/// stands then.
pub open spec fn named(arg: Seq<char>, name: Seq<char>, short: Seq<char>) -> Option<GivenText> {
    if arg == short {
        Some(GivenText::Next)
    } else {
        option_given(arg, name)
    }
}

/// Tests whether `arg` is the option `name`, or `short` for it.
pub fn match_named(arg: &str, name: &str, short: &str) -> (r: Option<Given>)
    ensures
        match r {
            Some(g) => named(arg@, name@, short@) == Some(g@),
            None => named(arg@, name@, short@) is None,
        },
{
    if same(arg, short) {
        Some(Given::Next)
    } else {
        match_option(arg, name)
    }
}

/// The options that take a value.
#[derive(Clone, Copy, Debug, PartialEq, Eq, Structural)]
pub enum Choice {
    Interval,
    VwapInterval,
    From,
    To,
    Results,
    VwapResults,
    Occurrences,
    Errors,
    Input,
}

/// What an argument says where an option is due.
pub enum Word {
    /// An option that takes a value.
    Valued(Choice, Given),
    NoLog,
    Quiet,
    Help,
    Unknown,
}

/// A `Word` with its text as a sequence of characters.
pub enum WordText {
    Valued(Choice, GivenText),
    NoLog,
    Quiet,
    Help,
    Unknown,
}

impl View for Word {
    type V = WordText;

    open spec fn view(&self) -> WordText {
        match self {
            Word::Valued(choice, given) => WordText::Valued(*choice, given@),
            Word::NoLog => WordText::NoLog,
            Word::Quiet => WordText::Quiet,
            Word::Help => WordText::Help,
            Word::Unknown => WordText::Unknown,
        }
    }
}

/// The words that every program knows.
pub open spec fn common_word(arg: Seq<char>) -> WordText {
    if arg == "--quiet"@ || arg == "-q"@ {
        WordText::Quiet
    } else if arg == "--help"@ || arg == "-h"@ {
        WordText::Help
    } else {
        WordText::Unknown
    }
}

/// Reads a word that every program knows.
pub fn read_common_word(arg: &str) -> (r: Word)
    ensures
        r@ == common_word(arg@),
{
    if same(arg, "--quiet") || same(arg, "-q") {
        Word::Quiet
    } else if same(arg, "--help") || same(arg, "-h") {
        Word::Help
    } else {
        Word::Unknown
    }
}

/// How many arguments an option takes up.
pub open spec fn width(given: GivenText) -> int {
    match given {
        GivenText::Next => 2,
        GivenText::Inline(_) => 1,
    }
}

/// The value of the option that stands at `i`, where it has one.
pub open spec fn value_at(args: Seq<Seq<char>>, i: int, given: GivenText) -> Option<Seq<char>> {
    match given {
        GivenText::Next => if i + 1 < args.len() {
            Some(args[i + 1])
        } else {
            None
        },
        GivenText::Inline(v) => Some(v),
    }
}

/// What is said of an option that lacks its value.
pub open spec fn missing_value(flag: Seq<char>) -> ArgFault {
    ArgFault { message: flag + " requires a value"@, cause: None }
}

/// What the argument at `at` is, or that `flag` lacks its value.
pub open spec fn taken_str(args: Seq<Seq<char>>, at: int, flag: Seq<char>) -> Result<
    Seq<char>,
    ArgFault,
> {
    if 0 <= at < args.len() {
        Ok(args[at])
    } else {
        Err(missing_value(flag))
    }
}

/// What number the argument at `at` stands for, or why `flag` has no such
/// value.
pub open spec fn taken_u64(args: Seq<Seq<char>>, at: int, flag: Seq<char>) -> Result<
    u64,
    ArgFault,
> {
    match taken_str(args, at, flag) {
        Ok(s) => match crate::text::parsed_u64(s) {
            Ok(n) => Ok(n),
            Err(e) => Err(ArgFault { message: "invalid value for "@ + flag, cause: Some(e) }),
        },
        Err(e) => Err(e),
    }
}

/// Takes the argument at `at` as the value of `flag`.
pub fn take_str(args: &Vec<String>, at: usize, flag: &str) -> (r: Result<String, ArgError>)
    ensures
        match r {
            Ok(s) => taken_str(texts(args@), at as int, flag@) == Ok::<Seq<char>, ArgFault>(s@),
            Err(e) => taken_str(texts(args@), at as int, flag@) == Err::<Seq<char>, ArgFault>(e@),
        },
{
    if at < args.len() {
        Ok(args[at].clone())
    } else {
        let mut message = flag.to_owned();
        message.append(" requires a value");
        Err(ArgError { message, cause: None })
    }
}

/// Takes the argument at `at` as a number for `flag`.
pub fn take_u64(args: &Vec<String>, at: usize, flag: &str) -> (r: Result<u64, ArgError>)
    ensures
        match r {
            Ok(n) => taken_u64(texts(args@), at as int, flag@) == Ok::<u64, ArgFault>(n),
            Err(e) => taken_u64(texts(args@), at as int, flag@) == Err::<u64, ArgFault>(e@),
        },
{
    match take_str(args, at, flag) {
        Ok(s) => match parse_u64(s.as_str()) {
            Ok(n) => Ok(n),
            Err(e) => {
                let mut message = "invalid value for ".to_owned();
                message.append(flag);
                Err(ArgError { message, cause: Some(e) })
            },
        },
        Err(e) => Err(e),
    }
}

/// The words for what is wrong with a number.
pub open spec fn int_error_words(e: IntError) -> Seq<char> {
    match e {
        IntError::Empty => "cannot parse integer from empty string"@,
        IntError::InvalidDigit => "invalid digit found in string"@,
        IntError::Overflow => "number too large to fit in target type"@,
    }
}

/// Says what is wrong with a number.
pub fn int_error_text(e: IntError) -> (r: String)
    ensures
        r@ == int_error_words(e),
{
    match e {
        IntError::Empty => "cannot parse integer from empty string".to_owned(),
        IntError::InvalidDigit => "invalid digit found in string".to_owned(),
        IntError::Overflow => "number too large to fit in target type".to_owned(),
    }
}

/// The number that a value behind an equals sign stands for.
pub open spec fn inline_u64(v: Seq<char>) -> Result<u64, ArgFault> {
    match crate::text::parsed_u64(v) {
        Ok(n) => Ok(n),
        Err(e) => Err(ArgFault { message: int_error_words(e), cause: None }),
    }
}

/// Reads a number that stands behind an equals sign.
pub fn read_inline_u64(v: &str) -> (r: Result<u64, ArgError>)
    ensures
        match r {
            Ok(n) => inline_u64(v@) == Ok::<u64, ArgFault>(n),
            Err(e) => inline_u64(v@) == Err::<u64, ArgFault>(e@),
        },
{
    match parse_u64(v) {
        Ok(n) => Ok(n),
        Err(e) => Err(ArgError { message: int_error_text(e), cause: None }),
    }
}

/// The number that the option at `i` is given, or why it has none.
pub open spec fn number_given(
    args: Seq<Seq<char>>,
    i: int,
    given: GivenText,
    flag: Seq<char>,
) -> Result<u64, ArgFault> {
    match given {
        GivenText::Next => taken_u64(args, i + 1, flag),
        GivenText::Inline(v) => inline_u64(v),
    }
}

/// The text that the option at `i` is given, or why it has none.
pub open spec fn text_given(
    args: Seq<Seq<char>>,
    i: int,
    given: GivenText,
    flag: Seq<char>,
) -> Result<Seq<char>, ArgFault> {
    match given {
        GivenText::Next => taken_str(args, i + 1, flag),
        GivenText::Inline(v) => Ok(v),
    }
}

/// Reads the number that the option at `i` is given.
pub fn given_number(args: &Vec<String>, i: usize, given: &Given, flag: &str) -> (r: Result<u64, ArgError>)
    requires
        i < args.len(),
    ensures
        match r {
            Ok(n) => number_given(texts(args@), i as int, given@, flag@) == Ok::<
                u64,
                ArgFault,
            >(n),
            Err(e) => number_given(texts(args@), i as int, given@, flag@) == Err::<
                u64,
                ArgFault,
            >(e@),
        },
{
    match given {
        Given::Next => take_u64(args, i + 1, flag),
        Given::Inline(v) => read_inline_u64(v.as_str()),
    }
}

/// Reads the text that the option at `i` is given.
pub fn given_text(args: &Vec<String>, i: usize, given: &Given, flag: &str) -> (r: Result<String, ArgError>)
    requires
        i < args.len(),
    ensures
        match r {
            Ok(s) => text_given(texts(args@), i as int, given@, flag@) == Ok::<
                Seq<char>,
                ArgFault,
            >(s@),
            Err(e) => text_given(texts(args@), i as int, given@, flag@) == Err::<
                Seq<char>,
                ArgFault,
            >(e@),
        },
{
    match given {
        Given::Next => take_str(args, i + 1, flag),
        Given::Inline(v) => Ok(v.clone()),
    }
}

/// What is said of an argument that no program knows.
pub open spec fn unknown_argument(arg: Seq<char>) -> ArgFault {
    ArgFault { message: "unknown argument: "@ + arg, cause: None }
}

/// Refuses an argument.
pub fn refuse_unknown(arg: &str) -> (r: ArgError)
    ensures
        r@ == unknown_argument(arg@),
{
    let mut message = "unknown argument: ".to_owned();
    message.append(arg);
    ArgError { message, cause: None }
}


/// An option is known by its name, with its value behind it: in the next
/// argument, or behind an equals sign.
pub proof fn lemma_is_option(name: Seq<char>, v: Seq<char>)
    ensures
        option_given(name, name) == Some(GivenText::Next),
        !crate::text::starts_with(v, name + "="@) ==> option_given(name + "="@ + v, name) == Some(
            GivenText::Inline(v),
        ),
{
    reveal_strlit("=");
    let inline = name + "="@;
    let arg = inline + v;
    assert(arg.take(inline.len() as int) =~= inline);
    assert(arg.skip(inline.len() as int) =~= v);
    assert(arg.len() > name.len());
    if !crate::text::starts_with(v, inline) {
        reveal_with_fuel(crate::text::without_prefixes, 2);
    }
}

/// An argument that differs from the name of an option in some place is not that
/// option.
pub proof fn lemma_is_no_option(arg: Seq<char>, name: Seq<char>, k: int)
    requires
        0 <= k < name.len(),
        k <= arg.len(),
        k == arg.len() || arg[k] != name[k],
    ensures
        arg != name,
        option_given(arg, name) is None,
{
    reveal_strlit("=");
    let inline = name + "="@;
    if crate::text::starts_with(arg, inline) {
        assert(arg.take(inline.len() as int)[k] == inline[k]);
    }
}

/// The words that every program knows are known in both their forms.
pub proof fn common_words_are_known()
    ensures
        common_word("--quiet"@) is Quiet,
        common_word("-q"@) is Quiet,
        common_word("--help"@) is Help,
        common_word("-h"@) is Help,
{
    reveal_strlit("--quiet");
    reveal_strlit("-q");
    reveal_strlit("--help");
    reveal_strlit("-h");
    assert("--help"@[2] != "--quiet"@[2]);
    assert("-h"@[1] != "-q"@[1]);
}

/// A number behind a flag is the next argument as a number. Without one, and
/// with one that is none, the flag is named.
pub proof fn numbers_follow_their_flags(args: Seq<Seq<char>>, i: int, flag: Seq<char>, v: Seq<char>)
    requires
        0 <= i < args.len(),
    ensures
        i + 1 == args.len() ==> number_given(args, i, GivenText::Next, flag) == Err::<u64, ArgFault>(
            ArgFault { message: flag + " requires a value"@, cause: None },
        ),
        i + 1 < args.len() ==> match crate::text::parsed_u64(args[i + 1]) {
            Ok(n) => number_given(args, i, GivenText::Next, flag) == Ok::<u64, ArgFault>(n),
            Err(e) => number_given(args, i, GivenText::Next, flag) == Err::<u64, ArgFault>(
                ArgFault { message: "invalid value for "@ + flag, cause: Some(e) },
            ),
        },
        crate::text::parsed_u64(v) matches Ok(n) ==> number_given(
            args,
            i,
            GivenText::Inline(v),
            flag,
        ) == Ok::<u64, ArgFault>(n),
        crate::text::parsed_u64(v) is Err ==> number_given(
            args,
            i,
            GivenText::Inline(v),
            flag,
        ) is Err,
{
}

/// A text behind a flag is the next argument as it is. Without one, the flag is
/// named.
pub proof fn texts_follow_their_flags(args: Seq<Seq<char>>, i: int, flag: Seq<char>, v: Seq<char>)
    requires
        0 <= i < args.len(),
    ensures
        i + 1 == args.len() ==> text_given(args, i, GivenText::Next, flag) == Err::<
            Seq<char>,
            ArgFault,
        >(ArgFault { message: flag + " requires a value"@, cause: None }),
        i + 1 < args.len() ==> text_given(args, i, GivenText::Next, flag) == Ok::<
            Seq<char>,
            ArgFault,
        >(args[i + 1]),
        text_given(args, i, GivenText::Inline(v), flag) == Ok::<Seq<char>, ArgFault>(v),
{
}

} // verus!
