//! Reading command lines of flags and values.

use crate::order::Score;
use crate::text::{number_up_to, parse_u64, parse_usize, same};
use vstd::prelude::*;

verus! {

/// One argument of a command line, with what it stands for outside this library.
#[derive(Debug)]
pub struct Token {
    pub text: String,
    /// The fractional number that the text writes, if it writes one.
    pub fraction: Option<Score>,
    /// The text names a device.
    pub device: bool,
    /// The text names a reference path.
    pub scenario: bool,
}

/// What a flag takes behind it.
#[derive(Clone, Copy, PartialEq, Eq, Structural, Debug)]
pub enum ValueKind {
    /// Nothing: the flag itself is the setting.
    Switch,
    Text,
    /// A number of the machine's word size.
    Size,
    /// A 64-bit number.
    Seed,
    Fraction,
    Device,
    Scenario,
    /// `fresh-prior` or `shifted-residual`.
    WarmStart,
}

/// A flag of a command line.
#[derive(Clone, Copy, Debug)]
pub struct FlagSpec {
    pub name: &'static str,
    pub kind: ValueKind,
}

/// Why a command line cannot be read; `at` is the place of the argument in question.
#[derive(Clone, Copy, PartialEq, Eq, Structural, Debug)]
pub enum CliError {
    /// There is no such flag.
    Unknown { at: usize },
    /// The flag at `at` is the last argument but takes a value.
    Missing { at: usize },
    /// What stands behind the flag at `at` is no value of its kind.
    Invalid { at: usize },
}

/// The token is a value of that kind.
pub open spec fn accepts(kind: ValueKind, token: Token) -> bool {
    match kind {
        ValueKind::Switch => false,
        ValueKind::Text => true,
        ValueKind::Size => number_up_to(token.text@, usize::MAX as nat) is Some,
        ValueKind::Seed => number_up_to(token.text@, u64::MAX as nat) is Some,
        ValueKind::Fraction => token.fraction is Some,
        ValueKind::Device => token.device,
        ValueKind::Scenario => token.scenario,
        ValueKind::WarmStart => token.text@ == "fresh-prior"@ || token.text@
            == "shifted-residual"@,
    }
}

/// Whether a token is a value of a kind.
pub fn is_accepted(kind: ValueKind, token: &Token) -> (answer: bool)
    ensures
        answer == accepts(kind, *token),
{
    match kind {
        ValueKind::Switch => false,
        ValueKind::Text => true,
        ValueKind::Size => parse_usize(token.text.as_str()).is_some(),
        ValueKind::Seed => parse_u64(token.text.as_str()).is_some(),
        ValueKind::Fraction => token.fraction.is_some(),
        ValueKind::Device => token.device,
        ValueKind::Scenario => token.scenario,
        ValueKind::WarmStart => same(token.text.as_str(), "fresh-prior") || same(
            token.text.as_str(),
            "shifted-residual",
        ),
    }
}

/// The place of the value behind the flag at `at`, or why there is none.
pub open spec fn value_behind(tokens: Seq<Token>, at: int, kind: ValueKind) -> Result<
    usize,
    CliError,
> {
    if at + 1 >= tokens.len() {
        Err(CliError::Missing { at: at as usize })
    } else if !accepts(kind, tokens[at + 1]) {
        Err(CliError::Invalid { at: at as usize })
    } else {
        Ok((at + 1) as usize)
    }
}

/// Takes the value behind the flag at `at`.
pub fn next_parse(tokens: &Vec<Token>, at: usize, kind: ValueKind) -> (result: Result<
    usize,
    CliError,
>)
    requires
        at < tokens@.len(),
    ensures
        result == value_behind(tokens@, at as int, kind),
{
    let total: usize = tokens.len();
    if at + 1 >= total {
        return Err(CliError::Missing { at });
    }
    if !is_accepted(kind, &tokens[at + 1]) {
        return Err(CliError::Invalid { at });
    }
    Ok(at + 1)
}

/// The first flag of that name.
pub open spec fn flag_named(flags: Seq<FlagSpec>, name: Seq<char>, from: int) -> Option<int>
    decreases flags.len() - from,
{
    if from < 0 || from >= flags.len() {
        None
    } else if flags[from].name@ == name {
        Some(from)
    } else {
        flag_named(flags, name, from + 1)
    }
}

fn find_flag(flags: &Vec<FlagSpec>, name: &str) -> (found: Option<usize>)
    ensures
        match found {
            Some(flag) => flag_named(flags@, name@, 0) == Some(flag as int) && flag < flags@.len(),
            None => flag_named(flags@, name@, 0) is None,
        },
{
    let mut flag: usize = 0;
    while flag < flags.len()
        invariant
            flag <= flags@.len(),
            flag_named(flags@, name@, 0) == flag_named(flags@, name@, flag as int),
        decreases flags@.len() - flag,
    {
        if same(flags[flag].name, name) {
            return Some(flag);
        }
        flag = flag + 1;
    }
    None
}

/// A flag is found by its name, the first of that name, and none where no flag has it.
pub proof fn law_flags_are_found_by_name(flags: Seq<FlagSpec>, name: Seq<char>, from: int)
    requires
        0 <= from <= flags.len(),
    ensures
        match flag_named(flags, name, from) {
            Some(flag) => {
                &&& from <= flag < flags.len()
                &&& flags[flag].name@ == name
                &&& forall|i: int| from <= i < flag ==> (#[trigger] flags[i]).name@ != name
            },
            None => forall|i: int| from <= i < flags.len() ==> (#[trigger] flags[i]).name@ != name,
        },
    decreases flags.len() - from,
{
    if from < flags.len() && flags[from].name@ != name {
        law_flags_are_found_by_name(flags, name, from + 1);
    }
}

/// The argument asks for help.
pub open spec fn asks_for_help(text: Seq<char>) -> bool {
    text == "-h"@ || text == "--help"@
}

/// What reading a command line comes to.
pub enum Reading {
    /// Help was asked for before anything else went wrong.
    Help,
    Failed(CliError),
    /// For each flag the place of the value that was given last.
    Values(Seq<Option<usize>>),
}

/// Reads the arguments from `next` on, given the values found so far.
pub open spec fn reading(
    flags: Seq<FlagSpec>,
    has_help: bool,
    tokens: Seq<Token>,
    next: int,
    values: Seq<Option<usize>>,
) -> Reading
    decreases tokens.len() - next,
{
    if next < 0 || next >= tokens.len() {
        Reading::Values(values)
    } else if has_help && asks_for_help(tokens[next].text@) {
        Reading::Help
    } else {
        match flag_named(flags, tokens[next].text@, 0) {
            None => Reading::Failed(CliError::Unknown { at: next as usize }),
            Some(flag) => if flags[flag].kind == ValueKind::Switch {
                reading(
                    flags,
                    has_help,
                    tokens,
                    next + 1,
                    values.update(flag, Some(next as usize)),
                )
            } else {
                match value_behind(tokens, next, flags[flag].kind) {
                    Err(error) => Reading::Failed(error),
                    Ok(value) => reading(
                        flags,
                        has_help,
                        tokens,
                        next + 2,
                        values.update(flag, Some(value)),
                    ),
                }
            },
        }
    }
}

/// No value for any of `count` flags.
pub open spec fn no_values(count: nat) -> Seq<Option<usize>> {
    Seq::new(count, |i: int| None)
}

/// The reading of a whole command line.
pub open spec fn read_line(
    flags: Seq<FlagSpec>,
    has_help: bool,
    tokens: Seq<Token>,
) -> Reading {
    reading(flags, has_help, tokens, 0, no_values(flags.len()))
}

/// The values of a command line lie in it, and are of their flags' kinds.
pub open spec fn values_fit(
    flags: Seq<FlagSpec>,
    tokens: Seq<Token>,
    values: Seq<Option<usize>>,
) -> bool {
    &&& values.len() == flags.len()
    &&& forall|flag: int|
        0 <= flag < flags.len() ==> (#[trigger] values[flag] matches Some(place) ==> place
            < tokens.len() && (flags[flag].kind == ValueKind::Switch || accepts(
            flags[flag].kind,
            tokens[place as int],
        )))
}

/// Reads a command line: flags in any order, each with its value behind it, later ones replacing
/// earlier ones. The result has none where help is asked for.
pub fn scan(flags: &Vec<FlagSpec>, has_help: bool, tokens: &Vec<Token>) -> (result: Result<
    Option<Vec<Option<usize>>>,
    CliError,
>)
    ensures
        match result {
            Ok(Some(values)) => read_line(flags@, has_help, tokens@) == Reading::Values(values@)
                && values_fit(flags@, tokens@, values@),
            Ok(None) => read_line(flags@, has_help, tokens@) == Reading::Help,
            Err(error) => read_line(flags@, has_help, tokens@) == Reading::Failed(error),
        },
{
    let mut values: Vec<Option<usize>> = Vec::new();
    let mut flag: usize = 0;
    while flag < flags.len()
        invariant
            flag == values@.len() <= flags@.len(),
            forall|i: int| 0 <= i < flag ==> #[trigger] values@[i] is None,
        decreases flags@.len() - flag,
    {
        values.push(None);
        flag = flag + 1;
    }
    assert(values@ =~= no_values(flags@.len()));
    let total: usize = tokens.len();
    let mut next: usize = 0;
    while next < total
        invariant
            next <= total == tokens@.len(),
            values_fit(flags@, tokens@, values@),
            read_line(flags@, has_help, tokens@) == reading(
                flags@,
                has_help,
                tokens@,
                next as int,
                values@,
            ),
        decreases total - next,
    {
        let name = tokens[next].text.as_str();
        if has_help && (same(name, "-h") || same(name, "--help")) {
            return Ok(None);
        }
        match find_flag(flags, name) {
            None => {
                return Err(CliError::Unknown { at: next });
            },
            Some(found) => {
                let kind = flags[found].kind;
                if kind == ValueKind::Switch {
                    values.set(found, Some(next));
                    next = next + 1;
                } else {
                    match next_parse(tokens, next, kind) {
                        Err(error) => {
                            return Err(error);
                        },
                        Ok(value) => {
                            values.set(found, Some(value));
                            next = next + 2;
                        },
                    }
                }
            },
        }
    }
    Ok(Some(values))
}

/// An argument that is no flag stops the reading there, whatever comes behind it.
pub proof fn law_unknown_argument_is_refused(
    flags: Seq<FlagSpec>,
    has_help: bool,
    tokens: Seq<Token>,
)
    requires
        tokens.len() > 0,
        flag_named(flags, tokens[0].text@, 0) is None,
        !(has_help && asks_for_help(tokens[0].text@)),
    ensures
        read_line(flags, has_help, tokens) == Reading::Failed(CliError::Unknown { at: 0 }),
{
}

proof fn lemma_reading_goes_on(
    flags: Seq<FlagSpec>,
    has_help: bool,
    tokens: Seq<Token>,
    more: Seq<Token>,
    next: int,
    values: Seq<Option<usize>>,
    found: Seq<Option<usize>>,
)
    requires
        0 <= next <= tokens.len(),
        reading(flags, has_help, tokens, next, values) == Reading::Values(found),
    ensures
        reading(flags, has_help, tokens + more, next, values) == reading(
            flags,
            has_help,
            tokens + more,
            tokens.len() as int,
            found,
        ),
    decreases tokens.len() - next,
{
    let longer = tokens + more;
    if next < tokens.len() {
        assert(longer[next] == tokens[next]);
        let flag = flag_named(flags, tokens[next].text@, 0)->0;
        if flags[flag].kind == ValueKind::Switch {
            lemma_reading_goes_on(
                flags,
                has_help,
                tokens,
                more,
                next + 1,
                values.update(flag, Some(next as usize)),
                found,
            );
        } else {
            assert(longer[next + 1] == tokens[next + 1]);
            lemma_reading_goes_on(
                flags,
                has_help,
                tokens,
                more,
                next + 2,
                values.update(flag, Some((next + 1) as usize)),
                found,
            );
        }
    }
}

/// A command line that goes on with a flag and a value of its kind, or with a flag that takes none,
/// sets that flag and no other, whatever was set before. One that goes on with an unknown argument,
/// with a flag whose value is missing or with one that is none of its kind is refused there. One
/// that goes on with a call for help is answered with help.
#[verifier::spinoff_prover]
pub proof fn law_flags_take_the_value_behind_them(
    flags: Seq<FlagSpec>,
    has_help: bool,
    tokens: Seq<Token>,
    values: Seq<Option<usize>>,
    name: Token,
    value: Token,
    flag: int,
)
    requires
        read_line(flags, has_help, tokens) == Reading::Values(values),
        tokens.len() + 1 <= usize::MAX,
    ensures
        has_help && (name.text@ == "-h"@ || name.text@ == "--help"@) ==> read_line(
            flags,
            has_help,
            tokens + seq![name],
        ) == Reading::Help,
        !(has_help && (name.text@ == "-h"@ || name.text@ == "--help"@)) ==> {
            let at = tokens.len() as usize;
            let line = read_line(flags, has_help, tokens + seq![name]);
            let valued = read_line(flags, has_help, tokens + seq![name, value]);
            let named = 0 <= flag < flags.len() && flags[flag].name@ == name.text@ && forall|i: int|
                0 <= i < flag ==> (#[trigger] flags[i]).name@ != name.text@;
            &&& (forall|i: int| 0 <= i < flags.len() ==> (#[trigger] flags[i]).name@ != name.text@)
                ==> line == Reading::Failed(CliError::Unknown { at })
            &&& named && flags[flag].kind == ValueKind::Switch ==> line == Reading::Values(
                values.update(flag, Some(at)),
            )
            &&& named && flags[flag].kind != ValueKind::Switch ==> line == Reading::Failed(
                CliError::Missing { at },
            )
            &&& named && flags[flag].kind != ValueKind::Switch && accepts(flags[flag].kind, value)
                ==> valued == Reading::Values(values.update(flag, Some((at + 1) as usize)))
            &&& named && flags[flag].kind != ValueKind::Switch && !accepts(flags[flag].kind, value)
                ==> valued == Reading::Failed(CliError::Invalid { at })
        },
{
    let none = no_values(flags.len());
    let at = tokens.len() as int;
    let short = tokens + seq![name];
    let long = tokens + seq![name, value];
    lemma_reading_goes_on(flags, has_help, tokens, seq![name], 0, none, values);
    lemma_reading_goes_on(flags, has_help, tokens, seq![name, value], 0, none, values);
    assert(short[at] == name);
    assert(long[at] == name);
    assert(long[at + 1] == value);
    law_flags_are_found_by_name(flags, name.text@, 0);
    let found = flag_named(flags, name.text@, 0);
    if let Some(other) = found {
        if other < flag {
            assert(flags[other].name@ == name.text@);
        }
        if flag < other && 0 <= flag {
            assert(flags[flag].name@ != name.text@);
        }
    }
    reveal_with_fuel(reading, 2);
}

/// An empty command line sets nothing.
pub proof fn law_empty_lines_set_nothing(flags: Seq<FlagSpec>, has_help: bool, flag: int)
    requires
        0 <= flag < flags.len(),
    ensures
        read_line(flags, has_help, Seq::empty()) matches Reading::Values(values) && values.len()
            == flags.len() && values[flag] is None,
{
}

/// Values of a kind are what the kind says: any text, a whole number of the kind's range, a
/// fractional number, a device, a scenario, or one of the two starts.
pub proof fn law_values_are_of_their_kind(token: Token)
    ensures
        accepts(ValueKind::Text, token),
        accepts(ValueKind::Size, token) <==> number_up_to(token.text@, usize::MAX as nat) is Some,
        accepts(ValueKind::Seed, token) <==> number_up_to(token.text@, u64::MAX as nat) is Some,
        accepts(ValueKind::Fraction, token) <==> token.fraction is Some,
        accepts(ValueKind::Device, token) <==> token.device,
        accepts(ValueKind::Scenario, token) <==> token.scenario,
        accepts(ValueKind::WarmStart, token) ==> token.text@ == "fresh-prior"@ || token.text@
            == "shifted-residual"@,
        token.text@ == "fresh-prior"@ || token.text@ == "shifted-residual"@ ==> accepts(
            ValueKind::WarmStart,
            token,
        ),
{
}

/// The number at the place of a value, or `default` where none was given.
pub open spec fn size_or(tokens: Seq<Token>, value: Option<usize>, default: usize) -> int {
    match value {
        Some(place) => match number_up_to(tokens[place as int].text@, usize::MAX as nat) {
            Some(number) => number as int,
            None => default as int,
        },
        None => default as int,
    }
}

/// Takes the number at the place of a value.
pub fn take_size(tokens: &Vec<Token>, value: Option<usize>, default: usize) -> (size: usize)
    requires
        value matches Some(place) ==> place < tokens@.len(),
    ensures
        size == size_or(tokens@, value, default),
{
    match value {
        Some(place) => match parse_usize(tokens[place].text.as_str()) {
            Some(number) => number,
            None => default,
        },
        None => default,
    }
}

/// The 64-bit number at the place of a value, or `default` where none was given.
pub open spec fn seed_or(tokens: Seq<Token>, value: Option<usize>, default: u64) -> int {
    match value {
        Some(place) => match number_up_to(tokens[place as int].text@, u64::MAX as nat) {
            Some(number) => number as int,
            None => default as int,
        },
        None => default as int,
    }
}

/// Takes the 64-bit number at the place of a value.
pub fn take_seed(tokens: &Vec<Token>, value: Option<usize>, default: u64) -> (seed: u64)
    requires
        value matches Some(place) ==> place < tokens@.len(),
    ensures
        seed == seed_or(tokens@, value, default),
{
    match value {
        Some(place) => match parse_u64(tokens[place].text.as_str()) {
            Some(number) => number,
            None => default,
        },
        None => default,
    }
}

/// The fractional number at the place of a value, or `default` where none was given.
pub open spec fn fraction_or(tokens: Seq<Token>, value: Option<usize>, default: Score) -> Score {
    match value {
        Some(place) => match tokens[place as int].fraction {
            Some(number) => number,
            None => default,
        },
        None => default,
    }
}

/// Takes the fractional number at the place of a value.
pub fn take_fraction(tokens: &Vec<Token>, value: Option<usize>, default: Score) -> (number: Score)
    requires
        value matches Some(place) ==> place < tokens@.len(),
    ensures
        number == fraction_or(tokens@, value, default),
{
    match value {
        Some(place) => match tokens[place].fraction {
            Some(number) => number,
            None => default,
        },
        None => default,
    }
}

/// The text at the place of a value, or `default` where none was given.
pub open spec fn text_or(tokens: Seq<Token>, value: Option<usize>, default: Seq<char>) -> Seq<char> {
    match value {
        Some(place) => tokens[place as int].text@,
        None => default,
    }
}

/// Takes the text at the place of a value.
pub fn take_text(tokens: &Vec<Token>, value: Option<usize>, default: &str) -> (text: String)
    requires
        value matches Some(place) ==> place < tokens@.len(),
    ensures
        text@ == text_or(tokens@, value, default@),
{
    match value {
        Some(place) => tokens[place].text.clone(),
        None => default.to_owned(),
    }
}

/// A setting that is given has the value that was given, and any other its default.
pub proof fn law_given_values_replace_defaults(
    tokens: Seq<Token>,
    place: usize,
    number: nat,
    fraction: Score,
    size: usize,
    seed: u64,
    default: Score,
    text: Seq<char>,
)
    ensures
        size_or(tokens, None, size) == size,
        seed_or(tokens, None, seed) == seed,
        fraction_or(tokens, None, default) == default,
        text_or(tokens, None, text) == text,
        number_up_to(tokens[place as int].text@, usize::MAX as nat) == Some(number) ==> size_or(
            tokens,
            Some(place),
            size,
        ) == number,
        number_up_to(tokens[place as int].text@, u64::MAX as nat) == Some(number) ==> seed_or(
            tokens,
            Some(place),
            seed,
        ) == number,
        tokens[place as int].fraction == Some(fraction) ==> fraction_or(
            tokens,
            Some(place),
            default,
        ) == fraction,
        text_or(tokens, Some(place), text) == tokens[place as int].text@,
{
}

} // verus!
