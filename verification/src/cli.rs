//! The command line: what the arguments ask for, and what to do with each
//! result.
//!
//! An argument is given as its bytes, or as `None` where it is not valid UTF-8.
use crate::alphabets::{
    sanitize, sanitized, BASE64, BASE64_URL, LATIN, LATIN_LOWER, LATIN_LOWER_NUMBERS,
    LATIN_NUMBERS, LATIN_UPPER, LATIN_UPPER_NUMBERS, NUMBERS, PASSWORD,
};
use crate::number::{number, parse_number, NumberError};
use crate::sampler::GenerateError;
use vstd::prelude::*;
use vstd::slice::slice_to_vec;
use vstd::string::StringSliceAdditionalSpecFns;

verus! {

/// One argument as the contracts see it.
pub type ArgView = Option<Seq<u8>>;

/// The view of one argument.
pub open spec fn arg_view(arg: Option<Vec<u8>>) -> ArgView {
    match arg {
        Some(bytes) => Some(bytes@),
        None => None,
    }
}

/// The views of the arguments, in their order.
pub open spec fn arg_views(args: Seq<Option<Vec<u8>>>) -> Seq<ArgView> {
    Seq::new(args.len(), |i: int| arg_view(args[i]))
}

/// Whether `arg` is exactly `text`.
pub open spec fn is_text(arg: ArgView, text: &str) -> bool {
    arg == Some(text.spec_bytes())
}

/// Tells whether two runs of bytes are the same.
fn same_bytes(a: &[u8], b: &[u8]) -> (same: bool)
    ensures
        same == (a@ == b@),
{
    if a.len() != b.len() {
        return false;
    }
    let mut i: usize = 0;
    while i < a.len()
        invariant
            a@.len() == b@.len(),
            i <= a@.len(),
            forall|j: int| 0 <= j < i ==> a@[j] == b@[j],
        decreases a@.len() - i,
    {
        if a[i] != b[i] {
            return false;
        }
        i += 1;
    }
    assert(a@ =~= b@);
    true
}

/// Tells whether `arg` is exactly `text`.
fn arg_is(arg: &Option<Vec<u8>>, text: &str) -> (same: bool)
    ensures
        same == is_text(arg_view(*arg), text),
{
    match arg {
        Some(bytes) => same_bytes(bytes.as_slice(), text.as_bytes()),
        None => false,
    }
}

/// The alphabet that a flag names, if `arg` is such a flag.
pub open spec fn named_alphabet(arg: ArgView) -> Option<Seq<u8>> {
    if is_text(arg, "--password") {
        Some(PASSWORD@)
    } else if is_text(arg, "--latin-numbers") {
        Some(LATIN_NUMBERS@)
    } else if is_text(arg, "--base64") {
        Some(BASE64@)
    } else if is_text(arg, "--base64-url") {
        Some(BASE64_URL@)
    } else if is_text(arg, "--numbers") {
        Some(NUMBERS@)
    } else if is_text(arg, "--latin") {
        Some(LATIN@)
    } else if is_text(arg, "--latin-lower") {
        Some(LATIN_LOWER@)
    } else if is_text(arg, "--latin-lower-numbers") {
        Some(LATIN_LOWER_NUMBERS@)
    } else if is_text(arg, "--latin-upper") {
        Some(LATIN_UPPER@)
    } else if is_text(arg, "--latin-upper-numbers") {
        Some(LATIN_UPPER_NUMBERS@)
    } else {
        None
    }
}

/// Looks up the alphabet that a flag names.
fn find_named_alphabet(arg: &Option<Vec<u8>>) -> (alphabet: Option<Vec<u8>>)
    ensures
        arg_view(alphabet) == named_alphabet(arg_view(*arg)),
{
    if arg_is(arg, "--password") {
        Some(slice_to_vec(PASSWORD.as_slice()))
    } else if arg_is(arg, "--latin-numbers") {
        Some(slice_to_vec(LATIN_NUMBERS.as_slice()))
    } else if arg_is(arg, "--base64") {
        Some(slice_to_vec(BASE64.as_slice()))
    } else if arg_is(arg, "--base64-url") {
        Some(slice_to_vec(BASE64_URL.as_slice()))
    } else if arg_is(arg, "--numbers") {
        Some(slice_to_vec(NUMBERS.as_slice()))
    } else if arg_is(arg, "--latin") {
        Some(slice_to_vec(LATIN.as_slice()))
    } else if arg_is(arg, "--latin-lower") {
        Some(slice_to_vec(LATIN_LOWER.as_slice()))
    } else if arg_is(arg, "--latin-lower-numbers") {
        Some(slice_to_vec(LATIN_LOWER_NUMBERS.as_slice()))
    } else if arg_is(arg, "--latin-upper") {
        Some(slice_to_vec(LATIN_UPPER.as_slice()))
    } else if arg_is(arg, "--latin-upper-numbers") {
        Some(slice_to_vec(LATIN_UPPER_NUMBERS.as_slice()))
    } else {
        None
    }
}

/// What the command line asks to generate.
#[derive(Debug, PartialEq, Eq)]
pub struct Settings {
    /// How many passwords.
    pub count: usize,
    /// The bytes that a password may be made of.
    pub alphabet: Vec<u8>,
    /// How many bytes each password has.
    pub length: usize,
}

/// What the command line asks for.
#[derive(Debug, PartialEq, Eq)]
pub enum Command {
    /// To show how the program is used.
    Help,
    /// To generate passwords.
    Generate(Settings),
}

/// Something in the arguments that is passed over with a remark.
#[derive(Clone, Copy, Debug, PartialEq, Eq, Structural)]
pub enum Warning {
    /// An alphabet was chosen though one had been chosen before; the first stays.
    SecondAlphabet,
    /// The argument at this place, counted from 0, has no meaning where it stands.
    Unexpected(usize),
}

/// Why the arguments are refused.
#[derive(Clone, Copy, Debug, PartialEq, Eq, Structural)]
pub enum ArgError {
    /// The flag at this place, counted from 0, is the last argument and lacks its value.
    MissingValue(usize),
    /// The count is not valid UTF-8.
    InvalidCount,
    /// The count is no number.
    InvalidNumber(NumberError),
    /// The count is 0.
    ZeroCount,
    /// The custom alphabet is empty.
    EmptyAlphabet,
    /// The custom alphabet is not valid UTF-8.
    AlphabetNotUtf8,
    /// The password length is 0.
    ZeroLength,
    /// The password length is no number.
    InvalidLength,
}

/// What reading the arguments gave: the remarks made on the way, and the
/// command or the reason why there is none.
#[derive(Debug, PartialEq, Eq)]
pub struct Parsed {
    /// The remarks, in the order of the arguments that gave rise to them.
    pub warnings: Vec<Warning>,
    /// The command, or why the arguments are refused.
    pub outcome: Result<Command, ArgError>,
}

/// [`Settings`] as the contracts see them.
pub struct SettingsView {
    pub count: usize,
    pub alphabet: Seq<u8>,
    pub length: usize,
}

/// [`Command`] as the contracts see it.
pub enum CommandView {
    Help,
    Generate(SettingsView),
}

/// [`Parsed`] as the contracts see it.
pub struct ParsedView {
    pub warnings: Seq<Warning>,
    pub outcome: Result<CommandView, ArgError>,
}

impl View for Settings {
    type V = SettingsView;

    open spec fn view(&self) -> SettingsView {
        SettingsView { count: self.count, alphabet: self.alphabet@, length: self.length }
    }
}

impl View for Command {
    type V = CommandView;

    open spec fn view(&self) -> CommandView {
        match self {
            Command::Help => CommandView::Help,
            Command::Generate(settings) => CommandView::Generate(settings@),
        }
    }
}

impl View for Parsed {
    type V = ParsedView;

    open spec fn view(&self) -> ParsedView {
        ParsedView {
            warnings: self.warnings@,
            outcome: match self.outcome {
                Ok(command) => Ok(command@),
                Err(error) => Err(error),
            },
        }
    }
}

/// The count that is used where the arguments give none.
pub const DEFAULT_COUNT: usize = 1;

/// The password length that is used where the arguments give none.
pub const DEFAULT_LENGTH: usize = 32;

/// What has been read of the arguments so far. A count or a length of 0 is one
/// that has not been given yet.
pub struct Progress {
    pub count: usize,
    pub length: usize,
    pub alphabet: Option<Seq<u8>>,
    pub warnings: Seq<Warning>,
}

/// The count that `value` gives, the argument that follows the count flag.
pub open spec fn count_of(value: ArgView) -> Result<usize, ArgError> {
    match value {
        None => Err(ArgError::InvalidCount),
        Some(text) => match number(text) {
            Err(error) => Err(ArgError::InvalidNumber(error)),
            Ok(count) => if count == 0 {
                Err(ArgError::ZeroCount)
            } else {
                Ok(count)
            },
        },
    }
}

/// The password length that `arg` gives.
pub open spec fn length_of(arg: ArgView) -> Result<usize, ArgError> {
    match arg {
        None => Err(ArgError::InvalidLength),
        Some(text) => match number(text) {
            Err(_) => Err(ArgError::InvalidLength),
            Ok(length) => if length == 0 {
                Err(ArgError::ZeroLength)
            } else {
                Ok(length)
            },
        },
    }
}

/// The alphabet that `value` gives, the argument that follows the alphabet
/// flag: its bytes, sanitized.
pub open spec fn custom_alphabet(value: ArgView) -> Result<Seq<u8>, ArgError> {
    match value {
        None => Err(ArgError::AlphabetNotUtf8),
        Some(text) => if text.len() == 0 {
            Err(ArgError::EmptyAlphabet)
        } else {
            Ok(sanitized(text))
        },
    }
}

/// The command once every argument is read: what was given, and the default
/// for what was not.
pub open spec fn finished(progress: Progress) -> ParsedView {
    ParsedView {
        warnings: progress.warnings,
        outcome: Ok(
            CommandView::Generate(
                SettingsView {
                    count: if progress.count == 0 {
                        DEFAULT_COUNT
                    } else {
                        progress.count
                    },
                    alphabet: match progress.alphabet {
                        Some(alphabet) => alphabet,
                        None => PASSWORD@,
                    },
                    length: if progress.length == 0 {
                        DEFAULT_LENGTH
                    } else {
                        progress.length
                    },
                },
            ),
        ),
    }
}

/// Reading stops here with `outcome`.
pub open spec fn stopped(progress: Progress, outcome: Result<CommandView, ArgError>) -> ParsedView {
    ParsedView { warnings: progress.warnings, outcome }
}

/// `progress` with one more remark.
pub open spec fn warned(progress: Progress, warning: Warning) -> Progress {
    Progress { warnings: progress.warnings.push(warning), ..progress }
}

/// What the arguments from place `at` on give, after `progress`.
///
/// The arguments are read from the left, and the first that is refused ends the
/// reading. At each place the first of these that fits decides:
/// - `-n` or `--count`, while no count is given: the next argument is the count;
/// - `-h` or `--help`: the command is [`Command::Help`], whatever follows;
/// - `-a` or `--alphabet`: the next argument is a custom alphabet; where an
///   alphabet is chosen already, that argument and the one after it are skipped;
/// - a flag that names an alphabet: that alphabet, unless one is chosen already;
/// - while no length is given: the argument is the length;
/// - else the argument is unexpected.
pub open spec fn parse_from(args: Seq<ArgView>, at: int, progress: Progress) -> ParsedView
    decreases args.len() + 2 - at,
{
    if at < 0 || at >= args.len() {
        finished(progress)
    } else if (is_text(args[at], "-n") || is_text(args[at], "--count")) && progress.count == 0 {
        if at + 1 >= args.len() {
            stopped(progress, Err(ArgError::MissingValue(at as usize)))
        } else {
            match count_of(args[at + 1]) {
                Err(error) => stopped(progress, Err(error)),
                Ok(count) => parse_from(args, at + 2, Progress { count, ..progress }),
            }
        }
    } else if is_text(args[at], "-h") || is_text(args[at], "--help") {
        stopped(progress, Ok(CommandView::Help))
    } else if is_text(args[at], "-a") || is_text(args[at], "--alphabet") {
        if at + 1 >= args.len() {
            stopped(progress, Err(ArgError::MissingValue(at as usize)))
        } else if progress.alphabet is Some {
            parse_from(args, at + 3, warned(progress, Warning::SecondAlphabet))
        } else {
            match custom_alphabet(args[at + 1]) {
                Err(error) => stopped(progress, Err(error)),
                Ok(alphabet) => parse_from(
                    args,
                    at + 2,
                    Progress { alphabet: Some(alphabet), ..progress },
                ),
            }
        }
    } else if named_alphabet(args[at]) is Some {
        if progress.alphabet is Some {
            parse_from(args, at + 1, warned(progress, Warning::SecondAlphabet))
        } else {
            parse_from(args, at + 1, Progress { alphabet: named_alphabet(args[at]), ..progress })
        }
    } else if progress.length == 0 {
        match length_of(args[at]) {
            Err(error) => stopped(progress, Err(error)),
            Ok(length) => parse_from(args, at + 1, Progress { length, ..progress }),
        }
    } else {
        parse_from(args, at + 1, warned(progress, Warning::Unexpected(at as usize)))
    }
}

/// What the arguments give.
pub open spec fn parsed(args: Seq<ArgView>) -> ParsedView {
    parse_from(
        args,
        0,
        Progress { count: 0, length: 0, alphabet: None, warnings: Seq::empty() },
    )
}

/// Reads the count from the argument that follows the count flag.
fn read_count(value: &Option<Vec<u8>>) -> (count: Result<usize, ArgError>)
    ensures
        count == count_of(arg_view(*value)),
{
    match value {
        None => Err(ArgError::InvalidCount),
        Some(text) => match parse_number(text.as_slice()) {
            Err(error) => Err(ArgError::InvalidNumber(error)),
            Ok(count) => if count == 0 {
                Err(ArgError::ZeroCount)
            } else {
                Ok(count)
            },
        },
    }
}

/// Reads the password length from an argument.
fn read_length(arg: &Option<Vec<u8>>) -> (length: Result<usize, ArgError>)
    ensures
        length == length_of(arg_view(*arg)),
{
    match arg {
        None => Err(ArgError::InvalidLength),
        Some(text) => match parse_number(text.as_slice()) {
            Err(_) => Err(ArgError::InvalidLength),
            Ok(length) => if length == 0 {
                Err(ArgError::ZeroLength)
            } else {
                Ok(length)
            },
        },
    }
}

/// Reads a custom alphabet from the argument that follows the alphabet flag.
fn read_alphabet(value: &Option<Vec<u8>>) -> (alphabet: Result<Vec<u8>, ArgError>)
    ensures
        match alphabet {
            Ok(bytes) => custom_alphabet(arg_view(*value)) == Ok::<Seq<u8>, ArgError>(bytes@),
            Err(error) => custom_alphabet(arg_view(*value)) == Err::<Seq<u8>, ArgError>(error),
        },
{
    match value {
        None => Err(ArgError::AlphabetNotUtf8),
        Some(text) => if text.len() == 0 {
            Err(ArgError::EmptyAlphabet)
        } else {
            Ok(sanitize(text.as_slice()))
        },
    }
}

/// Reads the arguments of the command line, the program's name left out.
pub fn parse_args(args: &[Option<Vec<u8>>]) -> (result: Parsed)
    ensures
        result@ == parsed(arg_views(args@)),
{
    let ghost views = arg_views(args@);
    let mut count: usize = 0;
    let mut length: usize = 0;
    let mut alphabet: Option<Vec<u8>> = None;
    let mut warnings: Vec<Warning> = Vec::new();
    let mut at: usize = 0;
    while at < args.len()
        invariant
            views == arg_views(args@),
            at <= args@.len(),
            parsed(views) == parse_from(
                views,
                at as int,
                Progress { count, length, alphabet: arg_view(alphabet), warnings: warnings@ },
            ),
        decreases args@.len() - at,
    {
        let ghost progress = Progress {
            count,
            length,
            alphabet: arg_view(alphabet),
            warnings: warnings@,
        };
        let arg = &args[at];
        assert(views[at as int] == arg_view(*arg));
        if (arg_is(arg, "-n") || arg_is(arg, "--count")) && count == 0 {
            if at + 1 >= args.len() {
                return Parsed { warnings, outcome: Err(ArgError::MissingValue(at)) };
            }
            assert(views[at + 1] == arg_view(args@[at + 1]));
            match read_count(&args[at + 1]) {
                Err(error) => {
                    return Parsed { warnings, outcome: Err(error) };
                },
                Ok(n) => {
                    count = n;
                    at += 2;
                },
            }
        } else if arg_is(arg, "-h") || arg_is(arg, "--help") {
            return Parsed { warnings, outcome: Ok(Command::Help) };
        } else if arg_is(arg, "-a") || arg_is(arg, "--alphabet") {
            if at + 1 >= args.len() {
                return Parsed { warnings, outcome: Err(ArgError::MissingValue(at)) };
            }
            assert(views[at + 1] == arg_view(args@[at + 1]));
            if alphabet.is_some() {
                warnings.push(Warning::SecondAlphabet);
                if args.len() - at < 3 {
                    proof {
                        // Past the end, as at the end, nothing is left to read.
                        reveal_with_fuel(parse_from, 2);
                    }
                    at = args.len();
                } else {
                    at += 3;
                }
            } else {
                match read_alphabet(&args[at + 1]) {
                    Err(error) => {
                        return Parsed { warnings, outcome: Err(error) };
                    },
                    Ok(bytes) => {
                        alphabet = Some(bytes);
                        at += 2;
                    },
                }
            }
        } else {
            let named = find_named_alphabet(arg);
            if named.is_some() {
                if alphabet.is_some() {
                    warnings.push(Warning::SecondAlphabet);
                } else {
                    alphabet = named;
                }
                at += 1;
            } else if length == 0 {
                match read_length(arg) {
                    Err(error) => {
                        return Parsed { warnings, outcome: Err(error) };
                    },
                    Ok(n) => {
                        length = n;
                        at += 1;
                    },
                }
            } else {
                warnings.push(Warning::Unexpected(at));
                at += 1;
            }
        }
    }
    let settings = Settings {
        count: if count == 0 {
            DEFAULT_COUNT
        } else {
            count
        },
        alphabet: match alphabet {
            Some(bytes) => bytes,
            None => slice_to_vec(PASSWORD.as_slice()),
        },
        length: if length == 0 {
            DEFAULT_LENGTH
        } else {
            length
        },
    };
    Parsed { warnings, outcome: Ok(Command::Generate(settings)) }
}

/// What the program does with the result of one generation.
#[derive(Debug, PartialEq, Eq)]
pub enum Action {
    /// Write these bytes to the standard output.
    Write(Vec<u8>),
    /// Say on the standard error that this password could not be made, and go on
    /// with the next.
    Report(GenerateError),
    /// Say on the standard error that the password could not be made, and end
    /// with a failure.
    Abort(GenerateError),
}

/// What is written for one password: the password, and a line feed after it
/// unless it is the only one.
pub open spec fn written(password: Seq<u8>, count: usize) -> Seq<u8> {
    if count == 1 {
        password
    } else {
        password.push(0x0a)
    }
}

/// Decides what to do with the result of one generation out of `count`.
///
/// A password is written. A failure ends the program where one password was
/// asked for; among several it costs only its own line.
pub fn action(count: usize, result: Result<Vec<u8>, GenerateError>) -> (action: Action)
    ensures
        match result {
            Ok(password) => action matches Action::Write(bytes) && bytes@ == written(
                password@,
                count,
            ),
            Err(error) => if count == 1 {
                action == Action::Abort(error)
            } else {
                action == Action::Report(error)
            },
        },
{
    match result {
        Ok(password) => {
            let mut bytes = password;
            if count != 1 {
                bytes.push(0x0a);
            }
            Action::Write(bytes)
        },
        Err(error) => if count == 1 {
            Action::Abort(error)
        } else {
            Action::Report(error)
        },
    }
}

} // verus!
