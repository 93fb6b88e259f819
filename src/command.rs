//! Command parse errors and the binding of single argument tokens.

use vstd::prelude::*;
use crate::coerce::{ArgModel, ArgValue, coerce, coerce_token};
use crate::param::ValueKind;

verus! {

/// The text of each string in a sequence.
pub open spec fn texts(v: Seq<String>) -> Seq<Seq<char>> {
    v.map_values(|s: String| s@)
}

/// Why a command event did not produce a typed command.
#[derive(Clone, Debug, PartialEq, Eq)]
pub enum CommandParseError {
    /// The command token is neither the command's name nor an alias.
    NoMatch,
    /// A required argument is absent.
    Missing(String),
    /// An argument is present but does not read as its parameter's type.
    Invalid(String),
    /// The subcommand token names no variant.
    UnknownSubcommand,
}

/// The content of a [`CommandParseError`].
pub enum ErrModel {
    NoMatch,
    Missing(Seq<char>),
    Invalid(Seq<char>),
    UnknownSubcommand,
}

/// The human-readable rendering of a parse error.
pub open spec fn message_text(e: ErrModel) -> Seq<char> {
    match e {
        ErrModel::NoMatch => "command did not match"@,
        ErrModel::Missing(n) => "missing required argument `"@ + n + "`"@,
        ErrModel::Invalid(n) => "invalid value for argument `"@ + n + "`"@,
        ErrModel::UnknownSubcommand => "unknown subcommand"@,
    }
}

impl CommandParseError {
    pub open spec fn model(&self) -> ErrModel {
        match self {
            CommandParseError::NoMatch => ErrModel::NoMatch,
            CommandParseError::Missing(n) => ErrModel::Missing(n@),
            CommandParseError::Invalid(n) => ErrModel::Invalid(n@),
            CommandParseError::UnknownSubcommand => ErrModel::UnknownSubcommand,
        }
    }

    /// The message shown to the player who sent the command.
    pub fn message(&self) -> (r: String)
        ensures
            r@ == message_text(self.model()),
    {
        match self {
            CommandParseError::NoMatch => "command did not match".to_owned(),
            CommandParseError::Missing(n) => {
                let mut s = "missing required argument `".to_owned();
                s.append(n.as_str());
                s.append("`");
                s
            },
            CommandParseError::Invalid(n) => {
                let mut s = "invalid value for argument `".to_owned();
                s.append(n.as_str());
                s.append("`");
                s
            },
            CommandParseError::UnknownSubcommand => "unknown subcommand".to_owned(),
        }
    }
}

/// A required argument: absent is `Missing`, present but unreadable is
/// `Invalid`.
pub open spec fn required_arg(args: Seq<Seq<char>>, index: int, name: Seq<char>, kind: ValueKind)
    -> Result<ArgModel, ErrModel>
{
    if index >= args.len() {
        Err(ErrModel::Missing(name))
    } else {
        match coerce(kind, args[index]) {
            Some(v) => Ok(v),
            None => Err(ErrModel::Invalid(name)),
        }
    }
}

/// An optional argument: absent or empty is no value, present but
/// unreadable is `Invalid`.
pub open spec fn optional_arg(args: Seq<Seq<char>>, index: int, name: Seq<char>, kind: ValueKind)
    -> Result<Option<ArgModel>, ErrModel>
{
    if index >= args.len() || args[index].len() == 0 {
        Ok(None)
    } else {
        match coerce(kind, args[index]) {
            Some(v) => Ok(Some(v)),
            None => Err(ErrModel::Invalid(name)),
        }
    }
}

pub open spec fn value_result(r: Result<ArgValue, CommandParseError>) -> Result<ArgModel, ErrModel> {
    match r {
        Ok(v) => Ok(v.model()),
        Err(e) => Err(e.model()),
    }
}

pub open spec fn optional_result(r: Result<Option<ArgValue>, CommandParseError>) -> Result<
    Option<ArgModel>,
    ErrModel,
> {
    match r {
        Ok(Some(v)) => Ok(Some(v.model())),
        Ok(None) => Ok(None),
        Err(e) => Err(e.model()),
    }
}

/// Parses a required argument at the given index.
pub fn parse_required_arg(args: &[String], index: usize, name: &str, kind: ValueKind) -> (r: Result<
    ArgValue,
    CommandParseError,
>)
    ensures
        value_result(r) == required_arg(texts(args@), index as int, name@, kind),
{
    if index >= args.len() {
        return Err(CommandParseError::Missing(name.to_owned()));
    }
    match coerce_token(kind, args[index].as_str()) {
        Some(v) => Ok(v),
        None => Err(CommandParseError::Invalid(name.to_owned())),
    }
}

/// Parses an optional argument at the given index: `Ok(None)` where it is
/// absent or empty, `Ok(Some(value))` where it reads, `Err` where it is
/// present but invalid.
pub fn parse_optional_arg(args: &[String], index: usize, name: &str, kind: ValueKind) -> (r: Result<
    Option<ArgValue>,
    CommandParseError,
>)
    ensures
        optional_result(r) == optional_arg(texts(args@), index as int, name@, kind),
{
    if index >= args.len() {
        return Ok(None);
    }
    let token = args[index].as_str();
    if token.is_empty() {
        return Ok(None);
    }
    match coerce_token(kind, token) {
        Some(v) => Ok(Some(v)),
        None => Err(CommandParseError::Invalid(name.to_owned())),
    }
}

} // verus!
