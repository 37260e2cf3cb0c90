//! The errors that the grammar reports.

use vstd::prelude::*;

verus! {

/// What was looked for at the position where no alternative was left.
#[derive(Clone, Copy, Debug, PartialEq, Eq, Hash, Structural)]
pub enum ErrorKind {
    /// A fixed word or punctuation mark.
    Tag,
    /// At least one byte of white space.
    Space,
    /// At least one decimal digit.
    Digit,
    /// A bare or quoted identifier.
    Identifier,
    /// A reserved word.
    Keyword,
    /// A quoted string literal.
    StringLiteral,
    /// A value expression.
    Expression,
    /// A type specifier.
    Type,
    /// A codec name.
    Codec,
    /// An engine name.
    Engine,
    /// A `key = value` pair of a `SETTINGS` clause.
    Setting,
    /// `;`, a line break or the end of the input.
    Terminator,
}

/// A rule of the dialect that a syntactically well-formed input broke.
#[derive(Clone, Copy, Debug, PartialEq, Eq, Hash, Structural)]
pub enum Violation {
    /// A captured text is not valid UTF-8.
    InvalidUtf8,
    /// Types or expressions are nested deeper than [`crate::scan::MAX_NESTING`].
    NestingTooDeep,
    /// A run of decimal digits whose value does not fit in 64 bits.
    NumberTooLarge,
    /// A `ZSTD` level outside `1..=22`, with the level.
    ZstdLevel(u64),
    /// An `LZ4HC` level outside `0..=12`, with the level.
    Lz4hcLevel(u64),
    /// A `Delta` width other than the one digit 1, 2, 4 or 8, with the
    /// number that was written.
    DeltaLevel(u64),
    /// An `Enum` value above `i16::MAX`, with the value.
    EnumValue(u64),
    /// An `Enum` value below `i16::MIN`, with the value without its sign.
    EnumValueBelow(u64),
    /// A `FixedString` size that the target's `usize` cannot hold, with the size.
    FixedStringSize(u64),
    /// An alias after the table name of a `CREATE TABLE` statement.
    TableAlias,
}

/// Why a parse gave no value.
///
/// A `Syntax` error ends one alternative, and the grammar goes on with the
/// next one. A `Failure` ends the whole parse.
#[derive(Clone, Copy, Debug, PartialEq, Eq, Hash, Structural)]
pub enum ParseError {
    Syntax { kind: ErrorKind, position: usize },
    Failure { violation: Violation, position: usize },
}

impl ParseError {
    /// The byte offset in the input at which the error arose.
    pub open spec fn spec_position(self) -> usize {
        match self {
            ParseError::Syntax { position, .. } => position,
            ParseError::Failure { position, .. } => position,
        }
    }

    /// The byte offset in the input at which the error arose.
    #[verifier::when_used_as_spec(spec_position)]
    pub fn position(self) -> (p: usize)
        ensures
            p == self.spec_position(),
    {
        match self {
            ParseError::Syntax { position, .. } => position,
            ParseError::Failure { position, .. } => position,
        }
    }

    /// Whether the error ends the whole parse.
    pub open spec fn spec_is_failure(self) -> bool {
        self is Failure
    }

    /// Whether the error ends the whole parse.
    #[verifier::when_used_as_spec(spec_is_failure)]
    pub fn is_failure(self) -> (b: bool)
        ensures
            b == self.spec_is_failure(),
    {
        match self {
            ParseError::Syntax { .. } => false,
            ParseError::Failure { .. } => true,
        }
    }
}

/// A syntax error of the given kind at `pos`.
pub open spec fn syntax(kind: ErrorKind, pos: int) -> ParseError {
    ParseError::Syntax { kind, position: pos as usize }
}

/// A failure of the given kind at `pos`.
pub open spec fn failure(violation: Violation, pos: int) -> ParseError {
    ParseError::Failure { violation, position: pos as usize }
}

/// Whether the error ends one alternative only.
pub open spec fn gives_up<T>(r: Result<T, ParseError>) -> bool {
    r is Err && r->Err_0 is Syntax
}

/// What an optional rule gives: the value and the end, or nothing and the
/// position where the rule was tried. Only a failure is handed on.
pub open spec fn optional<T>(r: Result<(T, int), ParseError>, pos: int) -> Result<
    (Option<T>, int),
    ParseError,
> {
    match r {
        Ok((v, end)) => Ok((Some(v), end)),
        Err(e) => if e is Failure {
            Err(e)
        } else {
            Ok((None, pos))
        },
    }
}

/// What an optional rule gives.
pub fn optional_at<X>(r: Result<(X, usize), ParseError>, pos: usize) -> (o: Result<
    (Option<X>, usize),
    ParseError,
>)
    ensures
        match r {
            Ok((v, end)) => o == Ok::<(Option<X>, usize), ParseError>((Some(v), end)),
            Err(e) => if e is Failure {
                o is Err && o->Err_0 == e
            } else {
                o == Ok::<(Option<X>, usize), ParseError>((None, pos))
            },
        },
{
    match r {
        Ok((v, end)) => Ok((Some(v), end)),
        Err(e) => if e.is_failure() {
            Err(e)
        } else {
            Ok((None, pos))
        },
    }
}

/// Whether the error ends one alternative only.
pub fn gave_up<T>(r: &Result<T, ParseError>) -> (b: bool)
    ensures
        b == gives_up(*r),
{
    match r {
        Ok(_) => false,
        Err(e) => !e.is_failure(),
    }
}

/// Whether what a rule returned is what its specification gives: the same
/// error, or a value with the given view and the same end.
pub open spec fn agrees<X: View>(
    r: Result<(X, usize), ParseError>,
    p: Result<(X::V, int), ParseError>,
) -> bool {
    match p {
        Ok((v, end)) => r is Ok && r->Ok_0.0@ == v && r->Ok_0.1 == end,
        Err(e) => r is Err && r->Err_0 == e,
    }
}

/// As [`agrees`], for a rule that gives only the position behind what it read.
pub open spec fn agrees_end(r: Result<usize, ParseError>, p: Result<int, ParseError>) -> bool {
    match p {
        Ok(end) => r is Ok && r->Ok_0 == end,
        Err(e) => r is Err && r->Err_0 == e,
    }
}

} // verus!
