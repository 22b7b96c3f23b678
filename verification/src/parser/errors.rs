//! The errors of the schema parser.

use vstd::prelude::*;
use crate::text::text_of;

verus! {

/// Why a parameter could not be read.
#[derive(Clone, Debug, PartialEq)]
pub enum ParamParseError {
    /// A name or a type is empty.
    Empty,
    /// Not an error proper: the token `{X:Type}` declares the generic `X`.
    TypeDef { name: String },
    /// A `{…}` that declares nothing, or a reference to a generic or to a
    /// flags field that was not declared before.
    MissingDef,
    /// A flag expression `name.N?Type` is malformed.
    InvalidFlag,
    /// A generic argument is not closed with `>`.
    InvalidGeneric,
    /// A bare name without `:type`.
    NotImplemented,
}

/// A parameter error as contracts see it.
pub enum ParamParseErrorView {
    Empty,
    TypeDef { name: Seq<char> },
    MissingDef,
    InvalidFlag,
    InvalidGeneric,
    NotImplemented,
}

impl View for ParamParseError {
    type V = ParamParseErrorView;

    open spec fn view(&self) -> ParamParseErrorView {
        match self {
            ParamParseError::Empty => ParamParseErrorView::Empty,
            ParamParseError::TypeDef { name } => ParamParseErrorView::TypeDef { name: name@ },
            ParamParseError::MissingDef => ParamParseErrorView::MissingDef,
            ParamParseError::InvalidFlag => ParamParseErrorView::InvalidFlag,
            ParamParseError::InvalidGeneric => ParamParseErrorView::InvalidGeneric,
            ParamParseError::NotImplemented => ParamParseErrorView::NotImplemented,
        }
    }
}

impl ParamParseError {
    /// The error in words.
    pub open spec fn text(self) -> Seq<char> {
        match self {
            ParamParseError::Empty => "empty token"@,
            ParamParseError::TypeDef { name } => "generic type definition: "@ + name@,
            ParamParseError::MissingDef => "unknown generic or flag definition"@,
            ParamParseError::InvalidFlag => "invalid flag expression"@,
            ParamParseError::InvalidGeneric => "invalid generic argument (unclosed `<`)"@,
            ParamParseError::NotImplemented => "parameter without `:type` is not supported"@,
        }
    }

    /// The error in words.
    pub fn to_string(&self) -> (s: String)
        ensures
            s@ == self.text(),
    {
        match self {
            ParamParseError::Empty => text_of("empty token"),
            ParamParseError::TypeDef { name } => text_of("generic type definition: ").concat(
                name.as_str(),
            ),
            ParamParseError::MissingDef => text_of("unknown generic or flag definition"),
            ParamParseError::InvalidFlag => text_of("invalid flag expression"),
            ParamParseError::InvalidGeneric => text_of("invalid generic argument (unclosed `<`)"),
            ParamParseError::NotImplemented => text_of(
                "parameter without `:type` is not supported",
            ),
        }
    }
}

/// Why a constructor ID could not be read.
#[derive(Clone, Copy, Debug, PartialEq, Eq, Structural)]
pub enum IdError {
    /// Nothing follows the `#`.
    Empty,
    /// What follows the `#` is not a hexadecimal number.
    InvalidDigit,
    /// The number does not fit 32 bits.
    Overflow,
}

impl IdError {
    /// The error in words.
    pub open spec fn text(self) -> Seq<char> {
        match self {
            IdError::Empty => "cannot parse integer from empty string"@,
            IdError::InvalidDigit => "invalid digit found in string"@,
            IdError::Overflow => "number too large to fit in target type"@,
        }
    }

    /// The error in words.
    pub fn to_string(&self) -> (s: String)
        ensures
            s@ == self.text(),
    {
        match self {
            IdError::Empty => text_of("cannot parse integer from empty string"),
            IdError::InvalidDigit => text_of("invalid digit found in string"),
            IdError::Overflow => text_of("number too large to fit in target type"),
        }
    }
}

/// Why a definition could not be read.
#[derive(Clone, Debug, PartialEq)]
pub enum ParseError {
    /// The definition is blank.
    Empty,
    /// There is no `= Type`.
    MissingType,
    /// The name is missing, or a part of its namespace is empty.
    MissingName,
    /// The `#id` is not a 32-bit hexadecimal number.
    InvalidId(IdError),
    /// A parameter is invalid.
    InvalidParam(ParamParseError),
    /// The definition uses syntax that is not supported.
    NotImplemented,
}

/// A definition error as contracts see it.
pub enum ParseErrorView {
    Empty,
    MissingType,
    MissingName,
    InvalidId(IdError),
    InvalidParam(ParamParseErrorView),
    NotImplemented,
}

impl View for ParseError {
    type V = ParseErrorView;

    open spec fn view(&self) -> ParseErrorView {
        match self {
            ParseError::Empty => ParseErrorView::Empty,
            ParseError::MissingType => ParseErrorView::MissingType,
            ParseError::MissingName => ParseErrorView::MissingName,
            ParseError::InvalidId(e) => ParseErrorView::InvalidId(*e),
            ParseError::InvalidParam(e) => ParseErrorView::InvalidParam(e@),
            ParseError::NotImplemented => ParseErrorView::NotImplemented,
        }
    }
}

impl ParseError {
    /// The error in words.
    pub open spec fn text(self) -> Seq<char> {
        match self {
            ParseError::Empty => "empty definition"@,
            ParseError::MissingType => "missing `= Type`"@,
            ParseError::MissingName => "missing or malformed name"@,
            ParseError::InvalidId(e) => "invalid constructor ID: "@ + e.text(),
            ParseError::InvalidParam(e) => "invalid parameter: "@ + e.text(),
            ParseError::NotImplemented => "unsupported TL syntax"@,
        }
    }

    /// The error in words.
    pub fn to_string(&self) -> (s: String)
        ensures
            s@ == self.text(),
    {
        match self {
            ParseError::Empty => text_of("empty definition"),
            ParseError::MissingType => text_of("missing `= Type`"),
            ParseError::MissingName => text_of("missing or malformed name"),
            ParseError::InvalidId(e) => text_of("invalid constructor ID: ").concat(
                e.to_string().as_str(),
            ),
            ParseError::InvalidParam(e) => text_of("invalid parameter: ").concat(
                e.to_string().as_str(),
            ),
            ParseError::NotImplemented => text_of("unsupported TL syntax"),
        }
    }
}

} // verus!
