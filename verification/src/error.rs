use vstd::prelude::*;

use crate::text::spec_decimal;
use crate::text::decimal_string;

verus! {

/// The numeric type a token failed to parse as.
#[derive(Clone, Copy, PartialEq, Eq, Structural, Debug)]
pub enum NumericKind {
    Float,
    Int,
    Unsigned,
}

/// Every way an import can fail.  The import is fail-fast: the first error
/// anywhere aborts the whole parse, so exactly one of these is ever surfaced.
#[derive(Clone, Debug)]
pub enum Error {
    /// The document's file name is not representable as unicode text.
    NonRepresentableFileName,
    /// The document's file could not be opened or read.
    FileAccess { file_name: String, message: String },
    /// The element tree itself could not be built from the file's bytes.
    MalformedXml { message: String },
    /// An element lacks a required attribute.
    MissingAttribute { element_name: String, attribute_name: String },
    /// An element lacks a required child element (`ambiguous` is set when
    /// instead of exactly one matching child there were several).
    MissingElement { element_name: String, child_name: String, ambiguous: bool },
    /// An element that must carry text between its tags carries none.
    MissingText { element_name: String },
    /// A token could not be parsed as a number of the named kind.
    NumericParse { kind: NumericKind, field: String, token: String },
    /// A library entry was declared twice under one ID in one registry scope.
    DuplicateId { scope: String, id: String },
    /// A reference names an ID that no registry entry declares.
    UnresolvedReference { scope: String, id: String },
    /// A flattened data or index block ran out of tokens before the
    /// declared counts were satisfied.
    UnexpectedEndOfData { context: String },
    /// Declared counts, strides and array lengths disagree.
    CardinalityMismatch { description: String, expected: usize, found: usize },
    /// A structural rule of the format is broken (non-contiguous stream
    /// offsets, an empty parameter list, a node that matches two
    /// classifications, and the like).
    StructuralInvariant { description: String },
}

/// The phrase naming a numeric kind.
pub open spec fn spec_kind_tag(kind: NumericKind) -> Seq<char> {
    match kind {
        NumericKind::Float => "float"@,
        NumericKind::Int => "integer"@,
        NumericKind::Unsigned => "unsigned integer"@,
    }
}

/// The one-line message an error describes itself with.
pub open spec fn spec_describe(e: Error) -> Seq<char> {
    match e {
        Error::NonRepresentableFileName => "the file name is not representable as text"@,
        Error::FileAccess { file_name, message } => "cannot read \""@ + file_name@ + "\": "@
            + message@,
        Error::MalformedXml { message } => "malformed document: "@ + message@,
        Error::MissingAttribute { element_name, attribute_name } => "element \""@ + element_name@
            + "\" has no attribute \""@ + attribute_name@ + "\""@,
        Error::MissingElement { element_name, child_name, ambiguous } => if ambiguous {
            "element \""@ + element_name@ + "\" holds more than one element \""@ + child_name@
                + "\""@
        } else {
            "element \""@ + element_name@ + "\" holds no element \""@ + child_name@ + "\""@
        },
        Error::MissingText { element_name } => "element \""@ + element_name@ + "\" holds no text"@,
        Error::NumericParse { kind, field, token } => "cannot parse \""@ + token@ + "\" of "@
            + field@ + " as a "@ + spec_kind_tag(kind),
        Error::DuplicateId { scope, id } => "duplicate "@ + scope@ + " \""@ + id@ + "\""@,
        Error::UnresolvedReference { scope, id } => "no "@ + scope@ + " \""@ + id@ + "\" exists"@,
        Error::UnexpectedEndOfData { context } => "not all values of the "@ + context@
            + " block could be read"@,
        Error::CardinalityMismatch { description, expected, found } => description@ + " (expected "@
            + spec_decimal(expected as int) + ", found "@ + spec_decimal(found as int) + ")"@,
        Error::StructuralInvariant { description } => description@,
    }
}

impl Error {
    /// The error's one-line description.
    pub fn describe(&self) -> (r: String)
        ensures
            r@ == spec_describe(*self),
    {
        match self {
            Error::NonRepresentableFileName => (
            "the file name is not representable as text").to_owned(),
            Error::FileAccess { file_name, message } => {
                let mut r = ("cannot read \"").to_owned();
                r.append(file_name.as_str());
                r.append("\": ");
                r.append(message.as_str());
                r
            },
            Error::MalformedXml { message } => {
                let mut r = ("malformed document: ").to_owned();
                r.append(message.as_str());
                r
            },
            Error::MissingAttribute { element_name, attribute_name } => {
                let mut r = ("element \"").to_owned();
                r.append(element_name.as_str());
                r.append("\" has no attribute \"");
                r.append(attribute_name.as_str());
                r.append("\"");
                r
            },
            Error::MissingElement { element_name, child_name, ambiguous } => {
                let mut r = ("element \"").to_owned();
                r.append(element_name.as_str());
                if *ambiguous {
                    r.append("\" holds more than one element \"");
                } else {
                    r.append("\" holds no element \"");
                }
                r.append(child_name.as_str());
                r.append("\"");
                r
            },
            Error::MissingText { element_name } => {
                let mut r = ("element \"").to_owned();
                r.append(element_name.as_str());
                r.append("\" holds no text");
                r
            },
            Error::NumericParse { kind, field, token } => {
                let mut r = ("cannot parse \"").to_owned();
                r.append(token.as_str());
                r.append("\" of ");
                r.append(field.as_str());
                r.append(" as a ");
                match kind {
                    NumericKind::Float => r.append("float"),
                    NumericKind::Int => r.append("integer"),
                    NumericKind::Unsigned => r.append("unsigned integer"),
                }
                r
            },
            Error::DuplicateId { scope, id } => {
                let mut r = ("duplicate ").to_owned();
                r.append(scope.as_str());
                r.append(" \"");
                r.append(id.as_str());
                r.append("\"");
                r
            },
            Error::UnresolvedReference { scope, id } => {
                let mut r = ("no ").to_owned();
                r.append(scope.as_str());
                r.append(" \"");
                r.append(id.as_str());
                r.append("\" exists");
                r
            },
            Error::UnexpectedEndOfData { context } => {
                let mut r = ("not all values of the ").to_owned();
                r.append(context.as_str());
                r.append(" block could be read");
                r
            },
            Error::CardinalityMismatch { description, expected, found } => {
                let mut r = description.clone();
                r.append(" (expected ");
                let exp = decimal_string(*expected);
                r.append(exp.as_str());
                r.append(", found ");
                let fnd = decimal_string(*found);
                r.append(fnd.as_str());
                r.append(")");
                r
            },
            Error::StructuralInvariant { description } => description.clone(),
        }
    }
}

} // verus!
