use vstd::prelude::*;

use crate::text::{push_str, string_of};

verus! {

/// The kind of an error reported by the library.
#[derive(Debug, Clone, PartialEq, Eq)]
#[non_exhaustive]
pub enum ErrorKind {
    /// The XML text could not be read.
    Xml,
    /// A required attribute is absent.
    MissingAttribute { element: &'static str, attribute: &'static str },
    /// A required element is absent.
    MissingElement { parent: &'static str, element: &'static str },
    /// An attribute holds a value that cannot be used.
    InvalidAttributeValue { attribute: &'static str },
    /// A duration string does not follow ISO 8601.
    InvalidDuration,
    /// An XPath selector is not valid.
    InvalidXPath,
    /// A patch operation could not be applied.
    PatchFailed,
}

/// An error of the library: its kind and a human readable message.
#[derive(Debug, Clone, PartialEq, Eq)]
pub struct Error {
    kind: ErrorKind,
    message: String,
}

impl Error {
    pub closed spec fn spec_kind(&self) -> ErrorKind {
        self.kind
    }

    pub closed spec fn spec_message(&self) -> Seq<char> {
        self.message@
    }

    /// Builds an error from its kind and message.
    pub fn new(kind: ErrorKind, message: String) -> (e: Error)
        ensures
            e.spec_kind() == kind,
            e.spec_message() == message@,
    {
        Error { kind, message }
    }

    /// Builds an error whose message is `text` followed by `detail`.
    pub fn with_detail(kind: ErrorKind, text: &str, detail: &str) -> (e: Error)
        ensures
            e.spec_kind() == kind,
            e.spec_message() == text@ + detail@,
    {
        let mut v: Vec<char> = Vec::new();
        push_str(&mut v, text);
        push_str(&mut v, detail);
        Error { kind, message: string_of(&v) }
    }

    /// Builds an error whose message is the characters `chars`.
    pub fn from_chars(kind: ErrorKind, chars: &Vec<char>) -> (e: Error)
        ensures
            e.spec_kind() == kind,
            e.spec_message() == chars@,
    {
        Error { kind, message: string_of(chars) }
    }

    /// Builds an error whose message is `text`.
    pub fn with_text(kind: ErrorKind, text: &str) -> (e: Error)
        ensures
            e.spec_kind() == kind,
            e.spec_message() == text@,
    {
        Error { kind, message: String::from_str(text) }
    }

    /// The kind of the error.
    pub fn kind(&self) -> (k: &ErrorKind)
        ensures
            *k == self.spec_kind(),
    {
        &self.kind
    }
}

/// `r` is what `s` describes: the same value, seen through its view, or an
/// error of the same kind.
pub open spec fn result_is<T: View>(r: Result<T, Error>, s: Result<T::V, ErrorKind>) -> bool {
    match (r, s) {
        (Ok(v), Ok(w)) => v@ == w,
        (Err(e), Err(k)) => e.spec_kind() == k,
        _ => false,
    }
}

/// The text that describes an error kind.
pub open spec fn kind_text(k: ErrorKind) -> Seq<char> {
    match k {
        ErrorKind::Xml => "XML parse error"@,
        ErrorKind::MissingAttribute { element, attribute } => "missing required attribute '"@
            + attribute@ + "' on <"@ + element@ + ">"@,
        ErrorKind::MissingElement { parent, element } => "missing required element <"@ + element@
            + "> in <"@ + parent@ + ">"@,
        ErrorKind::InvalidAttributeValue { attribute } => "invalid value for attribute '"@
            + attribute@ + "'"@,
        ErrorKind::InvalidDuration => "invalid ISO 8601 duration"@,
        ErrorKind::InvalidXPath => "invalid XPath selector"@,
        ErrorKind::PatchFailed => "patch operation failed"@,
    }
}

impl ErrorKind {
    /// A human readable description of the kind.
    pub fn describe(&self) -> (r: String)
        ensures
            r@ == kind_text(*self),
    {
        let mut v: Vec<char> = Vec::new();
        match self {
            ErrorKind::Xml => push_str(&mut v, "XML parse error"),
            ErrorKind::MissingAttribute { element, attribute } => {
                push_str(&mut v, "missing required attribute '");
                push_str(&mut v, attribute);
                push_str(&mut v, "' on <");
                push_str(&mut v, element);
                push_str(&mut v, ">");
            },
            ErrorKind::MissingElement { parent, element } => {
                push_str(&mut v, "missing required element <");
                push_str(&mut v, element);
                push_str(&mut v, "> in <");
                push_str(&mut v, parent);
                push_str(&mut v, ">");
            },
            ErrorKind::InvalidAttributeValue { attribute } => {
                push_str(&mut v, "invalid value for attribute '");
                push_str(&mut v, attribute);
                push_str(&mut v, "'");
            },
            ErrorKind::InvalidDuration => push_str(&mut v, "invalid ISO 8601 duration"),
            ErrorKind::InvalidXPath => push_str(&mut v, "invalid XPath selector"),
            ErrorKind::PatchFailed => push_str(&mut v, "patch operation failed"),
        }
        string_of(&v)
    }
}

impl Error {
    /// A human readable description of the error: its kind, then its message.
    pub fn describe(&self) -> (r: String)
        ensures
            r@ == kind_text(self.spec_kind()) + ": "@ + self.spec_message(),
    {
        let k = self.kind.describe();
        let mut v: Vec<char> = Vec::new();
        push_str(&mut v, k.as_str());
        push_str(&mut v, ": ");
        push_str(&mut v, self.message.as_str());
        string_of(&v)
    }
}

} // verus!
