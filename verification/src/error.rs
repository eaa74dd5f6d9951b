//! What the rewriting reports in place of a rewritten item.

use crate::syntax::Span;
use vstd::prelude::*;
use vstd::string::StringExecFns;

verus! {

/// Why the value of a `panic_return` attribute was not accepted.
#[derive(Clone, Debug, PartialEq, Eq)]
pub enum Malformed {
    /// The value is not a string literal.
    NotStringLiteral,
    /// The string does not spell a type; the parser's complaint is carried.
    NotType(String),
}

#[verifier::ext_equal]
pub enum MalformedView {
    NotStringLiteral,
    NotType(Seq<char>),
}

impl View for Malformed {
    type V = MalformedView;

    open spec fn view(&self) -> MalformedView {
        match self {
            Malformed::NotStringLiteral => MalformedView::NotStringLiteral,
            Malformed::NotType(complaint) => MalformedView::NotType(complaint@),
        }
    }
}

/// The kinds of error.
#[derive(Clone, Debug, PartialEq, Eq)]
pub enum ErrorKind {
    /// The annotated item is not a function, a module or an impl block.
    UnsupportedItemKind,
    /// A `panic_return` attribute has a value that cannot be used.
    MalformedConfigValue(Malformed),
}

#[verifier::ext_equal]
pub enum ErrorKindView {
    UnsupportedItemKind,
    MalformedConfigValue(MalformedView),
}

impl View for ErrorKind {
    type V = ErrorKindView;

    open spec fn view(&self) -> ErrorKindView {
        match self {
            ErrorKind::UnsupportedItemKind => ErrorKindView::UnsupportedItemKind,
            ErrorKind::MalformedConfigValue(m) => ErrorKindView::MalformedConfigValue(m@),
        }
    }
}

/// An error of the rewriting: what is wrong, and the source location of
/// the item or attribute that is at fault.
#[derive(Clone, Debug, PartialEq, Eq)]
pub struct ConfigError {
    pub span: Span,
    pub kind: ErrorKind,
}

#[verifier::ext_equal]
pub struct ConfigErrorView {
    pub span: Span,
    pub kind: ErrorKindView,
}

impl View for ConfigError {
    type V = ConfigErrorView;

    open spec fn view(&self) -> ConfigErrorView {
        ConfigErrorView { span: self.span, kind: self.kind@ }
    }
}

/// The message for an item of an unsupported kind.
pub open spec fn unsupported_item_message() -> Seq<char> {
    "only function items, module blocks, and impl blocks are supported"@
}

/// The message for an attribute value that is not a string literal.
pub open spec fn not_string_literal_message() -> Seq<char> {
    "expected a string literal"@
}

impl ErrorKindView {
    /// The text of the diagnostic.
    pub open spec fn message(self) -> Seq<char> {
        match self {
            ErrorKindView::UnsupportedItemKind => unsupported_item_message(),
            ErrorKindView::MalformedConfigValue(MalformedView::NotStringLiteral) =>
                not_string_literal_message(),
            ErrorKindView::MalformedConfigValue(MalformedView::NotType(complaint)) => complaint,
        }
    }
}

impl ConfigError {
    /// The error for an item of an unsupported kind at `span`.
    pub fn unsupported(span: Span) -> (e: ConfigError)
        ensures
            e@ == (ConfigErrorView { span, kind: ErrorKindView::UnsupportedItemKind }),
    {
        ConfigError { span, kind: ErrorKind::UnsupportedItemKind }
    }

    /// The error for a `panic_return` attribute at `span` whose value is
    /// malformed in the way `cause` says.
    pub fn malformed(span: Span, cause: Malformed) -> (e: ConfigError)
        ensures
            e@ == (ConfigErrorView { span, kind: ErrorKindView::MalformedConfigValue(cause@) }),
    {
        ConfigError { span, kind: ErrorKind::MalformedConfigValue(cause) }
    }

    /// The text of the diagnostic.
    pub fn message(&self) -> (text: String)
        ensures
            text@ == self@.kind.message(),
    {
        match &self.kind {
            ErrorKind::UnsupportedItemKind => String::from_str(
                "only function items, module blocks, and impl blocks are supported",
            ),
            ErrorKind::MalformedConfigValue(Malformed::NotStringLiteral) => String::from_str(
                "expected a string literal",
            ),
            ErrorKind::MalformedConfigValue(Malformed::NotType(complaint)) => complaint.clone(),
        }
    }
}

} // verus!
