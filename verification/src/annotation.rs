//! The `panic_return` attribute: how it is recognised and what it yields.
//!
//! `#[panic_return = "T"]` on a function names a type `T` for the stub to
//! produce where the function's own return type cannot be named. The value
//! must be a string literal, and the string must spell a type.
//!
//! Whether a string spells a type is for the parser to say. Its verdict on
//! a text is `None` where it accepts the text and its complaint where it
//! does not. Nothing is known of a verdict before it has come back, so what
//! an attribute yields is stated for every verdict, and the functions that
//! ask the parser say that their result is the one for some verdict.

use crate::error::{ConfigError, ConfigErrorView, ErrorKindView, Malformed, MalformedView};
use crate::syntax::{Attribute, AttributeView, Expr, ExprView, Meta, MetaView, Span};
use vstd::prelude::*;
use vstd::string::StringExecFns;

verus! {

/// The name by which the attribute is recognised.
pub open spec fn panic_return_name() -> Seq<char> {
    "panic_return"@
}

/// Reads `text` as a type with `syn::parse_str::<syn::Type>` and returns
/// what the parser said, which is `None` where it accepts the text and
/// else the first message of its error.
///
/// Nothing is claimed of what comes back. Which texts the parser accepts
/// is its own business, and the lexer that it reads them with depends on
/// the process that it runs in.
#[verifier::external_body]
fn check_type_syntax(text: &str) -> (verdict: Option<String>) {
    match syn::parse_str::<syn::Type>(text) {
        Ok(_) => None,
        Err(e) => Some(e.to_string()),
    }
}

/// Whether `attr` is a `panic_return` attribute: one written in the source
/// as `name = value` with the plain identifier `panic_return` for a name.
pub open spec fn is_panic_return(attr: AttributeView) -> bool {
    match attr {
        AttributeView::Written { meta: MetaView::NameValue { name: Some(n), .. }, .. } => n
            == panic_return_name(),
        _ => false,
    }
}

/// What a string-literal value yields under the parser's verdict on its
/// text: the text, or the error that carries the complaint.
pub open spec fn type_or_error(text: Seq<char>, verdict: Option<Seq<char>>, span: Span) -> Result<
    Seq<char>,
    ConfigErrorView,
> {
    match verdict {
        None => Ok(text),
        Some(complaint) => Err(
            ConfigErrorView {
                span,
                kind: ErrorKindView::MalformedConfigValue(MalformedView::NotType(complaint)),
            },
        ),
    }
}

/// What the value of a `panic_return` attribute at `span` yields under a
/// verdict of the parser. A string literal yields the text of the type or
/// the error with the complaint. Anything else yields the error that says
/// so, whatever the verdict.
pub open spec fn annotation_type(value: ExprView, verdict: Option<Seq<char>>, span: Span) -> Result<
    Seq<char>,
    ConfigErrorView,
> {
    match value {
        ExprView::Str(text) => type_or_error(text, verdict, span),
        ExprView::Other => Err(
            ConfigErrorView {
                span,
                kind: ErrorKindView::MalformedConfigValue(MalformedView::NotStringLiteral),
            },
        ),
    }
}

/// What an attribute yields under a verdict of the parser, which is
/// nothing where it is no `panic_return` attribute, and else what its
/// value yields.
pub open spec fn annotation(attr: AttributeView, verdict: Option<Seq<char>>) -> Option<
    Result<Seq<char>, ConfigErrorView>,
> {
    match attr {
        AttributeView::Written { span, meta: MetaView::NameValue { name: Some(n), value } } =>
            if n == panic_return_name() {
                Some(annotation_type(value, verdict, span))
            } else {
                None
            },
        _ => None,
    }
}

/// The view of a text that may be missing.
pub open spec fn option_view(text: Option<String>) -> Option<Seq<char>> {
    match text {
        Some(t) => Some(t@),
        None => None,
    }
}

/// The view of a result of reading a value.
pub open spec fn result_view(r: Result<String, ConfigError>) -> Result<Seq<char>, ConfigErrorView> {
    match r {
        Ok(text) => Ok(text@),
        Err(e) => Err(e@),
    }
}

/// The view of a result of reading an attribute.
pub open spec fn found_view(r: Option<Result<String, ConfigError>>) -> Option<
    Result<Seq<char>, ConfigErrorView>,
> {
    match r {
        Some(found) => Some(result_view(found)),
        None => None,
    }
}

/// Decides on a string-literal value once the parser has spoken: the text
/// is the type where the verdict is `None`, else the error at `span` that
/// carries the complaint.
pub fn accept_type(text: String, verdict: Option<String>, span: Span) -> (r: Result<
    String,
    ConfigError,
>)
    ensures
        result_view(r) == type_or_error(text@, option_view(verdict), span),
{
    match verdict {
        None => Ok(text),
        Some(complaint) => Err(ConfigError::malformed(span, Malformed::NotType(complaint))),
    }
}

/// Reads the value of a `panic_return` attribute at `span`.
///
/// A value that is no string literal gives the error that says so. For a
/// string literal the parser is asked once, and the result is what its
/// verdict makes of the text: the text itself, or the error at `span` with
/// the parser's complaint.
pub fn parse_panic_return_attr(value_expr: &Expr, span: Span) -> (r: Result<String, ConfigError>)
    ensures
        value_expr@ is Other ==> result_view(r) == annotation_type(value_expr@, None, span),
        exists|verdict: Option<Seq<char>>|
            result_view(r) == #[trigger] annotation_type(value_expr@, verdict, span),
{
    match value_expr {
        Expr::Str(text) => {
            let verdict = check_type_syntax(text.as_str());
            let ghost said = option_view(verdict);
            let r = accept_type(text.clone(), verdict, span);
            assert(result_view(r) == annotation_type(value_expr@, said, span));
            r
        },
        Expr::Other => {
            let r = Err(ConfigError::malformed(span, Malformed::NotStringLiteral));
            assert(result_view(r) == annotation_type(value_expr@, None, span));
            r
        },
    }
}

/// Whether `attr` is a `panic_return` attribute.
pub fn is_annotation(attr: &Attribute) -> (b: bool)
    ensures
        b == is_panic_return(attr@),
{
    match attr {
        Attribute::Written { span: _, meta: Meta::NameValue { name: Some(n), value: _ } } => {
            let recognised = String::from_str("panic_return");
            *n == recognised
        },
        _ => false,
    }
}

/// Reads `attr` as a `panic_return` attribute.
///
/// Returns `None` where it is not one, which no verdict has a part in, and
/// else what its value yields under the verdict of the parser.
pub fn extract_panic_return_attr(attr: &Attribute) -> (r: Option<Result<String, ConfigError>>)
    ensures
        r is Some <==> is_panic_return(attr@),
        exists|verdict: Option<Seq<char>>| found_view(r) == #[trigger] annotation(attr@, verdict),
{
    if !is_annotation(attr) {
        assert(found_view(None) == annotation(attr@, None));
        return None;
    }
    match attr {
        Attribute::Written { span, meta: Meta::NameValue { name: _, value } } => {
            let found = parse_panic_return_attr(value, *span);
            proof {
                let verdict = choose|verdict: Option<Seq<char>>|
                    result_view(found) == #[trigger] annotation_type(value@, verdict, *span);
                assert(found_view(Some(found)) == annotation(attr@, verdict));
            }
            Some(found)
        },
        _ => None,
    }
}

} // verus!
