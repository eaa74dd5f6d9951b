use cfg_or_panic::cfg_or_panic;
use cfg_or_panic::error::{ConfigError, ErrorKind, Malformed};
use cfg_or_panic::expand::Expander;
use cfg_or_panic::syntax::{Attribute, Block, Expr, Function, Item, Meta, Signature, Span};

fn panic_return(id: u64, value: Expr) -> Attribute {
    Attribute::Written {
        span: Span { id },
        meta: Meta::NameValue { name: Some("panic_return".to_string()), value },
    }
}

fn function(attrs: Vec<Attribute>) -> Function {
    Function {
        attrs,
        sig: Signature { ident: "f".to_string(), constness: false },
        block: Block::Source(Span { id: 100 }),
    }
}

#[test]
fn struct_at_top_level_is_refused() {
    let out = cfg_or_panic("foo".to_string(), Item::Other(Span { id: 42 }));
    let error = out.unwrap_err();
    assert_eq!(error, ConfigError { span: Span { id: 42 }, kind: ErrorKind::UnsupportedItemKind });
    assert_eq!(
        error.message(),
        "only function items, module blocks, and impl blocks are supported"
    );
}

#[test]
fn refused_item_is_left_as_it_was() {
    let expander = Expander::new("foo".to_string());
    let mut item = Item::Other(Span { id: 42 });
    assert!(expander.expand_item(&mut item).is_err());
    assert_eq!(item, Item::Other(Span { id: 42 }));
}

#[test]
fn value_that_is_no_string_literal_is_refused() {
    let item = Item::Fn(function(vec![panic_return(5, Expr::Other)]));
    let error = cfg_or_panic("foo".to_string(), item).unwrap_err();
    assert_eq!(
        error,
        ConfigError {
            span: Span { id: 5 },
            kind: ErrorKind::MalformedConfigValue(Malformed::NotStringLiteral),
        }
    );
    assert_eq!(error.message(), "expected a string literal");
}

#[test]
fn string_that_is_no_type_is_refused() {
    let item = Item::Fn(function(vec![panic_return(5, Expr::Str("fn fn".to_string()))]));
    let error = cfg_or_panic("foo".to_string(), item).unwrap_err();
    let complaint = syn::parse_str::<syn::Type>("fn fn").err().unwrap().to_string();
    assert!(!complaint.is_empty());
    assert_ne!(complaint, "fn fn");
    assert_eq!(
        error,
        ConfigError {
            span: Span { id: 5 },
            kind: ErrorKind::MalformedConfigValue(Malformed::NotType(complaint.clone())),
        }
    );
    assert_eq!(error.message(), complaint);
}

#[test]
fn string_that_cannot_be_lexed_is_refused() {
    let item = Item::Fn(function(vec![panic_return(5, Expr::Str("Vec<u8".to_string()))]));
    let error = cfg_or_panic("foo".to_string(), item).unwrap_err();
    assert_eq!(error.span, Span { id: 5 });
    assert!(matches!(error.kind, ErrorKind::MalformedConfigValue(Malformed::NotType(_))));
    let unclosed = Item::Fn(function(vec![panic_return(6, Expr::Str("(u8".to_string()))]));
    let error = cfg_or_panic("foo".to_string(), unclosed).unwrap_err();
    assert_eq!(error.span, Span { id: 6 });
    assert!(matches!(error.kind, ErrorKind::MalformedConfigValue(Malformed::NotType(_))));
}

#[test]
fn empty_string_is_no_type() {
    let item = Item::Fn(function(vec![panic_return(5, Expr::Str(String::new()))]));
    let error = cfg_or_panic("foo".to_string(), item).unwrap_err();
    assert!(matches!(error.kind, ErrorKind::MalformedConfigValue(Malformed::NotType(_))));
}

#[test]
fn first_malformed_attribute_is_reported() {
    let item = Item::Fn(function(vec![
        panic_return(1, Expr::Str("u8".to_string())),
        panic_return(2, Expr::Other),
        panic_return(3, Expr::Str("fn fn".to_string())),
        panic_return(4, Expr::Str("u16".to_string())),
    ]));
    let error = cfg_or_panic("foo".to_string(), item).unwrap_err();
    assert_eq!(
        error,
        ConfigError {
            span: Span { id: 2 },
            kind: ErrorKind::MalformedConfigValue(Malformed::NotStringLiteral),
        }
    );
}

#[test]
fn refused_function_is_left_as_it_was() {
    let expander = Expander::new("foo".to_string());
    let attrs = || {
        vec![
            Attribute::Written { span: Span { id: 1 }, meta: Meta::Path },
            panic_return(2, Expr::Str("u8".to_string())),
            panic_return(3, Expr::Other),
            Attribute::Written { span: Span { id: 4 }, meta: Meta::List },
        ]
    };
    let mut f = function(attrs());
    assert!(expander.expand_fn(&mut f).is_err());
    assert_eq!(f, function(attrs()));

    let sig = Signature { ident: "f".to_string(), constness: false };
    let mut block = Block::Source(Span { id: 100 });
    let mut fn_attrs = attrs();
    assert!(expander.expand_fn_inner(&sig, &mut block, &mut fn_attrs).is_err());
    assert_eq!(block, Block::Source(Span { id: 100 }));
    assert_eq!(fn_attrs, attrs());
}
