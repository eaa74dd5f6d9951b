use cfg_or_panic::cfg_or_panic;
use cfg_or_panic::expand::Expander;
use cfg_or_panic::syntax::{
    Attribute, Block, Expr, Function, ImplItem, Item, ItemImpl, ItemMod, Meta, Signature, Span,
    Stub,
};

fn function(name: &str, id: u64) -> Function {
    Function {
        attrs: vec![],
        sig: Signature { ident: name.to_string(), constness: false },
        block: Block::Source(Span { id }),
    }
}

fn rewritten(name: &str, id: u64, predicate: &str) -> Function {
    Function {
        attrs: vec![Attribute::AllowUnused { predicate: predicate.to_string() }],
        sig: Signature { ident: name.to_string(), constness: false },
        block: Block::Gated {
            predicate: predicate.to_string(),
            stub: Stub {
                message: Some(format!(
                    "function '{}' unimplemented unless #[cfg({})] is activated",
                    name, predicate
                )),
                placeholder: None,
            },
            body: Box::new(Block::Source(Span { id })),
        },
    }
}

/// A call of a function with the given body in a build in which the
/// predicate holds or does not: the value of the body as written, or the
/// message of the stub that fails.
fn call<T>(block: &Block, holds: bool, written: &dyn Fn() -> T) -> Result<T, Option<String>> {
    match block {
        Block::Source(_) => Ok(written()),
        Block::Gated { stub, body, .. } => {
            if holds {
                call(body, holds, written)
            } else {
                Err(stub.message.clone())
            }
        }
    }
}

#[test]
fn mod_test() {
    // mod inner { pub fn add(a: i32, b: i32) -> i32 { a + b } }
    let inner = Item::Mod(ItemMod { content: Some(vec![Item::Fn(function("add", 1))]) });
    let Ok(Item::Mod(inner)) = cfg_or_panic("foo".to_string(), inner) else {
        panic!("a module is rewritten");
    };
    let Some([Item::Fn(add)]) = inner.content.as_deref() else {
        panic!("the function is still in the module");
    };
    assert_eq!(call(&add.block, true, &|| 1 + 2), Ok(3));
    assert!(call(&add.block, false, &|| 1 + 2).is_err());
}

#[test]
fn module_without_body_is_accepted_and_left_alone() {
    let out = cfg_or_panic("foo".to_string(), Item::Mod(ItemMod { content: None }));
    assert_eq!(out, Ok(Item::Mod(ItemMod { content: None })));
}

#[test]
fn module_rewrites_functions_and_leaves_other_items() {
    let module = Item::Mod(ItemMod {
        content: Some(vec![
            Item::Fn(function("sub", 1)),
            Item::Other(Span { id: 2 }),
            Item::Impl(ItemImpl {
                items: vec![ImplItem::Other(Span { id: 3 }), ImplItem::Fn(function("foo", 4))],
            }),
            Item::Mod(ItemMod {
                content: Some(vec![Item::Other(Span { id: 5 }), Item::Fn(function("deep", 6))]),
            }),
            Item::Mod(ItemMod { content: None }),
        ]),
    });
    let expected = Item::Mod(ItemMod {
        content: Some(vec![
            Item::Fn(rewritten("sub", 1, "not_set")),
            Item::Other(Span { id: 2 }),
            Item::Impl(ItemImpl {
                items: vec![
                    ImplItem::Other(Span { id: 3 }),
                    ImplItem::Fn(rewritten("foo", 4, "not_set")),
                ],
            }),
            Item::Mod(ItemMod {
                content: Some(vec![
                    Item::Other(Span { id: 5 }),
                    Item::Fn(rewritten("deep", 6, "not_set")),
                ]),
            }),
            Item::Mod(ItemMod { content: None }),
        ]),
    });
    assert_eq!(cfg_or_panic("not_set".to_string(), module), Ok(expected));
}

#[test]
fn malformed_function_in_a_module_stays_as_written() {
    let mut broken = function("broken", 2);
    broken.attrs.push(Attribute::Written { span: Span { id: 9 }, meta: Meta::Path });
    broken.attrs.push(Attribute::Written {
        span: Span { id: 10 },
        meta: Meta::NameValue { name: Some("panic_return".to_string()), value: Expr::Other },
    });
    let as_written = Function {
        attrs: vec![
            Attribute::Written { span: Span { id: 9 }, meta: Meta::Path },
            Attribute::Written {
                span: Span { id: 10 },
                meta: Meta::NameValue {
                    name: Some("panic_return".to_string()),
                    value: Expr::Other,
                },
            },
        ],
        sig: Signature { ident: "broken".to_string(), constness: false },
        block: Block::Source(Span { id: 2 }),
    };
    let module = Item::Mod(ItemMod {
        content: Some(vec![
            Item::Fn(function("before", 1)),
            Item::Fn(broken),
            Item::Fn(function("after", 3)),
        ]),
    });
    let expected = Item::Mod(ItemMod {
        content: Some(vec![
            Item::Fn(rewritten("before", 1, "foo")),
            Item::Fn(as_written),
            Item::Fn(rewritten("after", 3, "foo")),
        ]),
    });
    assert_eq!(cfg_or_panic("foo".to_string(), module), Ok(expected));
}

#[test]
fn impl_block_in_a_module_keeps_its_malformed_method_and_rewrites_the_rest() {
    let broken = || Function {
        attrs: vec![Attribute::Written {
            span: Span { id: 10 },
            meta: Meta::NameValue {
                name: Some("panic_return".to_string()),
                value: Expr::Str("fn fn".to_string()),
            },
        }],
        sig: Signature { ident: "broken".to_string(), constness: false },
        block: Block::Source(Span { id: 2 }),
    };
    let module = Item::Mod(ItemMod {
        content: Some(vec![
            Item::Impl(ItemImpl {
                items: vec![
                    ImplItem::Fn(broken()),
                    ImplItem::Fn(function("fine", 1)),
                ],
            }),
            Item::Fn(function("after", 3)),
        ]),
    });
    let expected = Item::Mod(ItemMod {
        content: Some(vec![
            Item::Impl(ItemImpl {
                items: vec![
                    ImplItem::Fn(broken()),
                    ImplItem::Fn(rewritten("fine", 1, "foo")),
                ],
            }),
            Item::Fn(rewritten("after", 3, "foo")),
        ]),
    });
    assert_eq!(cfg_or_panic("foo".to_string(), module), Ok(expected));
}

#[test]
fn expand_mod_never_fails() {
    let expander = Expander::new("foo".to_string());
    let mut module = ItemMod { content: Some(vec![Item::Other(Span { id: 1 })]) };
    assert_eq!(expander.expand_mod(&mut module), Ok(()));
    assert_eq!(module, ItemMod { content: Some(vec![Item::Other(Span { id: 1 })]) });
    let mut empty = ItemMod { content: Some(vec![]) };
    assert_eq!(expander.expand_mod(&mut empty), Ok(()));
    assert_eq!(empty, ItemMod { content: Some(vec![]) });
}
