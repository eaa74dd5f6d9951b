use cfg_or_panic::cfg_or_panic;
use cfg_or_panic::expand::Expander;
use cfg_or_panic::syntax::{
    Attribute, Block, Expr, Function, ImplItem, Item, ItemImpl, Meta, Signature, Span, Stub,
};

#[derive(Clone, Copy, PartialEq, Eq, Debug)]
struct Int(i32);

fn method(name: &str, id: u64) -> Function {
    Function {
        attrs: vec![],
        sig: Signature { ident: name.to_string(), constness: false },
        block: Block::Source(Span { id }),
    }
}

/// ```text
/// impl Int {
///     fn my_add(&self, b: i32) -> Int { Int(self.0 + b) }
/// }
/// ```
fn inherent_impl() -> Item {
    Item::Impl(ItemImpl { items: vec![ImplItem::Fn(method("my_add", 1))] })
}

/// ```text
/// impl Add<i32> for Int {
///     type Output = Int;
///     fn add(self, rhs: i32) -> Self::Output { self.my_add(rhs) }
/// }
/// ```
fn trait_impl() -> Item {
    Item::Impl(ItemImpl {
        items: vec![ImplItem::Other(Span { id: 1 }), ImplItem::Fn(method("add", 2))],
    })
}

/// A call of a function with the given body in a build in which the
/// predicate holds or does not: the value of the body as written, or the
/// message of the stub that fails.
fn call<T>(block: &Block, holds: bool, written: &dyn Fn() -> T) -> Result<T, Option<String>> {
    match block {
        Block::Source(_) => Ok(written()),
        Block::Gated { stub, body, .. } => {
            if holds {
                call(body, holds, written)
            } else {
                Err(stub.message.clone())
            }
        }
    }
}

#[test]
fn test_fn() {
    let Ok(Item::Impl(rewritten)) = cfg_or_panic("foo".to_string(), inherent_impl()) else {
        panic!("an impl block is rewritten");
    };
    let [ImplItem::Fn(my_add)] = &rewritten.items[..] else {
        panic!("the method is still a method");
    };
    assert_eq!(call(&my_add.block, true, &|| Int(Int(1).0 + 2)), Ok(Int(3)));
    assert!(call(&my_add.block, false, &|| Int(Int(1).0 + 2)).is_err());
}

#[test]
fn test_trait_fn() {
    let Ok(Item::Impl(rewritten)) = cfg_or_panic("foo".to_string(), trait_impl()) else {
        panic!("an impl block is rewritten");
    };
    let [ImplItem::Other(output), ImplItem::Fn(add)] = &rewritten.items[..] else {
        panic!("the members keep their places");
    };
    assert_eq!(*output, Span { id: 1 });
    assert_eq!(call(&add.block, true, &|| Int(Int(1).0 + 2)), Ok(Int(3)));
    assert!(call(&add.block, false, &|| Int(Int(1).0 + 2)).is_err());
}

#[test]
fn methods_are_rewritten_and_other_members_stay() {
    let Ok(Item::Impl(rewritten)) = cfg_or_panic("foo".to_string(), trait_impl()) else {
        panic!("an impl block is rewritten");
    };
    assert_eq!(
        rewritten.items,
        vec![
            ImplItem::Other(Span { id: 1 }),
            ImplItem::Fn(Function {
                attrs: vec![Attribute::AllowUnused { predicate: "foo".to_string() }],
                sig: Signature { ident: "add".to_string(), constness: false },
                block: Block::Gated {
                    predicate: "foo".to_string(),
                    stub: Stub {
                        message: Some(
                            "function 'add' unimplemented unless #[cfg(foo)] is activated"
                                .to_string()
                        ),
                        placeholder: None,
                    },
                    body: Box::new(Block::Source(Span { id: 2 })),
                },
            }),
        ]
    );
}

#[test]
fn empty_impl_block_stays_empty() {
    let out = cfg_or_panic("foo".to_string(), Item::Impl(ItemImpl { items: vec![] }));
    assert_eq!(out, Ok(Item::Impl(ItemImpl { items: vec![] })));
}

fn malformed(name: &str, id: u64, at: u64, value: Expr) -> Function {
    let mut f = method(name, id);
    f.attrs.push(Attribute::Written {
        span: Span { id: at },
        meta: Meta::NameValue { name: Some("panic_return".to_string()), value },
    });
    f
}

fn rewritten(name: &str, id: u64) -> Function {
    Function {
        attrs: vec![Attribute::AllowUnused { predicate: "foo".to_string() }],
        sig: Signature { ident: name.to_string(), constness: false },
        block: Block::Gated {
            predicate: "foo".to_string(),
            stub: Stub {
                message: Some(format!(
                    "function '{}' unimplemented unless #[cfg(foo)] is activated",
                    name
                )),
                placeholder: None,
            },
            body: Box::new(Block::Source(Span { id })),
        },
    }
}

#[test]
fn malformed_method_stays_and_the_others_are_rewritten() {
    let item = Item::Impl(ItemImpl {
        items: vec![
            ImplItem::Fn(method("first", 1)),
            ImplItem::Other(Span { id: 2 }),
            ImplItem::Fn(malformed("second", 3, 7, Expr::Other)),
            ImplItem::Fn(method("third", 4)),
            ImplItem::Fn(malformed("fourth", 5, 8, Expr::Str("fn fn".to_string()))),
            ImplItem::Fn(method("fifth", 6)),
        ],
    });
    let expected = Item::Impl(ItemImpl {
        items: vec![
            ImplItem::Fn(rewritten("first", 1)),
            ImplItem::Other(Span { id: 2 }),
            ImplItem::Fn(malformed("second", 3, 7, Expr::Other)),
            ImplItem::Fn(rewritten("third", 4)),
            ImplItem::Fn(malformed("fourth", 5, 8, Expr::Str("fn fn".to_string()))),
            ImplItem::Fn(rewritten("fifth", 6)),
        ],
    });
    assert_eq!(cfg_or_panic("foo".to_string(), item), Ok(expected));
}

#[test]
fn impl_block_of_malformed_methods_only_is_not_refused() {
    let block = || {
        Item::Impl(ItemImpl {
            items: vec![ImplItem::Fn(malformed("only", 1, 2, Expr::Other))],
        })
    };
    assert_eq!(cfg_or_panic("foo".to_string(), block()), Ok(block()));
}

#[test]
fn expand_impl_never_fails() {
    let expander = Expander::new("foo".to_string());
    let mut block = ItemImpl {
        items: vec![
            ImplItem::Fn(malformed("broken", 1, 2, Expr::Other)),
            ImplItem::Fn(method("fine", 3)),
        ],
    };
    assert_eq!(expander.expand_impl(&mut block), Ok(()));
    assert_eq!(
        block,
        ItemImpl {
            items: vec![
                ImplItem::Fn(malformed("broken", 1, 2, Expr::Other)),
                ImplItem::Fn(rewritten("fine", 3)),
            ],
        }
    );
}
