//! A skeleton of the annotated item.
//!
//! The tree holds what the rewriting reads of the parsed source and nothing
//! else. Source that is only carried along (a block as written, an item of a
//! kind that is left alone) is stood for by its [`Span`], by which the front
//! end that parsed the item finds it again. Nodes that the rewriting creates
//! are variants of their own and say what code they stand for.
//!
//! Every type has a view in which text is a `Seq<char>` and a list a `Seq`;
//! the contracts of the crate speak of these views.

use vstd::prelude::*;

verus! {

/// A source location, as the host that parsed the item names it.
#[derive(Clone, Copy, Debug, PartialEq, Eq, Structural)]
pub struct Span {
    pub id: u64,
}

/// The value of a `name = value` attribute.
#[derive(Debug, PartialEq, Eq)]
pub enum Expr {
    /// A string literal, with the text that it denotes.
    Str(String),
    /// Any other expression.
    Other,
}

#[verifier::ext_equal]
pub enum ExprView {
    Str(Seq<char>),
    Other,
}

impl View for Expr {
    type V = ExprView;

    open spec fn view(&self) -> ExprView {
        match self {
            Expr::Str(text) => ExprView::Str(text@),
            Expr::Other => ExprView::Other,
        }
    }
}

/// What stands between the brackets of an attribute.
#[derive(Debug, PartialEq, Eq)]
pub enum Meta {
    /// A bare path, `#[inline]`.
    Path,
    /// A path with arguments, `#[derive(Clone)]`.
    List,
    /// `path = value`. `name` is the path where it is one plain identifier.
    NameValue { name: Option<String>, value: Expr },
}

#[verifier::ext_equal]
pub enum MetaView {
    Path,
    List,
    NameValue { name: Option<Seq<char>>, value: ExprView },
}

impl View for Meta {
    type V = MetaView;

    open spec fn view(&self) -> MetaView {
        match self {
            Meta::Path => MetaView::Path,
            Meta::List => MetaView::List,
            Meta::NameValue { name, value } => MetaView::NameValue {
                name: match name {
                    Some(n) => Some(n@),
                    None => None,
                },
                value: value@,
            },
        }
    }
}

/// An attribute on a function.
#[derive(Debug, PartialEq, Eq)]
pub enum Attribute {
    /// An attribute as written in the source.
    Written { span: Span, meta: Meta },
    /// `#[cfg_attr(not(predicate), allow(unused_variables))]`: where the
    /// predicate is false, parameters may go unused.
    AllowUnused { predicate: String },
}

#[verifier::ext_equal]
pub enum AttributeView {
    Written { span: Span, meta: MetaView },
    AllowUnused { predicate: Seq<char> },
}

impl View for Attribute {
    type V = AttributeView;

    open spec fn view(&self) -> AttributeView {
        match self {
            Attribute::Written { span, meta } => AttributeView::Written { span: *span, meta: meta@ },
            Attribute::AllowUnused { predicate } => AttributeView::AllowUnused {
                predicate: predicate@,
            },
        }
    }
}

/// The views of a list of attributes, in order.
pub open spec fn attribute_views(attrs: Seq<Attribute>) -> Seq<AttributeView> {
    attrs.map_values(|a: Attribute| a@)
}

/// What the rewriting reads of a function's signature.
#[derive(Debug, PartialEq, Eq)]
pub struct Signature {
    /// The function's name.
    pub ident: String,
    /// Whether the function is declared `const`.
    pub constness: bool,
}

pub struct SignatureView {
    pub ident: Seq<char>,
    pub constness: bool,
}

impl View for Signature {
    type V = SignatureView;

    open spec fn view(&self) -> SignatureView {
        SignatureView { ident: self.ident@, constness: self.constness }
    }
}

/// The statement that stands in for a function's body where its predicate
/// is false. It fails at run time whenever it is reached.
#[derive(Debug, PartialEq, Eq)]
pub struct Stub {
    /// The message that the failure carries; `None` for a failure without
    /// one, which is what a `const` function gets.
    pub message: Option<String>,
    /// The type of the local that the failure initialises and that is then
    /// returned, for a function whose return type cannot be named.
    pub placeholder: Option<String>,
}

#[verifier::ext_equal]
pub struct StubView {
    pub message: Option<Seq<char>>,
    pub placeholder: Option<Seq<char>>,
}

impl View for Stub {
    type V = StubView;

    open spec fn view(&self) -> StubView {
        StubView {
            message: match self.message {
                Some(m) => Some(m@),
                None => None,
            },
            placeholder: match self.placeholder {
                Some(p) => Some(p@),
                None => None,
            },
        }
    }
}

/// A function body.
#[derive(Debug, PartialEq, Eq)]
pub enum Block {
    /// A block as written in the source.
    Source(Span),
    /// `{ #[cfg(not(predicate))] stub  #[cfg(predicate)] body }`: the stub
    /// where the predicate is false, the former body where it is true.
    Gated { predicate: String, stub: Stub, body: Box<Block> },
}

#[verifier::ext_equal]
pub enum BlockView {
    Source(Span),
    Gated { predicate: Seq<char>, stub: StubView, body: Box<BlockView> },
}

impl Block {
    pub open spec fn model(self) -> BlockView
        decreases self,
    {
        match self {
            Block::Source(span) => BlockView::Source(span),
            Block::Gated { predicate, stub, body } => BlockView::Gated {
                predicate: predicate@,
                stub: stub@,
                body: Box::new(body.model()),
            },
        }
    }
}

impl View for Block {
    type V = BlockView;

    open spec fn view(&self) -> BlockView {
        self.model()
    }
}

/// A function: a free one, or a method of an impl block.
#[derive(Debug, PartialEq, Eq)]
pub struct Function {
    pub attrs: Vec<Attribute>,
    pub sig: Signature,
    pub block: Block,
}

#[verifier::ext_equal]
pub struct FunctionView {
    pub attrs: Seq<AttributeView>,
    pub sig: SignatureView,
    pub block: BlockView,
}

impl View for Function {
    type V = FunctionView;

    open spec fn view(&self) -> FunctionView {
        FunctionView { attrs: attribute_views(self.attrs@), sig: self.sig@, block: self.block@ }
    }
}

/// A member of an impl block.
#[derive(Debug, PartialEq, Eq)]
pub enum ImplItem {
    /// A method.
    Fn(Function),
    /// An associated constant, an associated type, or anything else.
    Other(Span),
}

#[verifier::ext_equal]
pub enum ImplItemView {
    Fn(FunctionView),
    Other(Span),
}

impl View for ImplItem {
    type V = ImplItemView;

    open spec fn view(&self) -> ImplItemView {
        match self {
            ImplItem::Fn(f) => ImplItemView::Fn(f@),
            ImplItem::Other(span) => ImplItemView::Other(*span),
        }
    }
}

/// The views of the members of an impl block, in order.
pub open spec fn member_views(items: Seq<ImplItem>) -> Seq<ImplItemView> {
    items.map_values(|m: ImplItem| m@)
}

/// An impl block.
#[derive(Debug, PartialEq, Eq)]
pub struct ItemImpl {
    pub items: Vec<ImplItem>,
}

/// A module. `content` is `None` where the module is declared without a
/// body, `mod name;`.
#[derive(Debug, PartialEq, Eq)]
pub struct ItemMod {
    pub content: Option<Vec<Item>>,
}

/// An item.
#[derive(Debug, PartialEq, Eq)]
pub enum Item {
    Fn(Function),
    Impl(ItemImpl),
    Mod(ItemMod),
    /// An item of any other kind: a struct, an enum, a trait, a constant.
    Other(Span),
}

#[verifier::ext_equal]
pub enum ItemView {
    Fn(FunctionView),
    Impl(Seq<ImplItemView>),
    Mod(Option<Seq<ItemView>>),
    Other(Span),
}

impl Item {
    pub open spec fn model(self) -> ItemView
        decreases self,
    {
        match self {
            Item::Fn(f) => ItemView::Fn(f@),
            Item::Impl(item_impl) => ItemView::Impl(member_views(item_impl.items@)),
            Item::Mod(item_mod) => ItemView::Mod(
                match item_mod.content {
                    Some(items) => Some(
                        Seq::new(
                            items@.len(),
                            |i: int|
                                if 0 <= i < items@.len() {
                                    items@[i].model()
                                } else {
                                    ItemView::Mod(None)
                                },
                        ),
                    ),
                    None => None,
                },
            ),
            Item::Other(span) => ItemView::Other(span),
        }
    }
}

impl View for Item {
    type V = ItemView;

    open spec fn view(&self) -> ItemView {
        self.model()
    }
}

/// The views of a list of items, in order.
pub open spec fn item_views(items: Seq<Item>) -> Seq<ItemView> {
    items.map_values(|i: Item| i@)
}

} // verus!
