//! What a build makes of a rewritten function, and what the rewriting owes
//! to every build.
//!
//! A build either has a predicate hold or not. Of the statements of a
//! rewritten body, one gated on the predicate and one on its negation, it
//! keeps those whose gate it opens. The theorems of this module are stated
//! over the views of the syntax tree and over the functions by which
//! [`crate::expand`] says what the rewriting yields.

use crate::annotation::is_panic_return;
use crate::error::{ConfigErrorView, ErrorKindView};
use crate::expand::{
    expanded_fn, expansion, function_without_annotation_is_rewritten, placeholder, retained,
    settled_fn, settled_item, settled_member, settled_members, stub_of,
};
use crate::syntax::{
    AttributeView, BlockView, FunctionView, ImplItemView, ItemView, Span, StubView,
};
use vstd::prelude::*;

verus! {

/// The condition under which a build keeps a statement or an attribute.
pub enum Gate {
    /// `cfg(predicate)`
    When(Seq<char>),
    /// `cfg(not(predicate))`
    Unless(Seq<char>),
}

impl Gate {
    /// Whether a build keeps what the condition guards, where `holds` tells
    /// the predicates that hold in the build.
    pub open spec fn opens(self, holds: spec_fn(Seq<char>) -> bool) -> bool {
        match self {
            Gate::When(predicate) => holds(predicate),
            Gate::Unless(predicate) => !holds(predicate),
        }
    }
}

/// What stands behind a gate in a rewritten body.
pub enum Code {
    /// The stub.
    Stub(StubView),
    /// The former body.
    Block(BlockView),
}

/// A statement of a rewritten body with its gate.
pub struct Branch {
    pub gate: Gate,
    pub code: Code,
}

/// The gated statements of a body, in their order: the stub and the former
/// body for a rewritten body, none for a block as written.
pub open spec fn branches(block: BlockView) -> Seq<Branch> {
    match block {
        BlockView::Source(_) => Seq::empty(),
        BlockView::Gated { predicate, stub, body } => seq![
            Branch { gate: Gate::Unless(predicate), code: Code::Stub(stub) },
            Branch { gate: Gate::When(predicate), code: Code::Block(*body) },
        ],
    }
}

/// The statements that a build keeps, in their order.
pub open spec fn kept(statements: Seq<Branch>, holds: spec_fn(Seq<char>) -> bool) -> Seq<Code> {
    statements.filter(|b: Branch| b.gate.opens(holds)).map_values(|b: Branch| b.code)
}

/// Whether an attribute is in force in a build: the one that tolerates
/// unused parameters where its predicate is false, any other always.
pub open spec fn in_force(attr: AttributeView, holds: spec_fn(Seq<char>) -> bool) -> bool {
    match attr {
        AttributeView::Written { .. } => true,
        AttributeView::AllowUnused { predicate } => Gate::Unless(predicate).opens(holds),
    }
}

/// The attributes that are in force in a build, in their order.
pub open spec fn attributes_in_force(
    attrs: Seq<AttributeView>,
    holds: spec_fn(Seq<char>) -> bool,
) -> Seq<AttributeView> {
    attrs.filter(|a: AttributeView| in_force(a, holds))
}

/// Of a rewritten function's body every build keeps exactly one statement:
/// the former body where the predicate holds, the stub where it does not.
pub proof fn exactly_one_branch_is_kept(
    predicate: Seq<char>,
    f: FunctionView,
    verdicts: Seq<Option<Seq<char>>>,
    holds: spec_fn(Seq<char>) -> bool,
)
    requires
        expanded_fn(predicate, f, verdicts) is Ok,
    ensures
        kept(branches(expanded_fn(predicate, f, verdicts)->Ok_0.block), holds).len() == 1,
        holds(predicate) ==> kept(branches(expanded_fn(predicate, f, verdicts)->Ok_0.block), holds)
            == seq![Code::Block(f.block)],
        !holds(predicate) ==> kept(branches(expanded_fn(predicate, f, verdicts)->Ok_0.block), holds)
            == seq![Code::Stub(stub_of(predicate, f.sig, placeholder(f.attrs, verdicts)->Ok_0))],
{
    let g = expanded_fn(predicate, f, verdicts)->Ok_0;
    let stub = stub_of(predicate, f.sig, placeholder(f.attrs, verdicts)->Ok_0);
    let both = branches(g.block);
    let open = |b: Branch| b.gate.opens(holds);
    assert(both == seq![
        Branch { gate: Gate::Unless(predicate), code: Code::Stub(stub) },
        Branch { gate: Gate::When(predicate), code: Code::Block(f.block) },
    ]);
    reveal_with_fuel(Seq::filter, 3);
    assert(both.drop_last() =~= seq![
        Branch { gate: Gate::Unless(predicate), code: Code::Stub(stub) },
    ]);
    assert(both.drop_last().drop_last() =~= Seq::<Branch>::empty());
    if holds(predicate) {
        assert(both.filter(open) =~= seq![both[1]]);
        assert(kept(both, holds) =~= seq![Code::Block(f.block)]);
    } else {
        assert(both.filter(open) =~= seq![both[0]]);
        assert(kept(both, holds) =~= seq![Code::Stub(stub)]);
    }
}

/// Where the predicate holds, a rewritten function is the function as it
/// was written: the signature is the same, the body that the build keeps
/// is the former body, and the attributes in force are those that were
/// written, without the `panic_return` attributes.
pub proof fn enabled_function_is_as_written(
    predicate: Seq<char>,
    f: FunctionView,
    verdicts: Seq<Option<Seq<char>>>,
    holds: spec_fn(Seq<char>) -> bool,
)
    requires
        expanded_fn(predicate, f, verdicts) is Ok,
        holds(predicate),
    ensures
        expanded_fn(predicate, f, verdicts)->Ok_0.sig == f.sig,
        kept(branches(expanded_fn(predicate, f, verdicts)->Ok_0.block), holds) == seq![
            Code::Block(f.block),
        ],
        attributes_in_force(expanded_fn(predicate, f, verdicts)->Ok_0.attrs, holds)
            == attributes_in_force(retained(f.attrs), holds),
        (forall|i: int| 0 <= i < f.attrs.len() ==> !is_panic_return(#[trigger] f.attrs[i]))
            ==> attributes_in_force(expanded_fn(predicate, f, verdicts)->Ok_0.attrs, holds)
            == attributes_in_force(f.attrs, holds),
{
    exactly_one_branch_is_kept(predicate, f, verdicts, holds);
    retained(f.attrs).lemma_filter_push(
        AttributeView::AllowUnused { predicate },
        |a: AttributeView| in_force(a, holds),
    );
    if forall|i: int| 0 <= i < f.attrs.len() ==> !is_panic_return(#[trigger] f.attrs[i]) {
        lemma_nothing_to_remove(f.attrs);
    }
}

/// Where the predicate does not hold, what the build keeps of a rewritten
/// function that is not `const` is the stub, and the stub's message names
/// the function and gives the text of the predicate. The attribute that
/// tolerates unused parameters is in force.
pub proof fn disabled_function_fails_with_its_name_and_predicate(
    predicate: Seq<char>,
    f: FunctionView,
    verdicts: Seq<Option<Seq<char>>>,
    holds: spec_fn(Seq<char>) -> bool,
)
    requires
        expanded_fn(predicate, f, verdicts) is Ok,
        !holds(predicate),
        !f.sig.constness,
    ensures
        kept(branches(expanded_fn(predicate, f, verdicts)->Ok_0.block), holds) == seq![
            Code::Stub(
                StubView {
                    message: Some(
                        "function '"@ + f.sig.ident + "' unimplemented unless #[cfg("@ + predicate
                            + ")] is activated"@,
                    ),
                    placeholder: placeholder(f.attrs, verdicts)->Ok_0,
                },
            ),
        ],
        attributes_in_force(expanded_fn(predicate, f, verdicts)->Ok_0.attrs, holds)
            == attributes_in_force(retained(f.attrs), holds).push(
            AttributeView::AllowUnused { predicate },
        ),
{
    exactly_one_branch_is_kept(predicate, f, verdicts, holds);
    retained(f.attrs).lemma_filter_push(
        AttributeView::AllowUnused { predicate },
        |a: AttributeView| in_force(a, holds),
    );
}

/// The stub of a `const` function carries no message, whatever the
/// function is called and whatever the predicate.
pub proof fn const_function_stub_has_no_message(
    predicate: Seq<char>,
    f: FunctionView,
    verdicts: Seq<Option<Seq<char>>>,
)
    requires
        expanded_fn(predicate, f, verdicts) is Ok,
        f.sig.constness,
    ensures
        expanded_fn(predicate, f, verdicts)->Ok_0.block matches BlockView::Gated { stub, .. }
            && stub.message is None,
{
}

/// A rewritten function holds no `panic_return` attribute. Its attributes
/// are those written on it that are none, in their order, and after them
/// the one attribute that tolerates unused parameters.
pub proof fn attribute_hygiene(
    predicate: Seq<char>,
    f: FunctionView,
    verdicts: Seq<Option<Seq<char>>>,
)
    requires
        expanded_fn(predicate, f, verdicts) is Ok,
    ensures
        forall|i: int|
            0 <= i < expanded_fn(predicate, f, verdicts)->Ok_0.attrs.len() ==> !is_panic_return(
                #[trigger] expanded_fn(predicate, f, verdicts)->Ok_0.attrs[i],
            ),
        expanded_fn(predicate, f, verdicts)->Ok_0.attrs.drop_last() == f.attrs.filter(
            |a: AttributeView| !is_panic_return(a),
        ),
        expanded_fn(predicate, f, verdicts)->Ok_0.attrs.last() == (AttributeView::AllowUnused {
            predicate,
        }),
{
    let out = expanded_fn(predicate, f, verdicts)->Ok_0.attrs;
    let stay = |a: AttributeView| !is_panic_return(a);
    assert(out.drop_last() =~= f.attrs.filter(stay));
    assert forall|i: int| 0 <= i < out.len() implies !is_panic_return(#[trigger] out[i]) by {
        if i < out.len() - 1 {
            f.attrs.lemma_filter_pred(stay, i);
        }
    }
}

/// Where no attribute is a `panic_return` attribute, all of them stay.
pub proof fn lemma_nothing_to_remove(attrs: Seq<AttributeView>)
    requires
        forall|i: int| 0 <= i < attrs.len() ==> !is_panic_return(#[trigger] attrs[i]),
    ensures
        retained(attrs) == attrs,
    decreases attrs.len(),
{
    reveal(Seq::filter);
    if attrs.len() > 0 {
        lemma_nothing_to_remove(attrs.drop_last());
        assert(attrs == attrs.drop_last().push(attrs.last()));
    }
}

/// A function without a `panic_return` attribute has one rewritten form,
/// whatever the parser would say: in a container it is settled as that
/// form and as nothing else.
pub proof fn function_without_annotation_is_settled_one_way(
    predicate: Seq<char>,
    f: FunctionView,
    after: FunctionView,
)
    requires
        forall|i: int| 0 <= i < f.attrs.len() ==> !is_panic_return(#[trigger] f.attrs[i]),
    ensures
        settled_fn(predicate, f, after) <==> expanded_fn(predicate, f, Seq::empty()) == Ok::<
            FunctionView,
            ConfigErrorView,
        >(after),
{
    function_without_annotation_is_rewritten(predicate, f, Seq::empty());
    if settled_fn(predicate, f, after) {
        let verdicts = choose|verdicts: Seq<Option<Seq<char>>>|
            match #[trigger] expanded_fn(predicate, f, verdicts) {
                Ok(g) => after == g,
                Err(_) => after == f,
            };
        function_without_annotation_is_rewritten(predicate, f, verdicts);
    }
}

/// An item that is no function, module or impl block is refused, with an
/// error at the item's own location, and nothing else can come of it.
pub proof fn unsupported_item_is_rejected(
    predicate: Seq<char>,
    span: Span,
    outcome: Result<ItemView, ConfigErrorView>,
)
    ensures
        expansion(predicate, ItemView::Other(span), outcome) <==> outcome == Err::<
            ItemView,
            ConfigErrorView,
        >(ConfigErrorView { span, kind: ErrorKindView::UnsupportedItemKind }),
{
}

/// A module is never refused. One without a body stays as it is. One
/// with a body keeps as many items in their places: an item that is no
/// function, module or impl block is the same as before, and a function is
/// rewritten for some verdicts of the parser or is the same as before.
pub proof fn module_is_rewritten_item_by_item(
    predicate: Seq<char>,
    content: Option<Seq<ItemView>>,
    outcome: Result<ItemView, ConfigErrorView>,
)
    requires
        expansion(predicate, ItemView::Mod(content), outcome),
    ensures
        outcome is Ok,
        outcome->Ok_0 is Mod,
        content is None ==> outcome->Ok_0->Mod_0 is None,
        content matches Some(items) ==> {
            &&& outcome->Ok_0->Mod_0 matches Some(out)
            &&& out.len() == items.len()
            &&& forall|i: int|
                0 <= i < items.len() ==> settled_item(predicate, #[trigger] items[i], out[i])
            &&& forall|i: int| 0 <= i < items.len() && items[i] is Other ==> #[trigger] out[i] == items[i]
            &&& forall|i: int|
                0 <= i < items.len() && items[i] is Fn ==> (#[trigger] out[i]) is Fn && settled_fn(
                    predicate,
                    items[i]->Fn_0,
                    out[i]->Fn_0,
                )
        },
{
    if let Some(items) = content {
        let out = outcome->Ok_0->Mod_0->Some_0;
        assert forall|i: int| 0 <= i < items.len() && items[i] is Other implies #[trigger] out[i]
            == items[i] by {
            assert(settled_item(predicate, items[i], out[i]));
        }
        assert forall|i: int| 0 <= i < items.len() && items[i] is Fn implies (#[trigger] out[i]) is Fn
            && settled_fn(predicate, items[i]->Fn_0, out[i]->Fn_0) by {
            assert(settled_item(predicate, items[i], out[i]));
        }
    }
}

/// An impl block is never refused. It keeps as many members in their
/// places: a member that is no method is the same as before, and a method
/// is rewritten for some verdicts of the parser or is the same as before,
/// whatever becomes of the methods beside it.
pub proof fn impl_rewrites_its_methods_only(
    predicate: Seq<char>,
    members: Seq<ImplItemView>,
    outcome: Result<ItemView, ConfigErrorView>,
)
    requires
        expansion(predicate, ItemView::Impl(members), outcome),
    ensures
        outcome matches Ok(ItemView::Impl(out)) && {
            &&& out.len() == members.len()
            &&& forall|j: int|
                0 <= j < members.len() && members[j] is Other ==> #[trigger] out[j] == members[j]
            &&& forall|j: int|
                0 <= j < members.len() && members[j] is Fn ==> (#[trigger] out[j]) is Fn
                    && settled_fn(predicate, members[j]->Fn_0, out[j]->Fn_0)
        },
{
    let out = outcome->Ok_0->Impl_0;
    assert(settled_members(predicate, members, out));
    assert forall|j: int| 0 <= j < members.len() && members[j] is Other implies #[trigger] out[j]
        == members[j] by {
        assert(settled_member(predicate, members[j], out[j]));
    }
    assert forall|j: int| 0 <= j < members.len() && members[j] is Fn implies (#[trigger] out[j]) is Fn
        && settled_fn(predicate, members[j]->Fn_0, out[j]->Fn_0) by {
        assert(settled_member(predicate, members[j], out[j]));
    }
}

} // verus!
