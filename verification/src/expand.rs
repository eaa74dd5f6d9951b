//! The rewriting itself.
//!
//! What the rewriting yields is stated in two steps. For one function it is
//! a function of the attributes, the signature, the body and the verdicts
//! of the parser on the `panic_return` attributes, one verdict for each
//! attribute by its place ([`rewritten`], [`expanded_fn`]). A container is
//! settled member by member: each function in it is rewritten for the
//! verdicts that came back on it, or is as before where it cannot be
//! ([`settled_item`]). [`expansion`] says what may come of an annotated item.

use crate::annotation::{
    annotation, extract_panic_return_attr, found_view, is_annotation, is_panic_return, option_view,
};
use crate::error::{ConfigError, ConfigErrorView, ErrorKindView};
use crate::syntax::{
    attribute_views, member_views, Attribute, AttributeView, Block, BlockView, Function,
    FunctionView, ImplItem, ImplItemView, Item, ItemImpl, ItemMod, ItemView, Signature,
    SignatureView, Span, Stub, StubView,
};
use vstd::prelude::*;
use vstd::string::StringExecFns;

verus! {

/// The message of the stub of the function `name` under `predicate`.
pub open spec fn failure_message(name: Seq<char>, predicate: Seq<char>) -> Seq<char> {
    "function '"@ + name + "' unimplemented unless #[cfg("@ + predicate + ")] is activated"@
}

/// What a scan of a function's attributes for `panic_return` yields, where
/// `verdicts[i]` is the parser's verdict on the attribute at `i`: the error
/// of the first such attribute whose value is malformed; where there is
/// none, the type that the last such attribute names, if there is any.
pub open spec fn placeholder(attrs: Seq<AttributeView>, verdicts: Seq<Option<Seq<char>>>) -> Result<
    Option<Seq<char>>,
    ConfigErrorView,
>
    decreases attrs.len(),
{
    if attrs.len() == 0 {
        Ok(None)
    } else {
        match placeholder(attrs.drop_last(), verdicts) {
            Err(e) => Err(e),
            Ok(earlier) => match annotation(attrs.last(), verdicts[attrs.len() - 1]) {
                None => Ok(earlier),
                Some(Ok(ty)) => Ok(Some(ty)),
                Some(Err(e)) => Err(e),
            },
        }
    }
}

/// The attributes that stay on a rewritten function: all but the
/// `panic_return` attributes, in their order.
pub open spec fn retained(attrs: Seq<AttributeView>) -> Seq<AttributeView> {
    attrs.filter(|a: AttributeView| !is_panic_return(a))
}

/// The stub of a function with signature `sig` under `predicate`.
pub open spec fn stub_of(
    predicate: Seq<char>,
    sig: SignatureView,
    placeholder: Option<Seq<char>>,
) -> StubView {
    StubView {
        message: if sig.constness {
            None
        } else {
            Some(failure_message(sig.ident, predicate))
        },
        placeholder,
    }
}

/// The rewritten form of a function with attributes `attrs`, signature
/// `sig` and body `block` under `predicate`, for the given verdicts: the
/// attributes that stay, followed by the one that tolerates unused
/// parameters, and the body gated on the predicate; or the error of the
/// scan.
pub open spec fn rewritten(
    predicate: Seq<char>,
    attrs: Seq<AttributeView>,
    sig: SignatureView,
    block: BlockView,
    verdicts: Seq<Option<Seq<char>>>,
) -> Result<(Seq<AttributeView>, BlockView), ConfigErrorView> {
    match placeholder(attrs, verdicts) {
        Err(e) => Err(e),
        Ok(ty) => Ok(
            (
                retained(attrs).push(AttributeView::AllowUnused { predicate }),
                BlockView::Gated {
                    predicate,
                    stub: stub_of(predicate, sig, ty),
                    body: Box::new(block),
                },
            ),
        ),
    }
}

/// The rewritten form of the function `f` under `predicate`, for the given
/// verdicts.
pub open spec fn expanded_fn(
    predicate: Seq<char>,
    f: FunctionView,
    verdicts: Seq<Option<Seq<char>>>,
) -> Result<FunctionView, ConfigErrorView> {
    match rewritten(predicate, f.attrs, f.sig, f.block, verdicts) {
        Err(e) => Err(e),
        Ok((attrs, block)) => Ok(FunctionView { attrs, sig: f.sig, block }),
    }
}

/// Whether `after` is what rewriting may leave of the function `before`
/// in a container: its rewritten form for some verdicts, or, where for
/// those verdicts it cannot be rewritten, the function as it was.
pub open spec fn settled_fn(predicate: Seq<char>, before: FunctionView, after: FunctionView) -> bool {
    exists|verdicts: Seq<Option<Seq<char>>>|
        match #[trigger] expanded_fn(predicate, before, verdicts) {
            Ok(g) => after == g,
            Err(_) => after == before,
        }
}

/// Whether `after` is what rewriting may leave of a member of an impl
/// block: a method is settled as a function, anything else stays as it
/// is.
pub open spec fn settled_member(
    predicate: Seq<char>,
    before: ImplItemView,
    after: ImplItemView,
) -> bool {
    match before {
        ImplItemView::Fn(f) => after matches ImplItemView::Fn(g) && settled_fn(predicate, f, g),
        ImplItemView::Other(_) => after == before,
    }
}

/// Whether `after` is what rewriting may leave of the members of an impl
/// block: as many members, each settled on its own account.
pub open spec fn settled_members(
    predicate: Seq<char>,
    before: Seq<ImplItemView>,
    after: Seq<ImplItemView>,
) -> bool {
    &&& after.len() == before.len()
    &&& forall|j: int|
        0 <= j < before.len() ==> settled_member(predicate, #[trigger] before[j], after[j])
}

/// Whether `after` is what rewriting may leave of an item in a container.
///
/// A function is settled as [`settled_fn`] says, an impl block member by
/// member, a module item by item. A module without a body and an item of
/// any other kind stay as they are.
pub open spec fn settled_item(predicate: Seq<char>, before: ItemView, after: ItemView) -> bool
    decreases before,
{
    match before {
        ItemView::Fn(f) => after matches ItemView::Fn(g) && settled_fn(predicate, f, g),
        ItemView::Impl(members) => after matches ItemView::Impl(out) && settled_members(
            predicate,
            members,
            out,
        ),
        ItemView::Mod(None) => after == before,
        ItemView::Mod(Some(items)) => after matches ItemView::Mod(Some(out)) && out.len()
            == items.len() && forall|i: int|
            0 <= i < items.len() ==> settled_item(predicate, #[trigger] items[i], out[i]),
        ItemView::Other(_) => after == before,
    }
}

/// Whether `outcome` is what may come of rewriting the annotated item
/// `before`.
///
/// A function is rewritten for some verdicts of the parser, or gives the
/// error of its scan for them. An impl block and a module are never
/// refused: what comes of them is the block or module settled. An item of
/// any other kind is refused with an error at its own location.
pub open spec fn expansion(
    predicate: Seq<char>,
    before: ItemView,
    outcome: Result<ItemView, ConfigErrorView>,
) -> bool {
    match before {
        ItemView::Fn(f) => exists|verdicts: Seq<Option<Seq<char>>>|
            match #[trigger] expanded_fn(predicate, f, verdicts) {
                Ok(g) => outcome == Ok::<ItemView, ConfigErrorView>(ItemView::Fn(g)),
                Err(e) => outcome == Err::<ItemView, ConfigErrorView>(e),
            },
        ItemView::Other(span) => outcome == Err::<ItemView, ConfigErrorView>(
            ConfigErrorView { span, kind: ErrorKindView::UnsupportedItemKind },
        ),
        _ => outcome matches Ok(after) && settled_item(predicate, before, after),
    }
}

/// The view of what a scan hands back.
pub open spec fn placeholder_view(r: Result<Option<String>, ConfigError>) -> Result<
    Option<Seq<char>>,
    ConfigErrorView,
> {
    match r {
        Ok(found) => Ok(option_view(found)),
        Err(e) => Err(e@),
    }
}

/// What a function is after a call that rewrites it in place: the new
/// attributes and body where the call succeeded, else its error.
pub open spec fn rewriting_view(
    r: Result<(), ConfigError>,
    attrs: Seq<AttributeView>,
    block: BlockView,
) -> Result<(Seq<AttributeView>, BlockView), ConfigErrorView> {
    match r {
        Ok(()) => Ok((attrs, block)),
        Err(e) => Err(e@),
    }
}

/// What a function is in view after a call that rewrites it in place.
pub open spec fn function_view(r: Result<(), ConfigError>, after: FunctionView) -> Result<
    FunctionView,
    ConfigErrorView,
> {
    match r {
        Ok(()) => Ok(after),
        Err(e) => Err(e@),
    }
}

/// What an item is in view after a call that rewrites it in place.
pub open spec fn item_view(r: Result<(), ConfigError>, after: ItemView) -> Result<
    ItemView,
    ConfigErrorView,
> {
    match r {
        Ok(()) => Ok(after),
        Err(e) => Err(e@),
    }
}

/// Scans `attrs` for `panic_return` and changes nothing. The parser is
/// asked at most once for each attribute.
///
/// Returns the error of the first `panic_return` attribute whose value is
/// malformed. Where there is none, returns the type that the last
/// `panic_return` attribute names, or `None` where there is no such
/// attribute.
pub fn find_placeholder(attrs: &Vec<Attribute>) -> (r: Result<Option<String>, ConfigError>)
    ensures
        exists|verdicts: Seq<Option<Seq<char>>>|
            placeholder_view(r) == #[trigger] placeholder(attribute_views(attrs@), verdicts),
{
    let ghost all = attribute_views(attrs@);
    let ghost mut verdicts: Seq<Option<Seq<char>>> = Seq::empty();
    let mut found: Option<String> = None;
    let mut i: usize = 0;
    while i < attrs.len()
        invariant
            i <= attrs.len(),
            all == attribute_views(attrs@),
            verdicts.len() == i,
            placeholder(all.take(i as int), verdicts) == Ok::<Option<Seq<char>>, ConfigErrorView>(
                option_view(found),
            ),
        decreases attrs.len() - i,
    {
        let read = extract_panic_return_attr(&attrs[i]);
        proof {
            let verdict = choose|verdict: Option<Seq<char>>|
                found_view(read) == #[trigger] annotation(attrs@[i as int]@, verdict);
            lemma_placeholder_reads_its_own(all.take(i as int), verdicts, verdicts.push(verdict));
            verdicts = verdicts.push(verdict);
            assert(all.take(i + 1).drop_last() == all.take(i as int));
            assert(all.take(i + 1).last() == attrs@[i as int]@);
        }
        match read {
            None => {},
            Some(Ok(ty)) => {
                found = Some(ty);
            },
            Some(Err(e)) => {
                proof {
                    lemma_placeholder_error_stays(all, verdicts, i + 1);
                }
                return Err(e);
            },
        }
        i += 1;
    }
    proof {
        assert(all.take(i as int) == all);
    }
    Ok(found)
}

/// Rewrites items under one predicate.
#[derive(Clone, Debug, PartialEq, Eq)]
pub struct Expander {
    /// The text of the predicate.
    pub args: String,
}

impl Expander {
    /// An expander for the predicate `args`.
    pub fn new(args: String) -> (expander: Expander)
        ensures
            expander.args@ == args@,
    {
        Expander { args }
    }

    /// The message that the stub of the function `name` fails with.
    pub fn failure_message(&self, name: &str) -> (message: String)
        ensures
            message@ == failure_message(name@, self.args@),
    {
        let mut message = String::from_str("function '");
        message.append(name);
        message.append("' unimplemented unless #[cfg(");
        message.append(self.args.as_str());
        message.append(")] is activated");
        message
    }

    /// Rewrites a function in place, given as its signature, body and
    /// attributes.
    ///
    /// Fails, and changes nothing, where a `panic_return` attribute has a
    /// malformed value. Else the `panic_return` attributes are gone, the
    /// attribute that tolerates unused parameters is appended, and the body
    /// is the stub where the predicate is false and the former body where
    /// it is true. The result is the one that [`rewritten`] gives for the
    /// verdicts of the parser, which is asked at most once for each
    /// attribute.
    pub fn expand_fn_inner(
        &self,
        sig: &Signature,
        fn_block: &mut Block,
        fn_attrs: &mut Vec<Attribute>,
    ) -> (r: Result<(), ConfigError>)
        ensures
            exists|verdicts: Seq<Option<Seq<char>>>|
                rewriting_view(r, attribute_views(final(fn_attrs)@), final(fn_block)@)
                    == #[trigger] rewritten(
                    self.args@,
                    attribute_views(old(fn_attrs)@),
                    sig@,
                    old(fn_block)@,
                    verdicts,
                ),
            r is Err ==> *final(fn_attrs) == *old(fn_attrs) && *final(fn_block) == *old(fn_block),
    {
        let scan = find_placeholder(fn_attrs);
        let ghost verdicts = choose|verdicts: Seq<Option<Seq<char>>>|
            placeholder_view(scan) == #[trigger] placeholder(
                attribute_views(fn_attrs@),
                verdicts,
            );
        let return_ty = match scan {
            Ok(ty) => ty,
            Err(e) => {
                proof {
                    assert(rewriting_view(Err(e), attribute_views(fn_attrs@), fn_block@)
                        == rewritten(
                        self.args@,
                        attribute_views(old(fn_attrs)@),
                        sig@,
                        old(fn_block)@,
                        verdicts,
                    ));
                }
                return Err(e);
            },
        };

        let mut written: Vec<Attribute> = Vec::new();
        core::mem::swap(fn_attrs, &mut written);
        let ghost all = attribute_views(written@);
        for attr in it: written
            invariant
                it.seq() == old(fn_attrs)@,
                all == attribute_views(old(fn_attrs)@),
                attribute_views(fn_attrs@) == retained(all.take(it.index() as int)),
        {
            proof {
                assert(all.take(it.index() + 1) == all.take(it.index() as int).push(attr@));
                all.take(it.index() as int).lemma_filter_push(
                    attr@,
                    |a: AttributeView| !is_panic_return(a),
                );
            }
            if !is_annotation(&attr) {
                fn_attrs.push(attr);
            }
        }
        proof {
            assert(all.take(all.len() as int) == all);
        }
        let ghost kept = fn_attrs@;
        fn_attrs.push(Attribute::AllowUnused { predicate: self.args.clone() });
        proof {
            assert(attribute_views(fn_attrs@) == attribute_views(kept).push(
                AttributeView::AllowUnused { predicate: self.args@ },
            ));
        }

        let message = if sig.constness {
            None
        } else {
            Some(self.failure_message(sig.ident.as_str()))
        };
        let stub = Stub { message, placeholder: return_ty };

        // The empty source block only stands in while the body moves.
        let mut block = Block::Source(Span { id: 0 });
        core::mem::swap(fn_block, &mut block);
        *fn_block = Block::Gated { predicate: self.args.clone(), stub, body: Box::new(block) };
        proof {
            assert(rewriting_view(Ok(()), attribute_views(fn_attrs@), fn_block@) == rewritten(
                self.args@,
                attribute_views(old(fn_attrs)@),
                sig@,
                old(fn_block)@,
                verdicts,
            ));
        }
        Ok(())
    }

    /// Rewrites a function in place, or fails and leaves it as it was.
    pub fn expand_fn(&self, f: &mut Function) -> (r: Result<(), ConfigError>)
        ensures
            exists|verdicts: Seq<Option<Seq<char>>>|
                function_view(r, final(f)@) == #[trigger] expanded_fn(self.args@, old(f)@, verdicts),
            r is Err ==> *final(f) == *old(f),
    {
        let r = self.expand_fn_inner(&f.sig, &mut f.block, &mut f.attrs);
        proof {
            let verdicts = choose|verdicts: Seq<Option<Seq<char>>>|
                rewriting_view(r, attribute_views(f.attrs@), f.block@) == #[trigger] rewritten(
                    self.args@,
                    old(f)@.attrs,
                    old(f)@.sig,
                    old(f)@.block,
                    verdicts,
                );
            assert(function_view(r, f@) == expanded_fn(self.args@, old(f)@, verdicts));
        }
        r
    }

    /// Rewrites the methods of an impl block in place, each on its own
    /// account; the other members stay as they are.
    ///
    /// A method that cannot be rewritten stays as it is and does not stop
    /// the others. This never fails.
    pub fn expand_impl(&self, item_impl: &mut ItemImpl) -> (r: Result<(), ConfigError>)
        ensures
            r is Ok,
            settled_members(
                self.args@,
                member_views(old(item_impl).items@),
                member_views(final(item_impl).items@),
            ),
    {
        let ghost before = item_impl.items@;
        let mut i: usize = 0;
        while i < item_impl.items.len()
            invariant
                i <= item_impl.items.len(),
                item_impl.items@.len() == before.len(),
                before == old(item_impl).items@,
                forall|j: int|
                    0 <= j < i ==> settled_member(
                        self.args@,
                        before[j]@,
                        (#[trigger] item_impl.items@[j])@,
                    ),
                forall|j: int| i <= j < before.len() ==> #[trigger] item_impl.items@[j] == before[j],
            decreases item_impl.items.len() - i,
        {
            match &mut item_impl.items[i] {
                ImplItem::Fn(impl_item_fn) => {
                    // A method that is refused stays as it is.
                    let ghost written = impl_item_fn@;
                    let r = self.expand_fn(impl_item_fn);
                    proof {
                        let verdicts = choose|verdicts: Seq<Option<Seq<char>>>|
                            function_view(r, impl_item_fn@) == #[trigger] expanded_fn(
                                self.args@,
                                written,
                                verdicts,
                            );
                        assert(settled_fn(self.args@, written, impl_item_fn@));
                    }
                },
                ImplItem::Other(_) => {},
            }
            i += 1;
        }
        proof {
            let given = member_views(before);
            let made = member_views(item_impl.items@);
            assert forall|j: int| 0 <= j < given.len() implies settled_member(
                self.args@,
                #[trigger] given[j],
                made[j],
            ) by {
                assert(settled_member(self.args@, before[j]@, item_impl.items@[j]@));
            }
        }
        Ok(())
    }

    /// Rewrites what can be rewritten in the body of a module, in place.
    ///
    /// Each item of the body is rewritten on its own account; one that
    /// cannot be rewritten stays as it is and does not stop the others. A
    /// module without a body is left alone. This never fails.
    pub fn expand_mod(&self, item_mod: &mut ItemMod) -> (r: Result<(), ConfigError>)
        ensures
            r is Ok,
            settled_item(self.args@, Item::Mod(*old(item_mod))@, Item::Mod(*final(item_mod))@),
        decreases *old(item_mod),
    {
        match &mut item_mod.content {
            Some(content) => {
                let ghost before = content@;
                let mut i: usize = 0;
                while i < content.len()
                    invariant
                        i <= content.len(),
                        content@.len() == before.len(),
                        old(item_mod).content is Some,
                        old(item_mod).content->Some_0@ == before,
                        forall|j: int|
                            0 <= j < i ==> settled_item(
                                self.args@,
                                before[j]@,
                                (#[trigger] content@[j])@,
                            ),
                        forall|j: int| i <= j < before.len() ==> #[trigger] content@[j] == before[j],
                    decreases content.len() - i,
                {
                    // An item that is refused stays as it is.
                    let ghost written = content@[i as int]@;
                    let r = self.expand_item(&mut content[i]);
                    proof {
                        lemma_refused_item_is_settled(
                            self.args@,
                            written,
                            item_view(r, content@[i as int]@),
                        );
                    }
                    i += 1;
                }
                proof {
                    let after = content@;
                    let given = Item::Mod(*old(item_mod))@->Mod_0->Some_0;
                    let made = Item::Mod(*final(item_mod))@->Mod_0->Some_0;
                    assert(Item::Mod(*old(item_mod))@ == ItemView::Mod(Some(given)));
                    assert(Item::Mod(*final(item_mod))@ == ItemView::Mod(Some(made)));
                    assert forall|j: int| 0 <= j < given.len() implies settled_item(
                        self.args@,
                        #[trigger] given[j],
                        made[j],
                    ) by {
                        assert(given[j] == before[j]@);
                        assert(made[j] == after[j]@);
                    }
                }
            },
            None => {},
        }
        Ok(())
    }

    /// Rewrites an item in place, or fails and leaves it as it was.
    ///
    /// What comes of the item is what [`expansion`] allows: a function is
    /// rewritten or gives its error, an impl block and a module are settled
    /// member by member, and an item of any other kind is refused with an
    /// error at its own location.
    pub fn expand_item(&self, item: &mut Item) -> (r: Result<(), ConfigError>)
        ensures
            expansion(self.args@, old(item)@, item_view(r, final(item)@)),
            r is Err ==> *final(item) == *old(item),
        decreases *old(item),
    {
        match item {
            Item::Fn(item_fn) => {
                let ghost written = item_fn@;
                let r = self.expand_fn(item_fn);
                proof {
                    let verdicts = choose|verdicts: Seq<Option<Seq<char>>>|
                        function_view(r, item_fn@) == #[trigger] expanded_fn(
                            self.args@,
                            written,
                            verdicts,
                        );
                    assert(expansion(
                        self.args@,
                        ItemView::Fn(written),
                        item_view(r, ItemView::Fn(item_fn@)),
                    ));
                }
                r
            },
            Item::Impl(item_impl) => self.expand_impl(item_impl),
            Item::Mod(item_mod) => self.expand_mod(item_mod),
            Item::Other(span) => Err(ConfigError::unsupported(*span)),
        }
    }
}

/// What comes of an item decides what a container keeps of it: the
/// rewritten item, or the item as it was where it is refused. Either way
/// the item is settled.
pub proof fn lemma_refused_item_is_settled(
    predicate: Seq<char>,
    before: ItemView,
    outcome: Result<ItemView, ConfigErrorView>,
)
    requires
        expansion(predicate, before, outcome),
    ensures
        settled_item(
            predicate,
            before,
            match outcome {
                Ok(after) => after,
                Err(_) => before,
            },
        ),
{
    if let ItemView::Fn(f) = before {
        let verdicts = choose|verdicts: Seq<Option<Seq<char>>>|
            match #[trigger] expanded_fn(predicate, f, verdicts) {
                Ok(g) => outcome == Ok::<ItemView, ConfigErrorView>(ItemView::Fn(g)),
                Err(e) => outcome == Err::<ItemView, ConfigErrorView>(e),
            };
        match expanded_fn(predicate, f, verdicts) {
            Ok(g) => {
                assert(settled_fn(predicate, f, g));
            },
            Err(_) => {
                assert(settled_fn(predicate, f, f));
            },
        }
    }
}

/// The scan reads of the verdicts only those of its own attributes: two
/// lists of verdicts that agree on them give the same result.
pub proof fn lemma_placeholder_reads_its_own(
    attrs: Seq<AttributeView>,
    verdicts: Seq<Option<Seq<char>>>,
    others: Seq<Option<Seq<char>>>,
)
    requires
        forall|i: int| 0 <= i < attrs.len() ==> verdicts[i] == others[i],
    ensures
        placeholder(attrs, verdicts) == placeholder(attrs, others),
    decreases attrs.len(),
{
    if attrs.len() > 0 {
        lemma_placeholder_reads_its_own(attrs.drop_last(), verdicts, others);
    }
}

/// An error found in a prefix of the attributes is the error of the whole.
pub proof fn lemma_placeholder_error_stays(
    attrs: Seq<AttributeView>,
    verdicts: Seq<Option<Seq<char>>>,
    n: int,
)
    requires
        0 <= n <= attrs.len(),
        placeholder(attrs.take(n), verdicts) is Err,
    ensures
        placeholder(attrs, verdicts) == placeholder(attrs.take(n), verdicts),
    decreases attrs.len() - n,
{
    if n < attrs.len() {
        assert(attrs.take(n + 1).drop_last() == attrs.take(n));
        lemma_placeholder_error_stays(attrs, verdicts, n + 1);
    } else {
        assert(attrs.take(n) == attrs);
    }
}

/// A function without a `panic_return` attribute is always rewritten,
/// whatever the parser would say, and its stub has no placeholder type.
pub proof fn function_without_annotation_is_rewritten(
    predicate: Seq<char>,
    f: FunctionView,
    verdicts: Seq<Option<Seq<char>>>,
)
    requires
        forall|i: int| 0 <= i < f.attrs.len() ==> !is_panic_return(#[trigger] f.attrs[i]),
    ensures
        placeholder(f.attrs, verdicts) == Ok::<Option<Seq<char>>, ConfigErrorView>(None),
        expanded_fn(predicate, f, verdicts) is Ok,
{
    lemma_no_annotation(f.attrs, verdicts);
}

/// Where no attribute is a `panic_return` attribute, the scan finds
/// nothing.
pub proof fn lemma_no_annotation(attrs: Seq<AttributeView>, verdicts: Seq<Option<Seq<char>>>)
    requires
        forall|i: int| 0 <= i < attrs.len() ==> !is_panic_return(#[trigger] attrs[i]),
    ensures
        placeholder(attrs, verdicts) == Ok::<Option<Seq<char>>, ConfigErrorView>(None),
    decreases attrs.len(),
{
    if attrs.len() > 0 {
        lemma_no_annotation(attrs.drop_last(), verdicts);
        assert(!is_panic_return(attrs[attrs.len() - 1]));
    }
}

/// The scan reports the first malformed `panic_return` attribute: where
/// the attribute at `i` yields an error and none before it does, that
/// error is the outcome, whatever comes after.
pub proof fn first_malformed_annotation_is_reported(
    attrs: Seq<AttributeView>,
    verdicts: Seq<Option<Seq<char>>>,
    i: int,
)
    requires
        0 <= i < attrs.len(),
        annotation(attrs[i], verdicts[i]) matches Some(Err(_)),
        forall|j: int|
            0 <= j < i ==> !(#[trigger] annotation(attrs[j], verdicts[j]) matches Some(Err(_))),
    ensures
        placeholder(attrs, verdicts) == Err::<Option<Seq<char>>, ConfigErrorView>(
            annotation(attrs[i], verdicts[i])->Some_0->Err_0,
        ),
{
    lemma_no_error_before(attrs, verdicts, i);
    assert(attrs.take(i + 1).drop_last() == attrs.take(i));
    lemma_placeholder_error_stays(attrs, verdicts, i + 1);
}

/// A prefix of the attributes in which no `panic_return` attribute is
/// malformed is scanned without error.
pub proof fn lemma_no_error_before(
    attrs: Seq<AttributeView>,
    verdicts: Seq<Option<Seq<char>>>,
    n: int,
)
    requires
        0 <= n <= attrs.len(),
        forall|j: int|
            0 <= j < n ==> !(#[trigger] annotation(attrs[j], verdicts[j]) matches Some(Err(_))),
    ensures
        placeholder(attrs.take(n), verdicts) is Ok,
    decreases n,
{
    if n > 0 {
        lemma_no_error_before(attrs, verdicts, n - 1);
        assert(attrs.take(n).drop_last() == attrs.take(n - 1));
        assert(attrs.take(n).last() == attrs[n - 1]);
        assert(!(annotation(attrs[n - 1], verdicts[n - 1]) matches Some(Err(_))));
    }
}

/// Of several `panic_return` attributes the last decides: where none is
/// malformed, the attribute at `i` names a type and no attribute after it
/// is a `panic_return` attribute, that type is the placeholder.
pub proof fn last_annotation_wins(
    attrs: Seq<AttributeView>,
    verdicts: Seq<Option<Seq<char>>>,
    i: int,
)
    requires
        0 <= i < attrs.len(),
        annotation(attrs[i], verdicts[i]) matches Some(Ok(_)),
        forall|j: int|
            0 <= j < attrs.len() ==> !(#[trigger] annotation(attrs[j], verdicts[j]) matches Some(
                Err(_),
            )),
        forall|j: int| i < j < attrs.len() ==> !is_panic_return(#[trigger] attrs[j]),
    ensures
        placeholder(attrs, verdicts) == Ok::<Option<Seq<char>>, ConfigErrorView>(
            Some(annotation(attrs[i], verdicts[i])->Some_0->Ok_0),
        ),
    decreases attrs.len(),
{
    if i == attrs.len() - 1 {
        lemma_no_error_before(attrs, verdicts, i);
        assert(attrs.take(i) == attrs.drop_last());
    } else {
        let earlier = attrs.drop_last();
        assert forall|j: int| 0 <= j < earlier.len() implies !(#[trigger] annotation(
            earlier[j],
            verdicts[j],
        ) matches Some(Err(_))) by {
            assert(earlier[j] == attrs[j]);
            assert(!(annotation(attrs[j], verdicts[j]) matches Some(Err(_))));
        }
        assert forall|j: int| i < j < earlier.len() implies !is_panic_return(
            #[trigger] earlier[j],
        ) by {
            assert(earlier[j] == attrs[j]);
        }
        assert(earlier[i] == attrs[i]);
        last_annotation_wins(earlier, verdicts, i);
        assert(!is_panic_return(attrs[attrs.len() - 1]));
    }
}

} // verus!
