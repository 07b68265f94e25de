//! Which items are test-only and are left out of the merge.
//!
//! An item is left out when it carries the attribute `cfg(test)`, written
//! with exactly that one predicate. A module named `test` or `tests` is left
//! out whatever its attributes are.
use vstd::prelude::*;
use crate::item::{Attr, AttrView, ItemView, SourceItem, clone_item, item_view, items_view};
use crate::text::str_eq;

verus! {

/// The attribute is a `cfg` attribute.
pub open spec fn is_cfg(attr: AttrView) -> bool {
    attr.name == Some("cfg"@)
}

/// The attribute is `cfg(test)`: a `cfg` whose whole condition is `test`.
pub open spec fn is_cfg_test(attr: AttrView) -> bool {
    is_cfg(attr) && attr.arguments == Some("test"@)
}

/// One of the attributes is `cfg(test)`.
pub open spec fn has_cfg_test(attrs: Seq<AttrView>) -> bool {
    exists|i: int| 0 <= i < attrs.len() && is_cfg_test(#[trigger] attrs[i])
}

/// [`is_cfg`] as a predicate to filter by.
pub open spec fn cfg_only() -> spec_fn(AttrView) -> bool {
    |a: AttrView| is_cfg(a)
}

/// The `cfg` attributes among `attrs`, in order.
pub open spec fn cfg_attrs(attrs: Seq<AttrView>) -> Seq<AttrView> {
    attrs.filter(cfg_only())
}

/// The name is one of the two that mark a module as a test module.
pub open spec fn is_test_module_name(name: Seq<char>) -> bool {
    name == "test"@ || name == "tests"@
}

/// The item is test-only.
pub open spec fn is_ignored(item: ItemView) -> bool {
    match item {
        ItemView::Module { name, attrs, .. } => is_test_module_name(name) || has_cfg_test(attrs),
        ItemView::Verbatim { attrs, .. } => has_cfg_test(attrs),
    }
}

/// The negation of [`is_ignored`], as a predicate to filter by.
pub open spec fn not_ignored() -> spec_fn(ItemView) -> bool {
    |item: ItemView| !is_ignored(item)
}

/// The items that are not test-only, in order.
pub open spec fn kept_items(items: Seq<ItemView>) -> Seq<ItemView> {
    items.filter(not_ignored())
}

/// A module named `test` or `tests` is test-only, whatever attributes it has,
/// and also when it has none.
pub proof fn lemma_test_module_is_ignored(
    name: Seq<char>,
    attrs: Seq<AttrView>,
    body: Option<Seq<ItemView>>,
)
    requires
        name == "test"@ || name == "tests"@,
    ensures
        is_ignored(ItemView::Module { name, attrs, body }),
        is_ignored(ItemView::Module { name, attrs: Seq::empty(), body }),
{
}

/// None of the kept items is test-only, and the kept items are among the
/// given ones.
pub proof fn lemma_kept_items_are_not_ignored(items: Seq<ItemView>)
    ensures
        forall|i: int|
            0 <= i < kept_items(items).len() ==> !is_ignored(#[trigger] kept_items(items)[i])
                && items.contains(kept_items(items)[i]),
{
    assert forall|i: int| 0 <= i < kept_items(items).len() implies !is_ignored(
        #[trigger] kept_items(items)[i],
    ) && items.contains(kept_items(items)[i]) by {
        items.lemma_filter_pred(not_ignored(), i);
        assert(kept_items(items).contains(kept_items(items)[i]));
        items.lemma_filter_contains_rev(not_ignored(), kept_items(items)[i]);
    }
}

/// Of no items none is kept.
pub proof fn lemma_kept_items_empty()
    ensures
        kept_items(Seq::<ItemView>::empty()) == Seq::<ItemView>::empty(),
{
    reveal(Seq::filter);
}

/// The kept items of a list are the first item, if it is kept, followed by
/// the kept items of the rest.
pub proof fn lemma_kept_items_front(items: Seq<ItemView>)
    requires
        items.len() > 0,
    ensures
        kept_items(items) == if is_ignored(items[0]) {
            kept_items(items.skip(1))
        } else {
            seq![items[0]] + kept_items(items.skip(1))
        },
{
    reveal_with_fuel(Seq::filter, 2);
    let first = seq![items[0]];
    assert(first + items.skip(1) =~= items);
    Seq::filter_distributes_over_add(first, items.skip(1), not_ignored());
    assert(first.drop_last() =~= Seq::<ItemView>::empty());
    assert(first.last() == items[0]);
    assert(Seq::<ItemView>::empty().push(items[0]) =~= first);
    assert(first.filter(not_ignored()) =~= if is_ignored(items[0]) {
        Seq::<ItemView>::empty()
    } else {
        first
    });
    assert(Seq::<ItemView>::empty() + kept_items(items.skip(1)) =~= kept_items(items.skip(1)));
}

/// Tests whether an attribute is a `cfg` attribute.
pub fn is_cfg_attr(attr: &Attr) -> (r: bool)
    ensures
        r == is_cfg(attr.deep_view()),
{
    match &attr.name {
        Some(name) => str_eq(name.as_str(), "cfg"),
        None => false,
    }
}

/// Tests whether an attribute is `cfg(test)`.
pub fn is_cfg_test_one(attr: &Attr) -> (r: bool)
    ensures
        r == is_cfg_test(attr.deep_view()),
{
    if !is_cfg_attr(attr) {
        return false;
    }
    match &attr.arguments {
        Some(arguments) => str_eq(arguments.as_str(), "test"),
        None => false,
    }
}

/// Tests whether one of the attributes is `cfg(test)`.
pub fn is_cfg_test_attr(attrs: &Vec<Attr>) -> (r: bool)
    ensures
        r == has_cfg_test(attrs.deep_view()),
{
    let mut i: usize = 0;
    while i < attrs.len()
        invariant
            i <= attrs.len(),
            forall|j: int| 0 <= j < i ==> !is_cfg_test(#[trigger] attrs.deep_view()[j]),
        decreases attrs.len() - i,
    {
        if is_cfg_test_one(&attrs[i]) {
            assert(is_cfg_test(attrs.deep_view()[i as int]));
            return true;
        }
        i = i + 1;
    }
    false
}

/// The `cfg` attributes among `attrs`, in order.
pub fn extract_cfg_attrs(attrs: &Vec<Attr>) -> (r: Vec<Attr>)
    ensures
        r.deep_view() == cfg_attrs(attrs.deep_view()),
{
    let ghost pred = cfg_only();
    let mut r: Vec<Attr> = Vec::new();
    let mut i: usize = 0;
    proof {
        reveal(Seq::filter);
        assert(attrs.deep_view().take(0).filter(pred) =~= r.deep_view());
    }
    while i < attrs.len()
        invariant
            i <= attrs.len(),
            pred == cfg_only(),
            r.deep_view() == attrs.deep_view().take(i as int).filter(pred),
        decreases attrs.len() - i,
    {
        let ghost before = r.deep_view();
        let keep = is_cfg_attr(&attrs[i]);
        if keep {
            r.push(attrs[i].duplicate());
        }
        proof {
            reveal(Seq::filter);
            let next = attrs.deep_view().take(i + 1);
            assert(next.drop_last() =~= attrs.deep_view().take(i as int));
            assert(next.last() == attrs.deep_view()[i as int]);
            if keep {
                assert(r.deep_view() =~= before.push(attrs.deep_view()[i as int]));
            }
        }
        i = i + 1;
    }
    assert(attrs.deep_view().take(attrs.len() as int) =~= attrs.deep_view());
    r
}

/// Tests whether a module name marks a test module.
pub fn is_test_name(name: &str) -> (r: bool)
    ensures
        r == is_test_module_name(name@),
{
    str_eq(name, "test") || str_eq(name, "tests")
}

/// Tests whether an item is test-only.
pub fn is_ignored_item(item: &SourceItem) -> (r: bool)
    ensures
        r == is_ignored(item_view(*item)),
{
    match item {
        SourceItem::Module { name, attrs, .. } => {
            if is_test_name(name.as_str()) {
                return true;
            }
            is_cfg_test_attr(attrs)
        },
        SourceItem::Verbatim { attrs, .. } => is_cfg_test_attr(attrs),
    }
}

/// Copies of the items that are not test-only, in order.
pub fn keep_items(items: &Vec<SourceItem>) -> (r: Vec<SourceItem>)
    ensures
        items_view(r@) == kept_items(items_view(items@)),
{
    let ghost pred = not_ignored();
    let ghost all = items_view(items@);
    let mut r: Vec<SourceItem> = Vec::new();
    let mut i: usize = 0;
    proof {
        reveal(Seq::filter);
        assert(all.take(0).filter(pred) =~= items_view(r@));
    }
    while i < items.len()
        invariant
            i <= items.len(),
            all == items_view(items@),
            pred == not_ignored(),
            items_view(r@) == all.take(i as int).filter(pred),
        decreases items.len() - i,
    {
        let ghost before = items_view(r@);
        let drop = is_ignored_item(&items[i]);
        if !drop {
            r.push(clone_item(&items[i]));
        }
        proof {
            reveal(Seq::filter);
            let next = all.take(i + 1);
            assert(next.drop_last() =~= all.take(i as int));
            assert(next.last() == item_view(items@[i as int]));
            if !drop {
                assert(items_view(r@) =~= before.push(item_view(items@[i as int])));
            }
        }
        i = i + 1;
    }
    assert(all.take(items.len() as int) =~= all);
    r
}

} // verus!
