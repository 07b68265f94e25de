//! The items of a source file, as far as merging looks into them.
//!
//! An item keeps its source text and its attributes. A module declaration
//! also keeps its name and, when its body is written in the same file, the
//! items of that body. Nothing else of an item's syntax is looked at.
use vstd::prelude::*;

verus! {

/// An attribute of an item.
#[derive(Debug, PartialEq, Eq)]
pub struct Attr {
    /// The attribute's name, when it is a single identifier: `cfg` in
    /// `#[cfg(test)]`. `None` for a longer path such as `rustfmt::skip`.
    pub name: Option<String>,
    /// For an attribute of the form `name(...)`, the text between the
    /// delimiters: `test` in `#[cfg(test)]`.
    pub arguments: Option<String>,
    /// The whole attribute as source text.
    pub text: String,
}

/// An item of a source file.
#[derive(Debug, PartialEq, Eq)]
pub enum SourceItem {
    /// An item that is carried over as it stands.
    Verbatim {
        attrs: Vec<Attr>,
        /// The whole item, attributes included, as source text.
        text: String,
    },
    /// A module declaration. `body` is `None` for `mod name;`.
    Module { name: String, attrs: Vec<Attr>, body: Option<Vec<SourceItem>> },
}

/// What an [`Attr`] holds.
pub ghost struct AttrView {
    pub name: Option<Seq<char>>,
    pub arguments: Option<Seq<char>>,
    pub text: Seq<char>,
}

/// What a [`SourceItem`] holds.
pub ghost enum ItemView {
    Verbatim { attrs: Seq<AttrView>, text: Seq<char> },
    Module { name: Seq<char>, attrs: Seq<AttrView>, body: Option<Seq<ItemView>> },
}

impl DeepView for Attr {
    type V = AttrView;

    open spec fn deep_view(&self) -> AttrView {
        AttrView {
            name: self.name.deep_view(),
            arguments: self.arguments.deep_view(),
            text: self.text.deep_view(),
        }
    }
}

/// What an item holds, bodies of nested modules included.
pub open spec fn item_view(item: SourceItem) -> ItemView
    decreases item,
{
    match item {
        SourceItem::Verbatim { attrs, text } => ItemView::Verbatim {
            attrs: attrs.deep_view(),
            text: text@,
        },
        SourceItem::Module { name, attrs, body } => ItemView::Module {
            name: name@,
            attrs: attrs.deep_view(),
            body: match body {
                Some(b) => Some(items_view(b@)),
                None => None,
            },
        },
    }
}

/// What a list of items holds.
pub open spec fn items_view(items: Seq<SourceItem>) -> Seq<ItemView>
    decreases items,
{
    Seq::new(
        items.len(),
        |i: int|
            if 0 <= i < items.len() {
                item_view(items[i])
            } else {
                arbitrary()
            },
    )
}

impl DeepView for SourceItem {
    type V = ItemView;

    open spec fn deep_view(&self) -> ItemView {
        item_view(*self)
    }
}

/// A copy of an optional string.
pub fn clone_opt(s: &Option<String>) -> (r: Option<String>)
    ensures
        r.deep_view() == s.deep_view(),
{
    match s {
        Some(text) => Some(text.clone()),
        None => None,
    }
}

impl Attr {
    /// A copy of the attribute.
    pub fn duplicate(&self) -> (r: Attr)
        ensures
            r.deep_view() == self.deep_view(),
    {
        Attr {
            name: clone_opt(&self.name),
            arguments: clone_opt(&self.arguments),
            text: self.text.clone(),
        }
    }
}

/// A copy of a list of attributes.
pub fn clone_attrs(attrs: &Vec<Attr>) -> (r: Vec<Attr>)
    ensures
        r.deep_view() == attrs.deep_view(),
{
    let mut r: Vec<Attr> = Vec::new();
    let mut i: usize = 0;
    while i < attrs.len()
        invariant
            i <= attrs.len(),
            r.len() == i,
            forall|j: int| 0 <= j < i ==> r@[j].deep_view() == attrs@[j].deep_view(),
        decreases attrs.len() - i,
    {
        r.push(attrs[i].duplicate());
        i = i + 1;
    }
    assert(r.deep_view() =~= attrs.deep_view());
    r
}

/// A copy of an item, with the bodies of its nested modules.
pub fn clone_item(item: &SourceItem) -> (r: SourceItem)
    ensures
        item_view(r) == item_view(*item),
    decreases item,
{
    match item {
        SourceItem::Verbatim { attrs, text } => SourceItem::Verbatim {
            attrs: clone_attrs(attrs),
            text: text.clone(),
        },
        SourceItem::Module { name, attrs, body } => {
            let body_copy = match body {
                Some(b) => Some(clone_items(b)),
                None => None,
            };
            SourceItem::Module { name: name.clone(), attrs: clone_attrs(attrs), body: body_copy }
        },
    }
}

/// A copy of a list of items.
pub fn clone_items(items: &Vec<SourceItem>) -> (r: Vec<SourceItem>)
    ensures
        items_view(r@) == items_view(items@),
    decreases items,
{
    let mut r: Vec<SourceItem> = Vec::new();
    let mut i: usize = 0;
    while i < items.len()
        invariant
            i <= items.len(),
            r.len() == i,
            forall|j: int| 0 <= j < i ==> item_view(r@[j]) == item_view(items@[j]),
        decreases items.len() - i,
    {
        r.push(clone_item(&items[i]));
        i = i + 1;
    }
    assert(items_view(r@) =~= items_view(items@));
    r
}

} // verus!
