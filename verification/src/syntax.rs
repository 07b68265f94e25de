//! Reads source text into items with `syn`.
//!
//! `syn` does the parsing, and every call of it is a call on text: a file
//! is cut into the texts of its items, and each thing that merging looks at
//! in an item or in an attribute is read from that item's or attribute's own
//! text. What `syn` answers depends on the text alone, so each answer has a
//! name, and what the items of a file are is said over those names. The
//! functions that put the answers together are verified against that.
//!
//! The names stand for what `syn` and `proc-macro2` do as plain libraries,
//! which is how they are used here; inside a procedural macro they hand the
//! lexing to the compiler.
use vstd::prelude::*;
use vstd::string::StrSliceExecFns;
use crate::item::{Attr, AttrView, ItemView, SourceItem, item_view, items_view};

verus! {

/// What `syn::parse_file` makes of a text: the texts of the items of the
/// file, in order, each as `quote` and `proc-macro2` write its tokens out,
/// or `syn`'s message if it does not accept the text. Like the names that
/// follow, this one stands for what the crates do as plain libraries, not
/// inside a procedural macro.
pub uninterp spec fn file_items(text: Seq<char>) -> Result<Seq<Seq<char>>, Seq<char>>;

/// What `syn::parse_str` makes of the text of an item when it is asked for
/// a module: the module's name and, if the module has a body, the texts of
/// the items of the body. `None` if the text is no module.
pub uninterp spec fn module_parts(item: Seq<char>) -> Option<(Seq<char>, Option<Seq<Seq<char>>>)>;

/// The texts of the attributes of an item that defines a type, a trait or
/// an impl, read by `syn::parse_str` from the item's text. `None` for any
/// other text.
pub uninterp spec fn type_item_attrs(item: Seq<char>) -> Option<Seq<Seq<char>>>;

/// The texts of the attributes of a constant, a static, a function, a
/// module, an import, a foreign block or a macro invocation, read by
/// `syn::parse_str` from the item's text. `None` for any other text.
pub uninterp spec fn value_item_attrs(item: Seq<char>) -> Option<Seq<Seq<char>>>;

/// What `syn::Attribute::parse_outer` makes of the text of an attribute:
/// the attribute's name, if its path is a single identifier, and, if it has
/// the form `name(...)`, the text between the delimiters. `None` if the
/// text is no attribute written before an item.
pub uninterp spec fn outer_attr_parts(attr: Seq<char>) -> Option<
    (Option<Seq<char>>, Option<Seq<char>>),
>;

/// What `syn::Attribute::parse_inner` makes of the text of an attribute, as
/// [`outer_attr_parts`]. `None` if the text is no attribute written inside
/// an item.
pub uninterp spec fn inner_attr_parts(attr: Seq<char>) -> Option<
    (Option<Seq<char>>, Option<Seq<char>>),
>;

/// `syn::parse_file`, with each item written out by
/// `quote::ToTokens::to_token_stream` and the `Display` impl of
/// `proc_macro2::TokenStream`, and the error by its own `Display` impl. The
/// result depends on the text alone.
#[verifier::external_body]
fn read_file_items(text: &str) -> (r: Result<Vec<String>, String>)
    ensures
        match r {
            Ok(items) => file_items(text@) == Ok::<Seq<Seq<char>>, Seq<char>>(items.deep_view()),
            Err(message) => file_items(text@) == Err::<Seq<Seq<char>>, Seq<char>>(message@),
        },
{
    match syn::parse_file(text) {
        Ok(file) => Ok(
            file.items.iter().map(|i| quote::ToTokens::to_token_stream(i).to_string()).collect(),
        ),
        Err(e) => Err(e.to_string()),
    }
}

/// `syn::parse_str` for a `syn::ItemMod`: the `ident` field as text and the
/// items of the `content` field, each written out. The result depends on
/// the text alone.
#[verifier::external_body]
fn read_module(item: &str) -> (r: Option<(String, Option<Vec<String>>)>)
    ensures
        r.deep_view() == module_parts(item@),
{
    let module = syn::parse_str::<syn::ItemMod>(item).ok()?;
    let body = module.content.map(
        |(_, items)| items.iter().map(|i| quote::ToTokens::to_token_stream(i).to_string()).collect(),
    );
    Some((module.ident.to_string(), body))
}

/// `syn::parse_str` for a `syn::Item`: the `attrs` field of an item that
/// defines a type, a trait or an impl, each attribute written out. The
/// result depends on the text alone.
#[verifier::external_body]
fn read_type_item_attrs(item: &str) -> (r: Option<Vec<String>>)
    ensures
        r.deep_view() == type_item_attrs(item@),
{
    let parsed = syn::parse_str::<syn::Item>(item).ok()?;
    let attrs = match &parsed {
        syn::Item::Enum(i) => &i.attrs,
        syn::Item::Impl(i) => &i.attrs,
        syn::Item::Struct(i) => &i.attrs,
        syn::Item::Trait(i) => &i.attrs,
        syn::Item::TraitAlias(i) => &i.attrs,
        syn::Item::Type(i) => &i.attrs,
        syn::Item::Union(i) => &i.attrs,
        _ => return None,
    };
    Some(attrs.iter().map(|a| quote::ToTokens::to_token_stream(a).to_string()).collect())
}

/// `syn::parse_str` for a `syn::Item`: the `attrs` field of a constant, a
/// static, a function, a module, an import, a foreign block or a macro
/// invocation, each attribute written out. The result depends on the text
/// alone.
#[verifier::external_body]
fn read_value_item_attrs(item: &str) -> (r: Option<Vec<String>>)
    ensures
        r.deep_view() == value_item_attrs(item@),
{
    let parsed = syn::parse_str::<syn::Item>(item).ok()?;
    let attrs = match &parsed {
        syn::Item::Const(i) => &i.attrs,
        syn::Item::ExternCrate(i) => &i.attrs,
        syn::Item::Fn(i) => &i.attrs,
        syn::Item::ForeignMod(i) => &i.attrs,
        syn::Item::Macro(i) => &i.attrs,
        syn::Item::Mod(i) => &i.attrs,
        syn::Item::Static(i) => &i.attrs,
        syn::Item::Use(i) => &i.attrs,
        _ => return None,
    };
    Some(attrs.iter().map(|a| quote::ToTokens::to_token_stream(a).to_string()).collect())
}

/// `syn::Attribute::parse_outer` on the text of one attribute: its name by
/// `syn::Path::get_ident` and, for a `syn::Meta::List`, its `tokens`
/// written out. The result depends on the text alone.
#[verifier::external_body]
fn read_outer_attr(attr: &str) -> (r: Option<(Option<String>, Option<String>)>)
    ensures
        r.deep_view() == outer_attr_parts(attr@),
{
    let attrs = syn::parse::Parser::parse_str(syn::Attribute::parse_outer, attr).ok()?;
    let first = attrs.first()?;
    let arguments = match &first.meta {
        syn::Meta::List(list) => Some(list.tokens.to_string()),
        _ => None,
    };
    Some((first.path().get_ident().map(|ident| ident.to_string()), arguments))
}

/// `syn::Attribute::parse_inner` on the text of one attribute, as
/// [`read_outer_attr`]. The result depends on the text alone.
#[verifier::external_body]
fn read_inner_attr(attr: &str) -> (r: Option<(Option<String>, Option<String>)>)
    ensures
        r.deep_view() == inner_attr_parts(attr@),
{
    let attrs = syn::parse::Parser::parse_str(syn::Attribute::parse_inner, attr).ok()?;
    let first = attrs.first()?;
    let arguments = match &first.meta {
        syn::Meta::List(list) => Some(list.tokens.to_string()),
        _ => None,
    };
    Some((first.path().get_ident().map(|ident| ident.to_string()), arguments))
}

/// The attribute whose text is `text`: read as an attribute written before
/// an item or, failing that, as one written inside an item.
pub open spec fn attr_of(text: Seq<char>) -> AttrView {
    match outer_attr_parts(text) {
        Some((name, arguments)) => AttrView { name, arguments, text },
        None => match inner_attr_parts(text) {
            Some((name, arguments)) => AttrView { name, arguments, text },
            None => AttrView { name: None, arguments: None, text },
        },
    }
}

/// The texts of the attributes of the item whose text is `item`; none for
/// an item of a kind that `syn` gives no attributes.
pub open spec fn attr_texts_of(item: Seq<char>) -> Seq<Seq<char>> {
    match type_item_attrs(item) {
        Some(texts) => texts,
        None => match value_item_attrs(item) {
            Some(texts) => texts,
            None => Seq::empty(),
        },
    }
}

/// The attributes of the item whose text is `item`.
pub open spec fn attrs_of(item: Seq<char>) -> Seq<AttrView> {
    Seq::new(attr_texts_of(item).len(), |i: int| attr_of(attr_texts_of(item)[i]))
}

/// The item whose text is `item`. Modules are followed into their bodies
/// at most `depth` deep: a module whose body lies deeper is carried over
/// as a plain item, with its text as it stands.
pub open spec fn item_of(item: Seq<char>, depth: nat) -> ItemView
    decreases depth, 0int,
{
    match module_parts(item) {
        None => ItemView::Verbatim { attrs: attrs_of(item), text: item },
        Some((name, None)) => ItemView::Module { name, attrs: attrs_of(item), body: None },
        Some((name, Some(body))) => if depth == 0 {
            ItemView::Verbatim { attrs: attrs_of(item), text: item }
        } else {
            ItemView::Module {
                name,
                attrs: attrs_of(item),
                body: Some(items_of(body, (depth - 1) as nat)),
            }
        },
    }
}

/// The items whose texts are `texts`, one for one and in order.
pub open spec fn items_of(texts: Seq<Seq<char>>, depth: nat) -> Seq<ItemView>
    decreases depth, 1int,
{
    Seq::new(texts.len(), |i: int| item_of(texts[i], depth))
}

/// The items of a source file, or the parser's message if `syn` does not
/// accept the text. Modules are followed into their bodies as deep as the
/// text has characters, which no text can exceed.
pub open spec fn source_items(text: Seq<char>) -> Result<Seq<ItemView>, Seq<char>> {
    match file_items(text) {
        Ok(texts) => Ok(items_of(texts, text.len())),
        Err(message) => Err(message),
    }
}

/// What parsing a source file reports.
pub open spec fn source_outcome(r: Result<Vec<SourceItem>, String>) -> Result<
    Seq<ItemView>,
    Seq<char>,
> {
    match r {
        Ok(items) => Ok(items_view(items@)),
        Err(message) => Err(message@),
    }
}

/// What merging looks at in the attribute whose text is `text`.
fn lower_attr(text: &String) -> (r: Attr)
    ensures
        r.deep_view() == attr_of(text@),
{
    match read_outer_attr(text.as_str()) {
        Some((name, arguments)) => Attr { name, arguments, text: text.clone() },
        None => match read_inner_attr(text.as_str()) {
            Some((name, arguments)) => Attr { name, arguments, text: text.clone() },
            None => Attr { name: None, arguments: None, text: text.clone() },
        },
    }
}

/// The attributes of the item whose text is `item`.
fn lower_attrs(item: &str) -> (r: Vec<Attr>)
    ensures
        r.deep_view() == attrs_of(item@),
{
    let texts = match read_type_item_attrs(item) {
        Some(texts) => texts,
        None => match read_value_item_attrs(item) {
            Some(texts) => texts,
            None => Vec::new(),
        },
    };
    assert(texts.deep_view() =~= attr_texts_of(item@));
    let mut r: Vec<Attr> = Vec::new();
    let mut i: usize = 0;
    while i < texts.len()
        invariant
            i <= texts.len(),
            r.len() == i,
            texts.deep_view() == attr_texts_of(item@),
            forall|k: int| 0 <= k < i ==> (#[trigger] r@[k]).deep_view() == attr_of(texts@[k]@),
        decreases texts.len() - i,
    {
        r.push(lower_attr(&texts[i]));
        i = i + 1;
    }
    proof {
        assert forall|k: int| 0 <= k < r.len() implies r.deep_view()[k] == attrs_of(item@)[k] by {
            assert(texts.deep_view()[k] == texts@[k]@);
        }
        assert(r.deep_view() =~= attrs_of(item@));
    }
    r
}

/// What merging looks at in the item whose text is `item`, with modules
/// followed into their bodies at most `depth` deep.
fn lower_item(item: &String, depth: usize) -> (r: SourceItem)
    ensures
        item_view(r) == item_of(item@, depth as nat),
    decreases depth, 0int,
{
    let attrs = lower_attrs(item.as_str());
    match read_module(item.as_str()) {
        None => SourceItem::Verbatim { attrs, text: item.clone() },
        Some((name, None)) => SourceItem::Module { name, attrs, body: None },
        Some((name, Some(inner))) => {
            if depth == 0 {
                SourceItem::Verbatim { attrs, text: item.clone() }
            } else {
                let body = lower_items(&inner, depth - 1);
                SourceItem::Module { name, attrs, body: Some(body) }
            }
        },
    }
}

/// What merging looks at in the items whose texts are `texts`, one for one
/// and in order.
fn lower_items(texts: &Vec<String>, depth: usize) -> (r: Vec<SourceItem>)
    ensures
        items_view(r@) == items_of(texts.deep_view(), depth as nat),
    decreases depth, 1int,
{
    let mut r: Vec<SourceItem> = Vec::new();
    let mut i: usize = 0;
    while i < texts.len()
        invariant
            i <= texts.len(),
            r.len() == i,
            forall|k: int| 0 <= k < i ==> item_view(#[trigger] r@[k]) == item_of(texts@[k]@, depth as nat),
        decreases texts.len() - i,
    {
        r.push(lower_item(&texts[i], depth));
        i = i + 1;
    }
    proof {
        assert forall|k: int| 0 <= k < r.len() implies items_view(r@)[k] == items_of(
            texts.deep_view(),
            depth as nat,
        )[k] by {
            assert(texts.deep_view()[k] == texts@[k]@);
        }
        assert(items_view(r@) =~= items_of(texts.deep_view(), depth as nat));
    }
    r
}

/// Parses a source file into its items. Fails, with `syn`'s message, exactly
/// when `syn` does not accept the text.
pub fn parse_source(text: &str) -> (r: Result<Vec<SourceItem>, String>)
    ensures
        source_outcome(r) == source_items(text@),
{
    match read_file_items(text) {
        Err(message) => Err(message),
        Ok(texts) => Ok(lower_items(&texts, text.unicode_len())),
    }
}

} // verus!
