//! Writes an expanded stream out as source text.
//!
//! Every element ends its own line. A marker is written as a constant
//! without a name whose value is a string literal; the literal holds a fixed
//! prefix and the encoded path of the file, so that the marker survives a
//! formatter and can be found again afterwards.
use vstd::prelude::*;
use crate::codec::{encode_chars, encoded};
use crate::expand::{Emitted, EmittedView, emitted_view, stream_view};
use crate::text::{chars_of, push_all, push_str, string_of};

verus! {

/// The string literal that `proc_macro2::Literal::string` writes for a text:
/// the text between double quotes, with the characters escaped that a Rust
/// string literal cannot hold as they are. The name stands for what
/// `proc-macro2` does as a plain library, which is how it is used here;
/// inside a procedural macro it hands the escaping to the compiler.
pub uninterp spec fn string_literal(text: Seq<char>) -> Seq<char>;

/// `proc_macro2::Literal::string`, written out with the literal's `Display`
/// impl. The result depends on the text alone.
#[verifier::external_body]
fn quote_string(text: &str) -> (r: String)
    ensures
        r@ == string_literal(text@),
{
    proc_macro2::Literal::string(text).to_string()
}

/// What the payload of every marker begins with.
pub open spec fn marker_prefix() -> Seq<char> {
    "RUSTMERGE_COMMENT_"@
}

/// What the string literal of the marker of `file` holds: the prefix and
/// the encoded path.
pub open spec fn marker_payload(file: Seq<char>) -> Seq<char> {
    marker_prefix() + encoded(file)
}

/// The declaration that carries the string literal `literal` as a marker.
pub open spec fn marker_declaration(literal: Seq<char>) -> Seq<char> {
    "const _: &'static str = "@ + literal + ";"@
}

/// The marker of `file`, as source text.
pub open spec fn marker_text(file: Seq<char>) -> Seq<char> {
    marker_declaration(string_literal(marker_payload(file)))
}

/// The attributes of a module, each on a line of its own.
pub open spec fn attr_lines(attrs: Seq<Seq<char>>, i: int) -> Seq<char>
    decreases attrs.len() - i,
{
    if i < 0 || i >= attrs.len() {
        Seq::empty()
    } else {
        attrs[i] + seq!['\n'] + attr_lines(attrs, i + 1)
    }
}

/// Element `i` of a stream as source text, without the line end.
///
/// A marker is written as [`marker_text`] says and an item as its own text.
/// A module is written behind its attributes as `pub mod`, its name and
/// either `;` or its block between braces.
pub open spec fn element_text(stream: Seq<EmittedView>, i: int) -> Seq<char>
    decreases stream, stream.len() - i, 0int,
{
    if i < 0 || i >= stream.len() {
        Seq::empty()
    } else {
        match stream[i] {
            EmittedView::Marker { file } => marker_text(file),
            EmittedView::Verbatim { text } => text,
            EmittedView::Module { name, attrs, body: None } => attr_lines(attrs, 0) + "pub mod "@
                + name + ";"@,
            EmittedView::Module { name, attrs, body: Some(block) } => attr_lines(attrs, 0)
                + "pub mod "@ + name + " {\n"@ + rendered_from(block, 0) + "}"@,
        }
    }
}

/// A stream as source text, from element `i` on: each element on a line of
/// its own, in order.
pub open spec fn rendered_from(stream: Seq<EmittedView>, i: int) -> Seq<char>
    decreases stream, stream.len() - i, 1int,
{
    if i < 0 || i >= stream.len() {
        Seq::empty()
    } else {
        element_text(stream, i) + seq!['\n'] + rendered_from(stream, i + 1)
    }
}

/// A stream as source text.
pub open spec fn rendered(stream: Seq<EmittedView>) -> Seq<char> {
    rendered_from(stream, 0)
}

/// The declaration that carries the string literal `literal` as a marker.
pub fn marker_declaration_of(literal: &str) -> (r: String)
    ensures
        r@ == marker_declaration(literal@),
{
    let mut out = chars_of("const _: &'static str = ");
    push_str(&mut out, literal);
    push_str(&mut out, ";");
    string_of(&out)
}

/// What the string literal of the marker of `file` holds.
pub fn marker_payload_of(file: &str) -> (r: String)
    ensures
        r@ == marker_payload(file@),
{
    let mut out = chars_of("RUSTMERGE_COMMENT_");
    let name = encode_chars(&chars_of(file));
    push_all(&mut out, &name);
    string_of(&out)
}

/// The marker of `file`, as source text.
pub fn marker_text_of(file: &str) -> (r: String)
    ensures
        r@ == marker_text(file@),
{
    let payload = marker_payload_of(file);
    let literal = quote_string(payload.as_str());
    marker_declaration_of(literal.as_str())
}

/// Appends the attributes of a module to `out`, each on a line of its own.
fn push_attr_lines(attrs: &Vec<String>, out: &mut Vec<char>)
    ensures
        final(out)@ == old(out)@ + attr_lines(attrs.deep_view(), 0),
{
    let ghost all = attrs.deep_view();
    let mut i: usize = 0;
    assert(out@ + Seq::<char>::empty() =~= out@);
    while i < attrs.len()
        invariant
            i <= attrs.len(),
            all == attrs.deep_view(),
            out@ + attr_lines(all, i as int) == old(out)@ + attr_lines(all, 0),
        decreases attrs.len() - i,
    {
        let ghost before = out@;
        push_str(out, attrs[i].as_str());
        out.push('\n');
        proof {
            assert(all[i as int] == attrs@[i as int]@);
            assert(out@ =~= before + (all[i as int] + seq!['\n']));
            assert((before + (all[i as int] + seq!['\n'])) + attr_lines(all, i + 1) =~= before + (
            all[i as int] + seq!['\n'] + attr_lines(all, i + 1)));
        }
        i = i + 1;
    }
    assert(out@ + Seq::<char>::empty() =~= out@);
}

/// Appends a stream, written out, to `out`.
pub fn render_into(stream: &Vec<Emitted>, out: &mut Vec<char>)
    ensures
        final(out)@ == old(out)@ + rendered(stream_view(stream@)),
    decreases stream,
{
    let ghost all = stream_view(stream@);
    let mut i: usize = 0;
    assert(out@ + Seq::<char>::empty() =~= out@);
    while i < stream.len()
        invariant
            i <= stream.len(),
            all == stream_view(stream@),
            out@ + rendered_from(all, i as int) == old(out)@ + rendered_from(all, 0),
        decreases stream.len() - i,
    {
        let ghost before = out@;
        assert(all[i as int] == emitted_view(stream@[i as int]));
        match &stream[i] {
            Emitted::Marker { file } => {
                let text = marker_text_of(file.as_str());
                push_str(out, text.as_str());
            },
            Emitted::Verbatim { text } => {
                push_str(out, text.as_str());
            },
            Emitted::Module { name, attrs, body } => {
                push_attr_lines(attrs, out);
                push_str(out, "pub mod ");
                push_str(out, name.as_str());
                match body {
                    None => {
                        push_str(out, ";");
                    },
                    Some(block) => {
                        push_str(out, " {\n");
                        render_into(block, out);
                        push_str(out, "}");
                    },
                }
            },
        }
        proof {
            assert(out@ =~= before + element_text(all, i as int));
        }
        out.push('\n');
        proof {
            let line = element_text(all, i as int) + seq!['\n'];
            assert(out@ =~= before + line);
            assert((before + line) + rendered_from(all, i + 1) =~= before + (line
                + rendered_from(all, i + 1)));
        }
        i = i + 1;
    }
    assert(out@ + Seq::<char>::empty() =~= out@);
}

/// Writes a stream out as source text.
pub fn render(stream: &Vec<Emitted>) -> (r: String)
    ensures
        r@ == rendered(stream_view(stream@)),
{
    let mut out: Vec<char> = Vec::new();
    render_into(stream, &mut out);
    assert(Seq::<char>::empty() + rendered(stream_view(stream@)) =~= rendered(
        stream_view(stream@),
    ));
    string_of(&out)
}

} // verus!
