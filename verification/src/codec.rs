//! The escaping of file paths that lets a path travel inside a marker.
//!
//! Four characters of a path are reserved. Each is replaced by a token of its
//! own, written in capitals between double underscores; every other character
//! stands for itself. Because `_` is itself reserved, an underscore in an
//! encoded path always begins a token, so the encoding can be read back from
//! left to right without ambiguity.
use vstd::prelude::*;
use crate::text::{chars_of, is_at, occurs_at, push_all, string_of};

verus! {

/// The token that stands for `.`.
pub open spec fn dot_token() -> Seq<char> {
    seq!['_', '_', 'D', 'O', 'T', '_', '_']
}

/// The token that stands for `_`.
pub open spec fn underscore_token() -> Seq<char> {
    seq!['_', '_', 'U', 'N', 'D', 'E', 'R', 'S', 'C', 'O', 'R', 'E', '_', '_']
}

/// The token that stands for `/`.
pub open spec fn slash_token() -> Seq<char> {
    seq!['_', '_', 'S', 'L', 'A', 'S', 'H', '_', '_']
}

/// The token that stands for `-`.
pub open spec fn dash_token() -> Seq<char> {
    seq!['_', '_', 'D', 'A', 'S', 'H', '_', '_']
}

/// What one character of a path is encoded as.
pub open spec fn token_of(c: char) -> Seq<char> {
    if c == '.' {
        dot_token()
    } else if c == '_' {
        underscore_token()
    } else if c == '/' {
        slash_token()
    } else if c == '-' {
        dash_token()
    } else {
        seq![c]
    }
}

/// The encoded form of a path: the tokens of its characters, in order.
pub open spec fn encoded(p: Seq<char>) -> Seq<char>
    decreases p.len(),
{
    if p.len() == 0 {
        Seq::empty()
    } else {
        token_of(p[0]) + encoded(p.skip(1))
    }
}

/// The reserved character whose token begins `s`, with the token's length.
pub open spec fn leading_token(s: Seq<char>) -> Option<(char, int)> {
    if occurs_at(s, 0, dot_token()) {
        Some(('.', 7))
    } else if occurs_at(s, 0, underscore_token()) {
        Some(('_', 14))
    } else if occurs_at(s, 0, slash_token()) {
        Some(('/', 9))
    } else if occurs_at(s, 0, dash_token()) {
        Some(('-', 8))
    } else {
        None
    }
}

/// The path that an encoded text stands for. The text is read from the left:
/// where a token begins, the token gives its character; any other character
/// is taken as it is.
pub open spec fn decoded(s: Seq<char>) -> Seq<char>
    decreases s.len(),
{
    if s.len() == 0 {
        Seq::empty()
    } else {
        match leading_token(s) {
            Some((c, n)) => seq![c] + decoded(s.skip(n)),
            None => seq![s[0]] + decoded(s.skip(1)),
        }
    }
}

/// Reading back one token, whatever follows it, gives the character that the
/// token was written for.
pub proof fn lemma_decode_token(c: char, rest: Seq<char>)
    ensures
        decoded(token_of(c) + rest) == seq![c] + decoded(rest),
{
    let s = token_of(c) + rest;
    let n = token_of(c).len() as int;
    assert(s.subrange(0, n) =~= token_of(c));
    assert(s.skip(n) =~= rest);
    if c == '.' {
        assert(occurs_at(s, 0, dot_token()));
    } else if c == '_' {
        assert(s[2] == 'U');
        assert(!occurs_at(s, 0, dot_token())) by {
            if occurs_at(s, 0, dot_token()) {
                assert(s.subrange(0, 7)[2] == dot_token()[2]);
            }
        }
        assert(occurs_at(s, 0, underscore_token()));
    } else if c == '/' {
        assert(s[2] == 'S');
        assert(!occurs_at(s, 0, dot_token())) by {
            if occurs_at(s, 0, dot_token()) {
                assert(s.subrange(0, 7)[2] == dot_token()[2]);
            }
        }
        assert(!occurs_at(s, 0, underscore_token())) by {
            if occurs_at(s, 0, underscore_token()) {
                assert(s.subrange(0, 14)[2] == underscore_token()[2]);
            }
        }
        assert(occurs_at(s, 0, slash_token()));
    } else if c == '-' {
        assert(s[2] == 'D' && s[3] == 'A');
        assert(!occurs_at(s, 0, dot_token())) by {
            if occurs_at(s, 0, dot_token()) {
                assert(s.subrange(0, 7)[3] == dot_token()[3]);
            }
        }
        assert(!occurs_at(s, 0, underscore_token())) by {
            if occurs_at(s, 0, underscore_token()) {
                assert(s.subrange(0, 14)[2] == underscore_token()[2]);
            }
        }
        assert(!occurs_at(s, 0, slash_token())) by {
            if occurs_at(s, 0, slash_token()) {
                assert(s.subrange(0, 9)[2] == slash_token()[2]);
            }
        }
        assert(occurs_at(s, 0, dash_token()));
    } else {
        assert(s[0] == c);
        assert(leading_token(s) is None) by {
            if occurs_at(s, 0, dot_token()) {
                assert(s.subrange(0, 7)[0] == dot_token()[0]);
            }
            if occurs_at(s, 0, underscore_token()) {
                assert(s.subrange(0, 14)[0] == underscore_token()[0]);
            }
            if occurs_at(s, 0, slash_token()) {
                assert(s.subrange(0, 9)[0] == slash_token()[0]);
            }
            if occurs_at(s, 0, dash_token()) {
                assert(s.subrange(0, 8)[0] == dash_token()[0]);
            }
        }
    }
}

/// Decoding an encoded path gives the path back, whatever characters the path
/// holds.
pub proof fn lemma_decode_encode(p: Seq<char>)
    ensures
        decoded(encoded(p)) == p,
    decreases p.len(),
{
    if p.len() > 0 {
        lemma_decode_encode(p.skip(1));
        lemma_decode_token(p[0], encoded(p.skip(1)));
        assert(seq![p[0]] + p.skip(1) =~= p);
    }
}

/// No two paths have the same encoding.
pub proof fn lemma_encode_is_injective(p: Seq<char>, q: Seq<char>)
    requires
        encoded(p) == encoded(q),
    ensures
        p == q,
{
    lemma_decode_encode(p);
    lemma_decode_encode(q);
}

/// Encodes a path so that it can stand inside a marker.
pub fn encode_filename(filename: &str) -> (encoded_name: String)
    ensures
        encoded_name@ == encoded(filename@),
{
    let chars = chars_of(filename);
    let out = encode_chars(&chars);
    string_of(&out)
}

/// Reads an encoded path back.
pub fn decode_filename(encoded_name: &str) -> (filename: String)
    ensures
        filename@ == decoded(encoded_name@),
{
    let chars = chars_of(encoded_name);
    let out = decode_chars(&chars);
    string_of(&out)
}

/// [`encode_filename`] on characters.
pub fn encode_chars(path: &Vec<char>) -> (out: Vec<char>)
    ensures
        out@ == encoded(path@),
{
    let dot = chars_of("__DOT__");
    let underscore = chars_of("__UNDERSCORE__");
    let slash = chars_of("__SLASH__");
    let dash = chars_of("__DASH__");
    proof {
        reveal_strlit("__DOT__");
        reveal_strlit("__UNDERSCORE__");
        reveal_strlit("__SLASH__");
        reveal_strlit("__DASH__");
        assert(dot@ =~= dot_token());
        assert(underscore@ =~= underscore_token());
        assert(slash@ =~= slash_token());
        assert(dash@ =~= dash_token());
    }
    let mut out: Vec<char> = Vec::new();
    let mut i: usize = 0;
    proof {
        assert(path@.skip(0) =~= path@);
        assert(Seq::<char>::empty() + encoded(path@) =~= encoded(path@));
    }
    while i < path.len()
        invariant
            i <= path.len(),
            dot@ == dot_token(),
            underscore@ == underscore_token(),
            slash@ == slash_token(),
            dash@ == dash_token(),
            out@ + encoded(path@.skip(i as int)) == encoded(path@),
        decreases path.len() - i,
    {
        let c = path[i];
        let ghost before = out@;
        if c == '.' {
            push_all(&mut out, &dot);
        } else if c == '_' {
            push_all(&mut out, &underscore);
        } else if c == '/' {
            push_all(&mut out, &slash);
        } else if c == '-' {
            push_all(&mut out, &dash);
        } else {
            out.push(c);
            assert(out@ =~= before + seq![c]);
        }
        proof {
            let rest = path@.skip(i as int);
            assert(rest.skip(1) =~= path@.skip(i + 1));
            assert(out@ == before + token_of(c));
            assert((before + token_of(c)) + encoded(path@.skip(i + 1)) =~= before + (token_of(c)
                + encoded(rest.skip(1))));
        }
        i = i + 1;
    }
    assert(out@ + Seq::<char>::empty() =~= out@);
    out
}

/// [`decode_filename`] on characters.
pub fn decode_chars(text: &Vec<char>) -> (out: Vec<char>)
    ensures
        out@ == decoded(text@),
{
    let dot = chars_of("__DOT__");
    let underscore = chars_of("__UNDERSCORE__");
    let slash = chars_of("__SLASH__");
    let dash = chars_of("__DASH__");
    proof {
        reveal_strlit("__DOT__");
        reveal_strlit("__UNDERSCORE__");
        reveal_strlit("__SLASH__");
        reveal_strlit("__DASH__");
        assert(dot@ =~= dot_token());
        assert(underscore@ =~= underscore_token());
        assert(slash@ =~= slash_token());
        assert(dash@ =~= dash_token());
    }
    let mut out: Vec<char> = Vec::new();
    let mut i: usize = 0;
    proof {
        assert(text@.skip(0) =~= text@);
        assert(Seq::<char>::empty() + decoded(text@) =~= decoded(text@));
    }
    while i < text.len()
        invariant
            i <= text.len(),
            dot@ == dot_token(),
            underscore@ == underscore_token(),
            slash@ == slash_token(),
            dash@ == dash_token(),
            out@ + decoded(text@.skip(i as int)) == decoded(text@),
        decreases text.len() - i,
    {
        let ghost rest = text@.skip(i as int);
        let ghost before = out@;
        proof {
            lemma_occurs_at_skip(text@, i as int, dot_token());
            lemma_occurs_at_skip(text@, i as int, underscore_token());
            lemma_occurs_at_skip(text@, i as int, slash_token());
            lemma_occurs_at_skip(text@, i as int, dash_token());
        }
        let step: usize;
        if is_at(text, i, &dot) {
            out.push('.');
            step = 7;
        } else if is_at(text, i, &underscore) {
            out.push('_');
            step = 14;
        } else if is_at(text, i, &slash) {
            out.push('/');
            step = 9;
        } else if is_at(text, i, &dash) {
            out.push('-');
            step = 8;
        } else {
            out.push(text[i]);
            step = 1;
        }
        proof {
            assert(rest.skip(step as int) =~= text@.skip(i + step));
            assert(out@ =~= before + seq![out@.last()]);
            assert((before + seq![out@.last()]) + decoded(rest.skip(step as int)) =~= before + (
            seq![out@.last()] + decoded(rest.skip(step as int))));
        }
        i = i + step;
    }
    assert(out@ + Seq::<char>::empty() =~= out@);
    out
}

/// A pattern occurs at index `i` of a text exactly when it begins the text
/// that is left after the first `i` characters.
pub proof fn lemma_occurs_at_skip(s: Seq<char>, i: int, pat: Seq<char>)
    requires
        0 <= i <= s.len(),
    ensures
        occurs_at(s, i, pat) == occurs_at(s.skip(i), 0, pat),
{
    if i + pat.len() <= s.len() {
        assert(s.skip(i).subrange(0, pat.len() as int) =~= s.subrange(i, i + pat.len()));
    }
}

} // verus!
