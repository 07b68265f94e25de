//! Turns the markers of a formatted text into comments.
//!
//! The markers are found with a regular expression. What the search reports
//! is checked against the text before it is used: the pieces between the
//! matches and the matches themselves, put back together, must give the
//! text. Then each match is replaced by a comment that names the file whose
//! encoded path the marker holds, and every piece between the matches is
//! kept as it is.
use vstd::prelude::*;
use crate::codec::{decode_chars, decoded, encoded, lemma_decode_encode};
use crate::text::{chars_of, push_all, push_str, string_of};

verus! {

/// The regular expression that finds a marker, however a formatter has
/// spaced it. Its one group holds the encoded path.
pub const MARKER_PATTERN: &'static str =
    r#"const\s+_\s*:\s*&\s*'static\s*str\s*=\s*"RUSTMERGE_COMMENT_([^"]+)"\s*;"#;

/// One match of a pattern in a text: the whole text that matched and, if
/// the first group of the pattern took part in the match, what that group
/// matched.
pub type MarkerMatch = (String, Option<String>);

/// What a [`MarkerMatch`] holds.
pub type MatchView = (Seq<char>, Option<Seq<char>>);

/// The pieces that `regex::Regex::split` cuts `text` into with the regular
/// expression `pattern`: the parts of the text that no match covers, in
/// order. `None` if `pattern` is not a regular expression that
/// `regex::Regex::new` accepts.
pub uninterp spec fn regex_pieces(pattern: Seq<char>, text: Seq<char>) -> Option<Seq<Seq<char>>>;

/// The matches that `regex::Regex::captures_iter` finds in `text` with the
/// regular expression `pattern`, in order, each with what its first group
/// matched. `None` if `pattern` is not a regular expression that
/// `regex::Regex::new` accepts.
pub uninterp spec fn regex_matches(pattern: Seq<char>, text: Seq<char>) -> Option<
    Seq<(Seq<char>, Option<Seq<char>>)>,
>;

/// Compiles `pattern` with `regex::Regex::new` and cuts `text` with
/// `Regex::split`. The result depends on the two texts alone.
#[verifier::external_body]
fn split_by(pattern: &str, text: &str) -> (r: Option<Vec<String>>)
    ensures
        r.deep_view() == regex_pieces(pattern@, text@),
{
    match regex::Regex::new(pattern) {
        Ok(re) => Some(re.split(text).map(|piece| piece.to_string()).collect()),
        Err(_) => None,
    }
}

/// Compiles `pattern` with `regex::Regex::new` and walks the matches in
/// `text` with `Regex::captures_iter`, taking from each the text of the
/// whole match and of the first group. The result depends on the two texts
/// alone.
#[verifier::external_body]
fn matches_of(pattern: &str, text: &str) -> (r: Option<Vec<MarkerMatch>>)
    ensures
        r.deep_view() == regex_matches(pattern@, text@),
{
    match regex::Regex::new(pattern) {
        Ok(re) => Some(
            re.captures_iter(text).map(
                |found|
                    (found[0].to_string(), found.get(1).map(|group| group.as_str().to_string())),
            ).collect(),
        ),
        Err(_) => None,
    }
}

/// The pieces and the matches put back together, from piece `i` on: piece,
/// match, piece, and so on, ending with a piece.
pub open spec fn interleaved(pieces: Seq<Seq<char>>, matches: Seq<MatchView>, i: int) -> Seq<char>
    decreases pieces.len() - i,
{
    if i < 0 || i >= pieces.len() {
        Seq::empty()
    } else if i < matches.len() {
        pieces[i] + matches[i].0 + interleaved(pieces, matches, i + 1)
    } else {
        pieces[i] + interleaved(pieces, matches, i + 1)
    }
}

/// The pieces and the matches account for the text: there is one piece
/// more than there are matches, and put back together they give the text.
pub open spec fn scan_fits(text: Seq<char>, pieces: Seq<Seq<char>>, matches: Seq<MatchView>)
    -> bool {
    pieces.len() == matches.len() + 1 && interleaved(pieces, matches, 0) == text
}

/// The comment that a marker with this payload is replaced by: `// ` and
/// the decoded path.
pub open spec fn marker_comment(payload: Seq<char>) -> Seq<char> {
    seq!['/', '/', ' '] + decoded(payload)
}

/// What a match is replaced by: the comment for its payload. A match
/// without a payload is kept as it is.
pub open spec fn replacement(found: MatchView) -> Seq<char> {
    match found.1 {
        Some(payload) => marker_comment(payload),
        None => found.0,
    }
}

/// The pieces with the replacement of each match between them, from piece
/// `i` on.
pub open spec fn spliced(pieces: Seq<Seq<char>>, matches: Seq<MatchView>, i: int) -> Seq<char>
    decreases pieces.len() - i,
{
    if i < 0 || i >= pieces.len() {
        Seq::empty()
    } else if i < matches.len() {
        pieces[i] + replacement(matches[i]) + spliced(pieces, matches, i + 1)
    } else {
        pieces[i] + spliced(pieces, matches, i + 1)
    }
}

/// The text with its markers turned into comments, given what a search for
/// markers reported. A report that does not account for the text is not
/// used, and the text stays as it is.
pub open spec fn rewritten_with(
    text: Seq<char>,
    pieces: Seq<Seq<char>>,
    matches: Seq<MatchView>,
) -> Seq<char> {
    if scan_fits(text, pieces, matches) {
        spliced(pieces, matches, 0)
    } else {
        text
    }
}

/// The text with its markers turned into comments. If the search cannot be
/// made, the text stays as it is.
pub open spec fn rewritten(text: Seq<char>) -> Seq<char> {
    match (regex_pieces(MARKER_PATTERN@, text), regex_matches(MARKER_PATTERN@, text)) {
        (Some(pieces), Some(matches)) => rewritten_with(text, pieces, matches),
        _ => text,
    }
}

/// The comment for the encoded path of a file names the file.
pub proof fn lemma_comment_names_the_file(file: Seq<char>)
    ensures
        marker_comment(encoded(file)) == seq!['/', '/', ' '] + file,
{
    lemma_decode_encode(file);
}

/// A search for markers in the text finds one.
pub open spec fn holds_marker(text: Seq<char>) -> bool {
    regex_matches(MARKER_PATTERN@, text) matches Some(matches) && matches.len() > 0
}

/// A text in which no match was found is not changed, whatever pieces were
/// reported with that.
pub proof fn lemma_no_match_no_change(text: Seq<char>, pieces: Seq<Seq<char>>)
    ensures
        rewritten_with(text, pieces, Seq::empty()) == text,
{
    let none = Seq::<MatchView>::empty();
    if scan_fits(text, pieces, none) {
        reveal_with_fuel(interleaved, 2);
        reveal_with_fuel(spliced, 2);
        assert(interleaved(pieces, none, 0) =~= pieces[0]);
        assert(spliced(pieces, none, 0) =~= pieces[0]);
    }
}

/// A text in which no marker is found is not changed.
pub proof fn lemma_without_marker_unchanged(text: Seq<char>)
    requires
        !holds_marker(text),
    ensures
        rewritten(text) == text,
{
    match (regex_pieces(MARKER_PATTERN@, text), regex_matches(MARKER_PATTERN@, text)) {
        (Some(pieces), Some(matches)) => {
            lemma_no_match_no_change(text, pieces);
            assert(matches =~= Seq::<MatchView>::empty());
        },
        _ => {},
    }
}

/// Rewriting settles: unless the rewritten text holds a marker again,
/// rewriting it once more changes nothing.
pub proof fn lemma_rewrite_settles(text: Seq<char>)
    ensures
        !holds_marker(rewritten(text)) ==> rewritten(rewritten(text)) == rewritten(text),
{
    if !holds_marker(rewritten(text)) {
        lemma_without_marker_unchanged(rewritten(text));
    }
}

/// The comment that a marker with this payload is replaced by.
pub fn marker_comment_of(payload: &str) -> (r: String)
    ensures
        r@ == marker_comment(payload@),
{
    let mut out: Vec<char> = Vec::new();
    out.push('/');
    out.push('/');
    out.push(' ');
    let name = decode_chars(&chars_of(payload));
    push_all(&mut out, &name);
    assert(out@ =~= marker_comment(payload@));
    string_of(&out)
}

/// Puts pieces and matches together, with each match either kept or
/// replaced.
fn weave(pieces: &Vec<String>, matches: &Vec<MarkerMatch>, replace: bool) -> (out: Vec<char>)
    ensures
        out@ == if replace {
            spliced(pieces.deep_view(), matches.deep_view(), 0)
        } else {
            interleaved(pieces.deep_view(), matches.deep_view(), 0)
        },
{
    let ghost ps = pieces.deep_view();
    let ghost ms = matches.deep_view();
    let mut out: Vec<char> = Vec::new();
    let mut i: usize = 0;
    proof {
        assert(out@ + spliced(ps, ms, 0) =~= spliced(ps, ms, 0));
        assert(out@ + interleaved(ps, ms, 0) =~= interleaved(ps, ms, 0));
    }
    while i < pieces.len()
        invariant
            i <= pieces.len(),
            ps == pieces.deep_view(),
            ms == matches.deep_view(),
            replace ==> out@ + spliced(ps, ms, i as int) == spliced(ps, ms, 0),
            !replace ==> out@ + interleaved(ps, ms, i as int) == interleaved(ps, ms, 0),
        decreases pieces.len() - i,
    {
        let ghost before = out@;
        assert(ps[i as int] == pieces@[i as int]@);
        push_str(&mut out, pieces[i].as_str());
        if i < matches.len() {
            assert(ms[i as int] == matches@[i as int].deep_view());
            let found = &matches[i];
            if replace {
                match &found.1 {
                    Some(payload) => {
                        let comment = marker_comment_of(payload.as_str());
                        push_str(&mut out, comment.as_str());
                    },
                    None => {
                        push_str(&mut out, found.0.as_str());
                    },
                }
            } else {
                push_str(&mut out, found.0.as_str());
            }
            proof {
                if replace {
                    let step = ps[i as int] + replacement(ms[i as int]);
                    assert(out@ =~= before + step);
                    assert((before + step) + spliced(ps, ms, i + 1) =~= before + (step + spliced(
                        ps,
                        ms,
                        i + 1,
                    )));
                } else {
                    let step = ps[i as int] + ms[i as int].0;
                    assert(out@ =~= before + step);
                    assert((before + step) + interleaved(ps, ms, i + 1) =~= before + (step
                        + interleaved(ps, ms, i + 1)));
                }
            }
        } else {
            proof {
                let step = ps[i as int];
                assert((before + step) + spliced(ps, ms, i + 1) =~= before + (step + spliced(
                    ps,
                    ms,
                    i + 1,
                )));
                assert((before + step) + interleaved(ps, ms, i + 1) =~= before + (step
                    + interleaved(ps, ms, i + 1)));
            }
        }
        i = i + 1;
    }
    proof {
        assert(out@ + Seq::<char>::empty() =~= out@);
    }
    out
}

/// Turns the markers of `text` into comments, given the pieces and the
/// matches that a search for markers reported.
pub fn rewrite_with(text: &str, pieces: &Vec<String>, matches: &Vec<MarkerMatch>) -> (r: String)
    ensures
        r@ == rewritten_with(text@, pieces.deep_view(), matches.deep_view()),
{
    assert(pieces.deep_view().len() == pieces.len());
    assert(matches.deep_view().len() == matches.len());
    if matches.len() == usize::MAX || pieces.len() != matches.len() + 1 {
        return text.to_owned();
    }
    let whole = weave(pieces, matches, false);
    if !crate::text::str_eq(string_of(&whole).as_str(), text) {
        return text.to_owned();
    }
    let out = weave(pieces, matches, true);
    string_of(&out)
}

/// Turns the markers of a formatted text into comments. Everything else in
/// the text is kept as it is.
pub fn rewrite_markers(text: &str) -> (r: String)
    ensures
        r@ == rewritten(text@),
{
    match split_by(MARKER_PATTERN, text) {
        Some(pieces) => match matches_of(MARKER_PATTERN, text) {
            Some(matches) => rewrite_with(text, &pieces, &matches),
            None => text.to_owned(),
        },
        None => text.to_owned(),
    }
}

} // verus!
