//! Textual encoding of a one-character status marker inside a tab name.
//!
//! A tab name is either plain, or decorated as `<marker><space><base>`
//! where the marker is exactly one Unicode scalar value. The name string
//! is the single source of truth: there is no separate status field.

use vstd::prelude::*;

verus! {

/// A name carries a status marker when its second character is a space:
/// the first character is then the marker.
pub open spec fn has_marker(s: Seq<char>) -> bool {
    s.len() >= 2 && s[1] == ' '
}

/// The status marker of a name: its first character when decorated,
/// empty otherwise.
pub open spec fn marker_of(s: Seq<char>) -> Seq<char> {
    if has_marker(s) {
        s.subrange(0, 1)
    } else {
        Seq::<char>::empty()
    }
}

/// The base name: everything after the marker and its separating space
/// when decorated, the whole name otherwise.
pub open spec fn base_of(s: Seq<char>) -> Seq<char> {
    if has_marker(s) {
        s.subrange(2, s.len() as int)
    } else {
        s
    }
}

/// A base name decorated with a one-character marker.
pub open spec fn decorated(marker: char, base: Seq<char>) -> Seq<char> {
    seq![marker, ' '] + base
}

/// The base name of `name`: the text after the `<marker><space>` prefix
/// when there is one, the unchanged name otherwise.
pub fn extract_base_name<'a>(name: &'a str) -> (r: &'a str)
    ensures
        r@ == base_of(name@),
{
    let len = name.unicode_len();
    if len >= 2 && name.get_char(1) == ' ' {
        name.substring_char(2, len)
    } else {
        name
    }
}

/// The status marker of `name`: its first character when the second one
/// is a space, the empty string otherwise. The substring is taken on a
/// character boundary, so multi-byte markers come out whole.
pub fn extract_status<'a>(name: &'a str) -> (r: &'a str)
    ensures
        r@ == marker_of(name@),
{
    let len = name.unicode_len();
    if len >= 2 && name.get_char(1) == ' ' {
        name.substring_char(0, 1)
    } else {
        proof {
            reveal_strlit("");
            assert(""@ =~= Seq::<char>::empty());
        }
        ""
    }
}

/// A one-character marker string put before `<space><base>` — the way
/// the status command builds a new name — is exactly `decorated`.
pub proof fn lemma_one_char_decoration(marker: char, base: Seq<char>)
    ensures
        seq![marker] + seq![' '] + base == decorated(marker, base),
{
    assert(seq![marker] + seq![' '] + base =~= decorated(marker, base));
}

/// Marker round-trip: decorating any base with any one-character marker
/// decodes back to exactly that marker and that base.
pub proof fn lemma_marker_round_trip(marker: char, base: Seq<char>)
    ensures
        marker_of(decorated(marker, base)) == seq![marker],
        base_of(decorated(marker, base)) == base,
{
    let s = decorated(marker, base);
    assert(s[1] == ' ');
    assert(s.subrange(0, 1) =~= seq![marker]);
    assert(s.subrange(2, s.len() as int) =~= base);
}

/// Plain-name decode: a name whose second character is not a space (or
/// that is shorter than two characters) has no marker and is its own
/// base.
pub proof fn lemma_plain_name_decode(s: Seq<char>)
    requires
        !has_marker(s),
    ensures
        marker_of(s) == Seq::<char>::empty(),
        base_of(s) == s,
{
}

} // verus!
