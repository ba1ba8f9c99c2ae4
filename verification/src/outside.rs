//! The calls into outside code: the `regex` crate, the `indexmap` map that
//! holds the chain of files being read, and std's decoding, classification
//! and lower-casing of text.
use vstd::prelude::*;
use crate::chars::spec_upper;
use vstd::string::StringSliceAdditionalSpecFns;
use vstd::utf8::valid_utf8;
use indexmap::IndexMap;
use crate::span::{FileId, FileIdView, Pos};

verus! {

/// `.endl` (any case) starts at `k`.
pub open spec fn spec_endl_at(s: Seq<u8>, k: int) -> bool {
    0 <= k && k + 5 <= s.len() && s[k] == 0x2e && spec_upper(s[k + 1]) == 0x45
        && spec_upper(s[k + 2]) == 0x4e && spec_upper(s[k + 3]) == 0x44 && spec_upper(s[k + 4]) == 0x4c
}

/// Calls `regex::bytes::Regex::find` with the case-insensitive pattern
/// `\.endl` on `hay`. The contract claims that the match is the leftmost
/// occurrence of `.endl` in any ASCII case (no other character folds to
/// `e`, `n`, `d` or `l`), and that there is none when nothing is returned.
#[verifier::external_body]
pub(crate) fn find_endl(hay: &[u8]) -> (r: Option<usize>)
    ensures
        r matches Some(k) ==> spec_endl_at(hay@, k as int)
            && forall|m: int| 0 <= m < k ==> !spec_endl_at(hay@, m),
        r is None ==> forall|m: int| 0 <= m < hay@.len() ==> !spec_endl_at(hay@, m),
{
    match regex::bytes::Regex::new(r"(?i)\.endl") {
        Ok(re) => re.find(hay).map(|m| m.start()),
        Err(_) => None,
    }
}

/// The characters that `regex::escape` puts a backslash before.
pub open spec fn is_regex_meta(c: char) -> bool {
    c == '\\' || c == '.' || c == '+' || c == '*' || c == '?' || c == '(' || c == ')' || c == '|'
        || c == '[' || c == ']' || c == '{' || c == '}' || c == '^' || c == '$' || c == '#' || c == '&'
        || c == '-' || c == '~'
}

/// `s` with a backslash before each meta character.
pub open spec fn spec_regex_escape(s: Seq<char>) -> Seq<char>
    decreases s.len(),
{
    if s.len() == 0 {
        Seq::empty()
    } else {
        spec_regex_escape(s.drop_last()) + if is_regex_meta(s.last()) { seq!['\\', s.last()] } else { seq![s.last()] }
    }
}

/// Calls `regex::escape`. The contract claims what its source shows: each
/// character of `s` in turn, preceded by a backslash when it is one of the
/// meta characters `\ . + * ? ( ) | [ ] { } ^ $ # & - ~`.
#[verifier::external_body]
pub(crate) fn regex_escape(s: &str) -> (r: String)
    ensures r@ == spec_regex_escape(s@),
{
    regex::escape(s)
}

/// What compiling `pattern` and searching `text` with it give: nothing
/// when the pattern does not compile, else each match in turn, as the
/// byte offset where it starts and the text of its first group (when
/// that group took part in the match).
pub uninterp spec fn regex_captures(pattern: Seq<char>, text: Seq<char>) -> Option<Seq<(nat, Option<Seq<char>>)>>;

/// The matches that [`regex_captures_all`] returns, as values.
pub open spec fn captures_view(v: Seq<(usize, Option<String>)>) -> Seq<(nat, Option<Seq<char>>)> {
    v.map_values(|x: (usize, Option<String>)| (x.0 as nat, match x.1 { Some(g) => Some(g@), None => None }))
}

/// Calls `regex::Regex::new` on `pattern` and `Regex::captures_iter` on
/// `text`, and returns each match's start and first group. The result is
/// named [`regex_captures`] of the pattern and the text; the contract
/// claims besides only that each match starts within `text`'s bytes.
#[verifier::external_body]
pub(crate) fn regex_captures_all(pattern: &str, text: &str) -> (r: Option<Vec<(usize, Option<String>)>>)
    ensures
        r matches Some(v) ==> regex_captures(pattern@, text@) == Some(captures_view(v@))
            && forall|k: int| 0 <= k < v@.len() ==> v@[k].0 <= text.spec_bytes().len(),
        r is None ==> regex_captures(pattern@, text@) is None,
{
    let re = regex::Regex::new(pattern).ok()?;
    Some(re.captures_iter(text).map(|c| (c.get_match().start(), c.get(1).map(|g| g.as_str().to_owned()))).collect())
}

/// Calls `std::str::from_utf8`. The contract claims what its documentation
/// says: the bytes are read as a string exactly when they are valid UTF-8,
/// and that string is made of those bytes.
#[verifier::external_body]
pub(crate) fn utf8_str(v: &[u8]) -> (r: Option<&str>)
    ensures
        r is Some <==> valid_utf8(v@),
        r matches Some(t) ==> t.spec_bytes() == v@,
{
    std::str::from_utf8(v).ok()
}

/// What `str::to_lowercase` gives for a text: Unicode's lower-case mapping
/// of each character (a character may map to several), with the rule for a
/// final capital sigma.
pub uninterp spec fn unicode_lowercase(s: Seq<char>) -> Seq<char>;

/// What `str::to_uppercase` gives for a text: Unicode's upper-case
/// mapping of each character (a character may map to several).
pub uninterp spec fn unicode_uppercase(s: Seq<char>) -> Seq<char>;

/// Calls `str::to_uppercase`. Its result is named [`unicode_uppercase`] of
/// the text; nothing more is claimed of it.
#[verifier::external_body]
pub(crate) fn str_to_uppercase(s: &str) -> (r: String)
    ensures r@ == unicode_uppercase(s@),
{
    s.to_uppercase()
}

/// Calls `str::to_lowercase`. Its result is named [`unicode_lowercase`] of
/// the text; nothing more is claimed of it.
#[verifier::external_body]
pub(crate) fn str_to_lowercase(s: &str) -> (r: String)
    ensures r@ == unicode_lowercase(s@),
{
    s.to_lowercase()
}

#[verifier::external_type_specification]
#[verifier::external_body]
#[verifier::reject_recursive_types(K)]
#[verifier::reject_recursive_types(V)]
#[verifier::reject_recursive_types(S)]
pub struct ExIndexMap<K, V, S>(IndexMap<K, V, S>);

/// The entries of a map from file identities to positions, in the map's
/// order: each identity (by its view) with its position.
pub uninterp spec fn chain_entries(m: IndexMap<FileId, Option<Pos>>) -> Seq<(FileIdView, Option<Pos>)>;

/// Calls `IndexMap::new`. The contract claims that the map has no entry.
#[verifier::external_body]
pub(crate) fn chain_map_new() -> (r: IndexMap<FileId, Option<Pos>>)
    ensures chain_entries(r) == Seq::<(FileIdView, Option<Pos>)>::empty(),
{
    IndexMap::new()
}

/// Calls `IndexMap::len`. The contract claims that it is the number of entries.
#[verifier::external_body]
pub(crate) fn chain_map_len(m: &IndexMap<FileId, Option<Pos>>) -> (r: usize)
    ensures r == chain_entries(*m).len(),
{
    m.len()
}

/// Calls `IndexMap::get_index_of`. The contract claims that it gives the
/// index of the entry whose identity equals `id` (the map keeps each key
/// once, so no earlier entry has it), and nothing when there is none. The
/// identities are compared with the `Eq` and `Hash` that `derive` wrote
/// for `FileId`, under which two identities are equal exactly when their
/// views are.
#[verifier::external_body]
pub(crate) fn chain_map_index_of(m: &IndexMap<FileId, Option<Pos>>, id: &FileId) -> (r: Option<usize>)
    ensures
        r matches Some(k) ==> k < chain_entries(*m).len() && chain_entries(*m)[k as int].0 == id@
            && forall|j: int| 0 <= j < k ==> chain_entries(*m)[j].0 != id@,
        r is None ==> forall|j: int| 0 <= j < chain_entries(*m).len() ==> chain_entries(*m)[j].0 != id@,
{
    m.get_index_of(id)
}

/// Calls `IndexMap::get_index`. The contract claims that it gives the
/// entry at `i`, and nothing past the last entry.
#[verifier::external_body]
pub(crate) fn chain_map_get(m: &IndexMap<FileId, Option<Pos>>, i: usize) -> (r: Option<(&FileId, &Option<Pos>)>)
    ensures
        r matches Some((k, v)) ==> i < chain_entries(*m).len() && chain_entries(*m)[i as int] == (k@, *v),
        r is None ==> i >= chain_entries(*m).len(),
{
    m.get_index(i)
}

/// Calls `IndexMap::insert` with an identity that the map does not hold.
/// The contract claims what its documentation says of a new key: the
/// entry is added last.
#[verifier::external_body]
pub(crate) fn chain_map_push(m: &mut IndexMap<FileId, Option<Pos>>, id: FileId, pos: Option<Pos>)
    requires forall|j: int| 0 <= j < chain_entries(*old(m)).len() ==> chain_entries(*old(m))[j].0 != id@,
    ensures chain_entries(*final(m)) == chain_entries(*old(m)).push((id@, pos)),
{
    m.insert(id, pos);
}

/// Calls `IndexMap::clone`. The contract claims that the copy has the
/// same entries (the identities are copied by the `Clone` that `derive`
/// wrote).
#[verifier::external_body]
pub(crate) fn chain_map_clone(m: &IndexMap<FileId, Option<Pos>>) -> (r: IndexMap<FileId, Option<Pos>>)
    ensures chain_entries(r) == chain_entries(*m),
{
    m.clone()
}

/// Calls `IndexMap::last_mut` and sets the value of the last entry to
/// `pos`. The contract claims that only that value changes, and that an
/// empty map stays empty.
#[verifier::external_body]
pub(crate) fn chain_map_set_last(m: &mut IndexMap<FileId, Option<Pos>>, pos: Option<Pos>)
    ensures
        chain_entries(*old(m)).len() > 0 ==> chain_entries(*final(m)) == chain_entries(*old(m)).update(
            chain_entries(*old(m)).len() - 1, (chain_entries(*old(m)).last().0, pos)),
        chain_entries(*old(m)).len() == 0 ==> chain_entries(*final(m)) == chain_entries(*old(m)),
{
    if let Some((_, v)) = m.last_mut() {
        *v = pos;
    }
}

/// What `char::is_alphanumeric` says of a character.
pub uninterp spec fn unicode_alphanumeric(ch: char) -> bool;

/// Calls `char::is_alphanumeric`. Its result is named
/// [`unicode_alphanumeric`]; nothing more is claimed of it.
#[verifier::external_body]
pub(crate) fn char_is_alphanumeric(ch: char) -> (r: bool)
    ensures r == unicode_alphanumeric(ch),
{
    ch.is_alphanumeric()
}

/// What `char::is_whitespace` says of a character.
pub uninterp spec fn unicode_whitespace(ch: char) -> bool;

/// Calls `char::is_whitespace`. Its result is named [`unicode_whitespace`];
/// nothing more is claimed of it.
#[verifier::external_body]
pub(crate) fn char_is_whitespace(ch: char) -> (r: bool)
    ensures r == unicode_whitespace(ch),
{
    ch.is_whitespace()
}

/// Calls `char::from_u32`. The contract claims what its documentation
/// says: there is a character exactly for a value that is no surrogate and
/// at most `0x10FFFF`, and the character has that value.
#[verifier::external_body]
pub(crate) fn scalar_char(v: u32) -> (r: Option<char>)
    ensures
        r is Some <==> (v <= 0xD7FF || (0xE000 <= v && v <= 0x10FFFF)),
        r matches Some(ch) ==> ch as u32 == v,
{
    char::from_u32(v)
}

} // verus!
