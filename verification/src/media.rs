//! Content types and the patterns that select them.
//!
//! A content type is read here as its two names, the primary type and the
//! sub-type (`audio` and `ogg` in `audio/ogg`). Guessing the type of a file
//! from its name and reading a type from text are left to the `mime_guess`
//! and `mime` crates; deciding whether a type is selected by a pattern is
//! done here.

use vstd::prelude::*;
use crate::path::SEPARATOR;
use crate::text::{contains, copy, ends_with, finishes_with, same};

verus! {

/// The byte that stands for "any sub-type" in a pattern, `*`.
pub const STAR: u8 = 42;

/// A content type, or a pattern for content types: a primary type and a
/// sub-type. In a pattern an empty sub-type stands for every sub-type.
#[derive(Clone, Debug, PartialEq, Eq)]
pub struct Mime {
    pub type_: Vec<u8>,
    pub subtype: Vec<u8>,
}

/// What a [`Mime`] holds, as mathematical byte strings.
pub struct MimeView {
    pub type_: Seq<u8>,
    pub subtype: Seq<u8>,
}

impl View for Mime {
    type V = MimeView;

    open spec fn view(&self) -> MimeView {
        MimeView { type_: self.type_@, subtype: self.subtype@ }
    }
}

/// The content types held by a vector.
pub open spec fn mime_views(v: Seq<Mime>) -> Seq<MimeView> {
    Seq::new(v.len(), |i: int| v[i]@)
}

/// The two names of a content type, as a pair.
pub open spec fn names(m: MimeView) -> (Seq<u8>, Seq<u8>) {
    (m.type_, m.subtype)
}

/// The text of the content type that `mime_guess` puts first for the
/// extension of the file name in `path`, or `None` where it knows none for
/// it. Bytes of the path that are not UTF-8 are read as the replacement
/// character.
pub uninterp spec fn guessed_text(path: Seq<u8>) -> Option<Seq<u8>>;

/// The two names that the `mime` crate reads from `text`, lower-cased, or
/// `None` where it rejects the text. Bytes that are not UTF-8 are read as the
/// replacement character.
pub uninterp spec fn parsed_mime(text: Seq<u8>) -> Option<(Seq<u8>, Seq<u8>)>;

#[verifier::external_type_specification]
#[verifier::external_body]
pub struct ExFromStrError(mime_guess::mime::FromStrError);

/// Calls `mime_guess::from_path` on `path` and takes the text of the first
/// guess, as `MimeGuess::first_raw` gives it. The result is a function of the
/// path alone: the crate looks the extension up in a table that is compiled
/// into it.
#[verifier::external_body]
fn guess(path: &Vec<u8>) -> (r: Option<Vec<u8>>)
    ensures
        r.is_some() == guessed_text(path@).is_some(),
        r.is_some() ==> r.unwrap()@ == guessed_text(path@).unwrap(),
{
    match mime_guess::from_path(String::from_utf8_lossy(path).as_ref()).first_raw() {
        Some(text) => Some(text.as_bytes().to_vec()),
        None => None,
    }
}

/// Calls `Mime::from_str` of the `mime` crate on `text` and hands back the
/// names that `Mime::type_` and `Mime::subtype` give for what was read, or the
/// crate's error.
#[verifier::external_body]
fn parse(text: &Vec<u8>) -> (r: Result<Mime, mime_guess::mime::FromStrError>)
    ensures
        r.is_ok() == parsed_mime(text@).is_some(),
        r.is_ok() ==> names(r.unwrap()@) == parsed_mime(text@).unwrap(),
{
    match String::from_utf8_lossy(text).parse::<mime_guess::Mime>() {
        Ok(m) => Ok(
            Mime {
                type_: m.type_().as_str().as_bytes().to_vec(),
                subtype: m.subtype().as_str().as_bytes().to_vec(),
            },
        ),
        Err(e) => Err(e),
    }
}

/// The two names of the content type guessed for the file name in `path`.
pub open spec fn guessed_mime(path: Seq<u8>) -> Option<(Seq<u8>, Seq<u8>)> {
    match guessed_text(path) {
        Some(text) => parsed_mime(text),
        None => None,
    }
}

/// A pattern as the user writes it, brought to the form `type/subtype`: a
/// bare primary type gets a separator behind it, and `type/*` loses its star.
/// Both then read as a type with an empty sub-type.
pub open spec fn normalized_pattern(text: Seq<u8>) -> Seq<u8> {
    if !text.contains(SEPARATOR) {
        text.push(SEPARATOR)
    } else if finishes_with(text, seq![SEPARATOR, STAR]) {
        text.drop_last()
    } else {
        text
    }
}

/// The pattern that the user's text stands for, if it is one.
pub open spec fn pattern_of(text: Seq<u8>) -> Option<(Seq<u8>, Seq<u8>)> {
    parsed_mime(normalized_pattern(text))
}

/// Whether `pattern` selects the content type `mime`: the primary types are
/// the same, and the pattern's sub-type is empty or the same as well.
pub open spec fn pattern_matches(pattern: MimeView, mime: MimeView) -> bool {
    pattern.type_ == mime.type_ && (pattern.subtype.len() == 0 || pattern.subtype
        == mime.subtype)
}

/// Whether one of `patterns` selects `mime`.
pub open spec fn matches_any(patterns: Seq<MimeView>, mime: MimeView) -> bool {
    exists|i: int| 0 <= i < patterns.len() && pattern_matches(#[trigger] patterns[i], mime)
}

/// The content type guessed from the name of the file at `path`: the guess
/// of `mime_guess` as the `mime` crate reads it, if there is a guess and it
/// can be read.
pub fn guess_mime(path: &Vec<u8>) -> (r: Option<Mime>)
    ensures
        r.is_some() == guessed_mime(path@).is_some(),
        r.is_some() ==> names(r.unwrap()@) == guessed_mime(path@).unwrap(),
{
    match guess(path) {
        Some(text) => match parse(&text) {
            Ok(mime) => Some(mime),
            Err(_) => None,
        },
        None => None,
    }
}

/// Brings a user's pattern to the form `type/subtype`.
pub fn normalize_pattern(text: &Vec<u8>) -> (r: Vec<u8>)
    ensures
        r@ == normalized_pattern(text@),
{
    let mut r = copy(text);
    if !contains(text, SEPARATOR) {
        r.push(SEPARATOR);
    } else {
        let wildcard: Vec<u8> = vec![SEPARATOR, STAR];
        assert(wildcard@ == seq![SEPARATOR, STAR]);
        if ends_with(text, &wildcard) {
            r.pop();
        }
    }
    r
}

/// Reads one pattern of the user: `None` where the text is no pattern.
pub fn parse_pattern(text: &Vec<u8>) -> (r: Option<Mime>)
    ensures
        r.is_some() == pattern_of(text@).is_some(),
        r.is_some() ==> names(r.unwrap()@) == pattern_of(text@).unwrap(),
{
    let normal = normalize_pattern(text);
    match parse(&normal) {
        Ok(m) => Some(m),
        Err(_) => None,
    }
}

/// Whether `pattern` selects `mime`.
pub fn selects(pattern: &Mime, mime: &Mime) -> (r: bool)
    ensures
        r == pattern_matches(pattern@, mime@),
{
    same(&pattern.type_, &mime.type_) && (pattern.subtype.len() == 0 || same(
        &pattern.subtype,
        &mime.subtype,
    ))
}

/// Whether one of the patterns in `mime_types` selects `mime`.
pub fn in_mime_vec(mime: &Mime, mime_types: &Vec<Mime>) -> (r: bool)
    ensures
        r == matches_any(mime_views(mime_types@), mime@),
{
    let mut i: usize = 0;
    while i < mime_types.len()
        invariant
            i <= mime_types.len(),
            forall|j: int| 0 <= j < i ==> !pattern_matches(mime_views(mime_types@)[j], mime@),
        decreases mime_types.len() - i,
    {
        if selects(&mime_types[i], mime) {
            assert(pattern_matches(mime_views(mime_types@)[i as int], mime@));
            return true;
        }
        i += 1;
    }
    false
}

/// A bare primary type and the same type followed by `/*` are one pattern.
pub proof fn law_wildcard_is_bare_type(primary: Seq<u8>)
    requires
        !primary.contains(SEPARATOR),
    ensures
        normalized_pattern(primary) == primary.push(SEPARATOR),
        normalized_pattern(primary + seq![SEPARATOR, STAR]) == primary.push(SEPARATOR),
        pattern_of(primary + seq![SEPARATOR, STAR]) == pattern_of(primary),
{
    let wild = primary + seq![SEPARATOR, STAR];
    assert(wild[primary.len() as int] == SEPARATOR);
    assert(wild.contains(SEPARATOR));
    assert(wild.subrange(wild.len() - 2, wild.len() as int) == seq![SEPARATOR, STAR]);
    assert(wild.drop_last() == primary.push(SEPARATOR));
}

/// A pattern without a sub-type selects every sub-type of its primary type,
/// and nothing of another primary type.
pub proof fn law_empty_subtype_selects_all(pattern: MimeView, mime: MimeView)
    requires
        pattern.subtype.len() == 0,
    ensures
        pattern_matches(pattern, mime) <==> pattern.type_ == mime.type_,
{
}

/// A pattern with a sub-type selects that one content type only.
pub proof fn law_subtype_selects_exactly(pattern: MimeView, mime: MimeView)
    requires
        pattern.subtype.len() > 0,
    ensures
        pattern_matches(pattern, mime) <==> pattern == mime,
{
}

} // verus!
