//! Character-sequence helpers shared by the classifier, the optimizer and the
//! generator: substring search, white-space tokens, trimming and upper-casing.
//!
//! Every position in this module counts characters, not bytes.

use vstd::prelude::*;
use vstd::string::StringExecFns;

verus! {

/// The upper-case form of a text, as Unicode's case mapping defines it. The
/// mapping may change the number of characters.
pub uninterp spec fn uppercase_of(s: Seq<char>) -> Seq<char>;

/// Whether a character has Unicode's `White_Space` property: the controls
/// from tab to carriage return, the space, the next-line control, the
/// no-break space, the Ogham space mark, the spaces from en quad to hair
/// space, the line and paragraph separators, the narrow no-break space, the
/// medium mathematical space and the ideographic space.
pub open spec fn is_whitespace(c: char) -> bool {
    ||| ('\u{9}' <= c && c <= '\u{d}')
    ||| c == ' '
    ||| c == '\u{85}'
    ||| c == '\u{a0}'
    ||| c == '\u{1680}'
    ||| ('\u{2000}' <= c && c <= '\u{200a}')
    ||| c == '\u{2028}'
    ||| c == '\u{2029}'
    ||| c == '\u{202f}'
    ||| c == '\u{205f}'
    ||| c == '\u{3000}'
}

/// Upper-cases a text.
///
/// Trusted: `str::to_uppercase` of std, which returns the upper-case
/// equivalent of the string slice as a new `String`. The result depends on
/// the characters alone, so it is named by [`uppercase_of`].
#[verifier::external_body]
pub(crate) fn to_upper(s: &str) -> (r: String)
    ensures
        r@ == uppercase_of(s@),
{
    s.to_uppercase()
}

/// Whether a character is white space.
pub fn char_is_whitespace(c: char) -> (b: bool)
    ensures
        b == is_whitespace(c),
{
    ('\u{9}' <= c && c <= '\u{d}') || c == ' ' || c == '\u{85}' || c == '\u{a0}' || c == '\u{1680}' || (
    '\u{2000}' <= c && c <= '\u{200a}') || c == '\u{2028}' || c == '\u{2029}' || c == '\u{202f}' || c
        == '\u{205f}' || c == '\u{3000}'
}

/// Appends one character to a string.
///
/// Trusted: `String::push` of std, which appends the given `char` to the end
/// of the string.
#[verifier::external_body]
pub(crate) fn push_char(s: &mut String, c: char)
    ensures
        final(s)@ == old(s)@.push(c),
{
    s.push(c)
}

/// A class of characters that scanning and trimming work with.
#[derive(Clone, Copy, Debug)]
pub enum CharClass {
    /// Unicode white space.
    Whitespace,
    /// The double quote and the backtick.
    Quote,
    /// The comma.
    Comma,
}

/// Whether `c` belongs to the class `cl`.
pub open spec fn class_has(cl: CharClass, c: char) -> bool {
    match cl {
        CharClass::Whitespace => is_whitespace(c),
        CharClass::Quote => c == '"' || c == '`',
        CharClass::Comma => c == ',',
    }
}

/// Whether `needle` stands in `hay` at position `i`.
pub open spec fn occurs_at(hay: Seq<char>, needle: Seq<char>, i: int) -> bool {
    0 <= i && i + needle.len() <= hay.len() && hay.subrange(i, i + needle.len()) == needle
}

/// The first position at or after `from` at which `needle` stands in `hay`.
pub open spec fn first_occurrence_from(hay: Seq<char>, needle: Seq<char>, from: int) -> Option<int>
    decreases hay.len() - from,
{
    if from < 0 || from + needle.len() > hay.len() {
        None
    } else if occurs_at(hay, needle, from) {
        Some(from)
    } else if from >= hay.len() {
        None
    } else {
        first_occurrence_from(hay, needle, from + 1)
    }
}

/// The first position at which `needle` stands in `hay`.
pub open spec fn first_occurrence(hay: Seq<char>, needle: Seq<char>) -> Option<int> {
    first_occurrence_from(hay, needle, 0)
}

/// Whether the part of `s` that begins at position `i` and is as long as
/// `anchor` reads as `anchor` once it is in upper case.
pub open spec fn reads_at(s: Seq<char>, anchor: Seq<char>, i: int) -> bool {
    0 <= i && i + anchor.len() <= s.len() && uppercase_of(s.subrange(i, i + anchor.len())) == anchor
}

/// The first position at or after `from` at which `s` reads as `anchor`,
/// whatever the case of its letters.
pub open spec fn first_reading_from(s: Seq<char>, anchor: Seq<char>, from: int) -> Option<int>
    decreases s.len() - from,
{
    if from < 0 || from + anchor.len() > s.len() {
        None
    } else if reads_at(s, anchor, from) {
        Some(from)
    } else if from >= s.len() {
        None
    } else {
        first_reading_from(s, anchor, from + 1)
    }
}

/// The first position at which `s` reads as `anchor`, whatever the case of
/// its letters.
pub open spec fn first_reading(s: Seq<char>, anchor: Seq<char>) -> Option<int> {
    first_reading_from(s, anchor, 0)
}

/// Whether `needle` stands anywhere in `hay`.
pub open spec fn contains_text(hay: Seq<char>, needle: Seq<char>) -> bool {
    first_occurrence(hay, needle) is Some
}

/// Whether `s` begins with `prefix`.
pub open spec fn has_prefix(s: Seq<char>, prefix: Seq<char>) -> bool {
    occurs_at(s, prefix, 0)
}

/// The first position at or after `i` whose character is outside `cl`, or the
/// length of `s` where there is none.
pub open spec fn skip_class(s: Seq<char>, cl: CharClass, i: int) -> int
    decreases s.len() - i,
{
    if i < 0 || i >= s.len() {
        s.len() as int
    } else if !class_has(cl, s[i]) {
        i
    } else {
        skip_class(s, cl, i + 1)
    }
}

/// The first position at or after `i` whose character is in `cl`, or the
/// length of `s` where there is none.
pub open spec fn seek_class(s: Seq<char>, cl: CharClass, i: int) -> int
    decreases s.len() - i,
{
    if i < 0 || i >= s.len() {
        s.len() as int
    } else if class_has(cl, s[i]) {
        i
    } else {
        seek_class(s, cl, i + 1)
    }
}

/// The length of `s[..n]` once the characters of `cl` at its end are gone.
pub open spec fn strip_end(s: Seq<char>, cl: CharClass, n: int) -> int
    decreases n,
{
    if n <= 0 || n > s.len() {
        0
    } else if !class_has(cl, s[n - 1]) {
        n
    } else {
        strip_end(s, cl, n - 1)
    }
}

/// `s` without the characters of `cl` at its two ends.
pub open spec fn stripped(s: Seq<char>, cl: CharClass) -> Seq<char> {
    let b = skip_class(s, cl, 0);
    let e = strip_end(s, cl, s.len() as int);
    if b >= e {
        Seq::empty()
    } else {
        s.subrange(b, e)
    }
}

/// `s` without white space at its two ends.
pub open spec fn trimmed(s: Seq<char>) -> Seq<char> {
    stripped(s, CharClass::Whitespace)
}

/// `s` without quote characters at its two ends.
pub open spec fn unquoted(s: Seq<char>) -> Seq<char> {
    stripped(s, CharClass::Quote)
}

/// The maximal runs of characters that are not white space, from position `i`
/// on, in order.
pub open spec fn tokens_from(s: Seq<char>, i: int) -> Seq<Seq<char>>
    decreases s.len() - i,
{
    let b = skip_class(s, CharClass::Whitespace, i);
    let e = seek_class(s, CharClass::Whitespace, b);
    if i < 0 || b < i || b >= s.len() || e <= b || e > s.len() {
        Seq::empty()
    } else {
        seq![s.subrange(b, e)] + tokens_from(s, e)
    }
}

/// The white-space separated words of `s`, in order.
pub open spec fn tokens(s: Seq<char>) -> Seq<Seq<char>> {
    tokens_from(s, 0)
}

/// The parts, with `sep` between each two.
pub open spec fn joined(parts: Seq<Seq<char>>, sep: Seq<char>) -> Seq<char>
    decreases parts.len(),
{
    if parts.len() == 0 {
        Seq::empty()
    } else if parts.len() == 1 {
        parts[0]
    } else {
        joined(parts.drop_last(), sep) + sep + parts.last()
    }
}

/// The pieces of `s[i..]` between commas, in order; a text without a comma
/// is one piece.
pub open spec fn comma_pieces_from(s: Seq<char>, i: int) -> Seq<Seq<char>>
    decreases s.len() - i,
{
    let e = seek_class(s, CharClass::Comma, i);
    if i < 0 || i > s.len() || e < i || e > s.len() {
        Seq::empty()
    } else if e >= s.len() {
        seq![s.subrange(i, s.len() as int)]
    } else {
        seq![s.subrange(i, e)] + comma_pieces_from(s, e + 1)
    }
}

/// The text of an optional string.
pub open spec fn text_of(s: Option<String>) -> Option<Seq<char>> {
    match s {
        Some(t) => Some(t@),
        None => None,
    }
}

/// The texts that a list of strings holds.
pub open spec fn texts(v: Seq<String>) -> Seq<Seq<char>> {
    v.map_values(|s: String| s@)
}

/// `skip_class` stays within the text and never moves backwards.
pub proof fn lemma_skip_class_bounds(s: Seq<char>, cl: CharClass, i: int)
    requires
        0 <= i <= s.len(),
    ensures
        i <= skip_class(s, cl, i) <= s.len(),
        skip_class(s, cl, i) < s.len() ==> !class_has(cl, s[skip_class(s, cl, i)]),
    decreases s.len() - i,
{
    if i < s.len() && class_has(cl, s[i]) {
        lemma_skip_class_bounds(s, cl, i + 1);
    }
}

/// `seek_class` stays within the text and passes at least one character that
/// is outside the class.
pub proof fn lemma_seek_class_bounds(s: Seq<char>, cl: CharClass, i: int)
    requires
        0 <= i <= s.len(),
    ensures
        i <= seek_class(s, cl, i) <= s.len(),
        i < s.len() && !class_has(cl, s[i]) ==> i < seek_class(s, cl, i),
    decreases s.len() - i,
{
    if i < s.len() && !class_has(cl, s[i]) {
        lemma_seek_class_bounds(s, cl, i + 1);
    }
}

/// `strip_end` never grows the text.
pub proof fn lemma_strip_end_bounds(s: Seq<char>, cl: CharClass, n: int)
    requires
        0 <= n <= s.len(),
    ensures
        0 <= strip_end(s, cl, n) <= n,
    decreases n,
{
    if n > 0 && class_has(cl, s[n - 1]) {
        lemma_strip_end_bounds(s, cl, n - 1);
    }
}

/// A position that `first_occurrence_from` reports holds the needle, and no
/// earlier position from `from` on does; where it reports none, no position
/// from `from` on holds it.
pub proof fn lemma_first_occurrence(hay: Seq<char>, needle: Seq<char>, from: int)
    requires
        0 <= from,
    ensures
        match first_occurrence_from(hay, needle, from) {
            Some(i) => from <= i && occurs_at(hay, needle, i) && forall|j: int|
                from <= j < i ==> !occurs_at(hay, needle, j),
            None => forall|j: int| from <= j ==> !occurs_at(hay, needle, j),
        },
    decreases hay.len() - from,
{
    if from + needle.len() <= hay.len() && !occurs_at(hay, needle, from) {
        if from >= hay.len() {
            assert(hay.subrange(from, from + needle.len()) =~= needle);
        } else {
            lemma_first_occurrence(hay, needle, from + 1);
        }
    }
}

/// A position that `first_reading_from` reports reads as the anchor, and no
/// earlier position from `from` on does; where it reports none, no position
/// from `from` on does.
pub proof fn lemma_first_reading(s: Seq<char>, anchor: Seq<char>, from: int)
    requires
        0 <= from,
    ensures
        match first_reading_from(s, anchor, from) {
            Some(i) => from <= i && reads_at(s, anchor, i) && forall|j: int|
                from <= j < i ==> !reads_at(s, anchor, j),
            None => forall|j: int| from <= j ==> !reads_at(s, anchor, j),
        },
    decreases s.len() - from,
{
    if from + anchor.len() <= s.len() && !reads_at(s, anchor, from) && from < s.len() {
        lemma_first_reading(s, anchor, from + 1);
    }
}

/// A text holds a needle exactly if the needle stands at some position in
/// it.
pub proof fn lemma_contains_text(hay: Seq<char>, needle: Seq<char>)
    ensures
        contains_text(hay, needle) <==> exists|i: int| occurs_at(hay, needle, i),
{
    lemma_first_occurrence(hay, needle, 0);
    if contains_text(hay, needle) {
        assert(occurs_at(hay, needle, first_occurrence(hay, needle).unwrap()));
    }
}

/// The words from a position on: none where only white space is left;
/// otherwise the first word, which ends at the next white space, and then
/// the words after it.
pub proof fn lemma_tokens_from(s: Seq<char>, i: int)
    requires
        0 <= i <= s.len(),
    ensures
        ({
            let b = skip_class(s, CharClass::Whitespace, i);
            let e = seek_class(s, CharClass::Whitespace, b);
            &&& i <= b <= s.len()
            &&& b >= s.len() ==> tokens_from(s, i) == Seq::<Seq<char>>::empty()
            &&& b < s.len() ==> b < e <= s.len() && tokens_from(s, i) == seq![s.subrange(b, e)]
                + tokens_from(s, e)
        }),
{
    lemma_skip_class_bounds(s, CharClass::Whitespace, i);
    let b = skip_class(s, CharClass::Whitespace, i);
    lemma_seek_class_bounds(s, CharClass::Whitespace, b);
}

/// Whether `c` belongs to the class `cl`.
pub fn in_class(cl: CharClass, c: char) -> (b: bool)
    ensures
        b == class_has(cl, c),
{
    match cl {
        CharClass::Whitespace => char_is_whitespace(c),
        CharClass::Quote => c == '"' || c == '`',
        CharClass::Comma => c == ',',
    }
}

/// The characters of `s`, in order.
pub fn chars_of(s: &str) -> (v: Vec<char>)
    ensures
        v@ == s@,
{
    let mut v: Vec<char> = Vec::new();
    for c in it: s.chars()
        invariant
            it.seq() == s@,
            v@ == s@.take(it.index()),
    {
        v.push(c);
    }
    v
}

/// The string made of the characters `v[from..to]`.
pub fn string_of(v: &Vec<char>, from: usize, to: usize) -> (s: String)
    requires
        from <= to <= v.len(),
    ensures
        s@ == v@.subrange(from as int, to as int),
{
    let mut s = String::new();
    let mut i: usize = from;
    while i < to
        invariant
            from <= i <= to <= v.len(),
            s@ == v@.subrange(from as int, i as int),
        decreases to - i,
    {
        push_char(&mut s, v[i]);
        i += 1;
        assert(s@ =~= v@.subrange(from as int, i as int));
    }
    assert(s@ =~= v@.subrange(from as int, to as int));
    s
}

/// Appends `t` to `s`.
pub fn append_str(s: &mut String, t: &str)
    ensures
        final(s)@ == old(s)@ + t@,
{
    s.append(t);
}

/// Whether `needle` stands in `hay` at position `i`.
pub fn matches_at(hay: &Vec<char>, needle: &Vec<char>, i: usize) -> (b: bool)
    requires
        i + needle.len() <= hay.len(),
    ensures
        b == occurs_at(hay@, needle@, i as int),
{
    let mut k: usize = 0;
    while k < needle.len()
        invariant
            k <= needle.len(),
            i + needle.len() <= hay.len(),
            forall|j: int| 0 <= j < k ==> hay@[i + j] == needle@[j],
        decreases needle.len() - k,
    {
        if hay[i + k] != needle[k] {
            proof {
                let sub = hay@.subrange(i as int, i + needle.len());
                assert(sub[k as int] == hay@[i + k]);
            }
            return false;
        }
        k += 1;
    }
    assert(hay@.subrange(i as int, i + needle.len()) =~= needle@);
    true
}

/// The first position at which `needle` stands in `hay`, if there is one.
pub fn find_in(hay: &Vec<char>, needle: &Vec<char>) -> (r: Option<usize>)
    ensures
        match r {
            Some(i) => first_occurrence(hay@, needle@) == Some(i as int) && i + needle.len()
                <= hay.len(),
            None => first_occurrence(hay@, needle@) is None,
        },
{
    if needle.len() > hay.len() {
        return None;
    }
    let mut i: usize = 0;
    while needle.len() <= hay.len() - i
        invariant
            i <= hay.len(),
            first_occurrence(hay@, needle@) == first_occurrence_from(hay@, needle@, i as int),
        decreases hay.len() - i,
    {
        if matches_at(hay, needle, i) {
            return Some(i);
        }
        assert(i < hay.len()) by {
            if i == hay.len() {
                assert(hay@.subrange(i as int, i + needle.len()) =~= needle@);
            }
        }
        i += 1;
    }
    None
}

/// Whether two texts hold the same characters.
pub fn same_text(a: &str, b: &str) -> (r: bool)
    ensures
        r == (a@ == b@),
{
    let x = chars_of(a);
    let y = chars_of(b);
    if x.len() != y.len() {
        return false;
    }
    let r = matches_at(&x, &y, 0);
    assert(x@.subrange(0, x@.len() as int) =~= x@);
    r
}

/// The first position at which `s` reads as `anchor`, whatever the case of
/// its letters, if there is one.
pub fn find_reading(s: &Vec<char>, anchor: &str) -> (r: Option<usize>)
    ensures
        match r {
            Some(i) => first_reading(s@, anchor@) == Some(i as int) && i + anchor@.len() <= s.len(),
            None => first_reading(s@, anchor@) is None,
        },
{
    let n = chars_of(anchor).len();
    if n > s.len() {
        return None;
    }
    let mut i: usize = 0;
    while n <= s.len() - i
        invariant
            i <= s.len(),
            n == anchor@.len(),
            first_reading(s@, anchor@) == first_reading_from(s@, anchor@, i as int),
        decreases s.len() - i,
    {
        let window = string_of(s, i, i + n);
        let upper = to_upper(window.as_str());
        if same_text(upper.as_str(), anchor) {
            return Some(i);
        }
        if i == s.len() {
            return None;
        }
        i += 1;
    }
    None
}

/// Whether `needle` stands anywhere in `hay`.
pub fn contains_in(hay: &Vec<char>, needle: &Vec<char>) -> (b: bool)
    ensures
        b == contains_text(hay@, needle@),
{
    find_in(hay, needle).is_some()
}

/// Whether `s` begins with `prefix`.
pub fn starts_with_in(s: &Vec<char>, prefix: &Vec<char>) -> (b: bool)
    ensures
        b == has_prefix(s@, prefix@),
{
    if prefix.len() > s.len() {
        return false;
    }
    matches_at(s, prefix, 0)
}

/// The first position at or after `i` whose character is outside `cl`.
pub fn skip_class_from(s: &Vec<char>, cl: CharClass, i: usize) -> (r: usize)
    requires
        i <= s.len(),
    ensures
        r == skip_class(s@, cl, i as int),
        i <= r <= s.len(),
{
    let mut k: usize = i;
    while k < s.len() && in_class(cl, s[k])
        invariant
            i <= k <= s.len(),
            skip_class(s@, cl, i as int) == skip_class(s@, cl, k as int),
        decreases s.len() - k,
    {
        k += 1;
    }
    k
}

/// The first position at or after `i` whose character is in `cl`.
pub fn seek_class_from(s: &Vec<char>, cl: CharClass, i: usize) -> (r: usize)
    requires
        i <= s.len(),
    ensures
        r == seek_class(s@, cl, i as int),
        i <= r <= s.len(),
{
    let mut k: usize = i;
    while k < s.len() && !in_class(cl, s[k])
        invariant
            i <= k <= s.len(),
            seek_class(s@, cl, i as int) == seek_class(s@, cl, k as int),
        decreases s.len() - k,
    {
        k += 1;
    }
    k
}

/// The length of `s[..n]` once the characters of `cl` at its end are gone.
pub fn strip_end_from(s: &Vec<char>, cl: CharClass, n: usize) -> (r: usize)
    requires
        n <= s.len(),
    ensures
        r == strip_end(s@, cl, n as int),
        r <= n,
{
    let mut k: usize = n;
    while k > 0 && in_class(cl, s[k - 1])
        invariant
            k <= n <= s.len(),
            strip_end(s@, cl, n as int) == strip_end(s@, cl, k as int),
        decreases k,
    {
        k -= 1;
    }
    k
}

/// The bounds of `s[from..to]` without the characters of `cl` at its two
/// ends.
pub fn stripped_bounds(s: &Vec<char>, cl: CharClass) -> (r: (usize, usize))
    ensures
        r.0 <= r.1 <= s.len(),
        s@.subrange(r.0 as int, r.1 as int) == stripped(s@, cl),
{
    let b = skip_class_from(s, cl, 0);
    let e = strip_end_from(s, cl, s.len());
    if b >= e {
        assert(s@.subrange(0, 0) =~= Seq::<char>::empty());
        (0, 0)
    } else {
        (b, e)
    }
}

/// The white-space separated words of `s`, in order.
pub fn split_tokens(s: &Vec<char>) -> (r: Vec<String>)
    ensures
        texts(r@) == tokens(s@),
{
    let mut r: Vec<String> = Vec::new();
    let mut i: usize = 0;
    loop
        invariant
            i <= s.len(),
            tokens(s@) == texts(r@) + tokens_from(s@, i as int),
        ensures
            tokens(s@) == texts(r@),
        decreases s.len() - i,
    {
        let b = skip_class_from(s, CharClass::Whitespace, i);
        if b >= s.len() {
            assert(tokens(s@) =~= texts(r@));
            break;
        }
        let e = seek_class_from(s, CharClass::Whitespace, b);
        proof {
            lemma_skip_class_bounds(s@, CharClass::Whitespace, i as int);
            lemma_seek_class_bounds(s@, CharClass::Whitespace, b as int);
        }
        let word = string_of(s, b, e);
        let ghost before = r@;
        r.push(word);
        proof {
            assert(texts(r@) =~= texts(before) + seq![s@.subrange(b as int, e as int)]);
            assert(tokens(s@) =~= texts(r@) + tokens_from(s@, e as int));
        }
        i = e;
    }
    r
}

/// The parts, with `sep` between each two.
pub fn join_with(parts: &Vec<String>, sep: &str) -> (r: String)
    ensures
        r@ == joined(texts(parts@), sep@),
{
    let mut r = String::new();
    let mut i: usize = 0;
    let ghost all = texts(parts@);
    assert(all.take(0) =~= Seq::empty());
    while i < parts.len()
        invariant
            i <= parts.len(),
            all == texts(parts@),
            r@ == joined(all.take(i as int), sep@),
        decreases parts.len() - i,
    {
        proof {
            assert(all.take(i + 1).drop_last() =~= all.take(i as int));
            assert(all.take(i + 1).last() == parts@[i as int]@);
        }
        if i > 0 {
            append_str(&mut r, sep);
        } else {
            assert(r@ + parts@[i as int]@ =~= parts@[i as int]@);
        }
        append_str(&mut r, parts[i].as_str());
        i += 1;
    }
    assert(all.take(parts.len() as int) =~= all);
    r
}

} // verus!
