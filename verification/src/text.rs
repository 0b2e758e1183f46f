//! Text: the string operations that the cache is built from, each stated over
//! the characters of its arguments.

use vstd::prelude::*;
use vstd::utf8::*;

verus! {

/// `String::push`: the character is appended to the string.
pub assume_specification[ String::push ](s: &mut String, c: char)
    ensures
        final(s)@ == old(s)@.push(c),
;

/// The characters of a text, in order.
pub fn chars_of(s: &str) -> (r: Vec<char>)
    ensures
        r@ == s@,
{
    let mut out: Vec<char> = Vec::new();
    for c in it: s.chars()
        invariant
            out@ == s@.take(it.index()),
            it.seq() == s@,
    {
        out.push(c);
        assert(s@.take(it.index() + 1) =~= s@.take(it.index()).push(s@[it.index()]));
    }
    assert(s@.take(s@.len() as int) =~= s@);
    out
}

/// The text made of the characters from `from` up to, not including, `to`.
pub fn text_of(chars: &Vec<char>, from: usize, to: usize) -> (r: String)
    requires
        from <= to <= chars@.len(),
    ensures
        r@ == chars@.subrange(from as int, to as int),
{
    let mut out = String::new();
    let mut i: usize = from;
    while i < to
        invariant
            from <= i <= to <= chars@.len(),
            out@ == chars@.subrange(from as int, i as int),
        decreases to - i,
    {
        out.push(chars[i]);
        assert(chars@.subrange(from as int, i + 1) =~= chars@.subrange(from as int, i as int).push(
            chars@[i as int],
        ));
        i += 1;
    }
    out
}

/// Whether two texts hold the same characters.
pub fn same_text(a: &str, b: &str) -> (r: bool)
    ensures
        r == (a@ == b@),
{
    let x = a.as_bytes();
    let y = b.as_bytes();
    proof {
        encode_utf8_decode_utf8(a@);
        encode_utf8_decode_utf8(b@);
    }
    if x.len() != y.len() {
        return false;
    }
    let mut i: usize = 0;
    while i < x.len()
        invariant
            x@ == encode_utf8(a@),
            y@ == encode_utf8(b@),
            x@.len() == y@.len(),
            i <= x@.len(),
            forall|j: int| 0 <= j < i ==> x@[j] == y@[j],
        decreases x@.len() - i,
    {
        if x[i] != y[i] {
            assert(x@[i as int] != y@[i as int]);
            return false;
        }
        i += 1;
    }
    assert(x@ =~= y@);
    true
}

/// A copy of a text.
pub fn owned(s: &str) -> (r: String)
    ensures
        r@ == s@,
{
    s.to_owned()
}

/// What becomes of a byte string that is read as UTF-8, with every part that is
/// not valid replaced.
pub uninterp spec fn lossy_text(bytes: Seq<u8>) -> Seq<char>;

/// `String::from_utf8_lossy`: the text that the bytes spell in UTF-8. Where they
/// are not valid UTF-8, the parts that are not valid are replaced; the result
/// depends on the bytes alone.
#[verifier::external_body]
pub(crate) fn text_lossy(bytes: &[u8]) -> (r: String)
    ensures
        r@ == lossy_text(bytes@),
        valid_utf8(bytes@) ==> r@ == decode_utf8(bytes@),
{
    String::from_utf8_lossy(bytes).to_string()
}

/// Two texts, one after the other.
pub fn join2(a: &str, b: &str) -> (r: String)
    ensures
        r@ == a@ + b@,
{
    let mut out = a.to_owned();
    out.append(b);
    out
}

// ---------------------------------------------------------------------
// White space
// ---------------------------------------------------------------------

/// The Unicode property White_Space.
pub open spec fn is_white(c: char) -> bool {
    let u = c as u32;
    ||| 0x09 <= u <= 0x0d
    ||| u == 0x20
    ||| u == 0x85
    ||| u == 0xa0
    ||| u == 0x1680
    ||| 0x2000 <= u <= 0x200a
    ||| u == 0x2028
    ||| u == 0x2029
    ||| u == 0x202f
    ||| u == 0x205f
    ||| u == 0x3000
}

/// Whether a character has the Unicode property White_Space.
pub fn white(c: char) -> (r: bool)
    ensures
        r == is_white(c),
{
    let u: u32 = c as u32;
    (0x09 <= u && u <= 0x0d) || u == 0x20 || u == 0x85 || u == 0xa0 || u == 0x1680 || (0x2000 <= u
        && u <= 0x200a) || u == 0x2028 || u == 0x2029 || u == 0x202f || u == 0x205f || u == 0x3000
}

/// The words of a text: its maximal runs of characters that are not white
/// space, in order.
pub open spec fn words(s: Seq<char>) -> Seq<Seq<char>>
    decreases s.len(),
{
    if s.len() == 0 {
        seq![]
    } else if is_white(s.last()) {
        words(s.drop_last())
    } else if s.len() >= 2 && !is_white(s[s.len() - 2]) {
        let before = words(s.drop_last());
        before.drop_last().push(before.last().push(s.last()))
    } else {
        words(s.drop_last()).push(seq![s.last()])
    }
}

/// The parts of a list, with a separator between neighbours.
pub open spec fn joined(parts: Seq<Seq<char>>, sep: Seq<char>) -> Seq<char>
    decreases parts.len(),
{
    if parts.len() == 0 {
        seq![]
    } else if parts.len() == 1 {
        parts[0]
    } else {
        joined(parts.drop_last(), sep) + sep + parts.last()
    }
}

/// A text with every run of white space collapsed to one space, and none at
/// either end.
pub open spec fn collapsed(s: Seq<char>) -> Seq<char> {
    joined(words(s), seq![' '])
}

/// How the collapsed text grows with the text: by nothing, by the character,
/// or by a space and the character.
proof fn lemma_collapsed_push(t: Seq<char>, c: char)
    ensures
        ({
            let u = t.push(c);
            let glued = t.len() > 0 && !is_white(t.last());
            &&& is_white(c) ==> words(u) == words(t) && collapsed(u) == collapsed(t)
            &&& !is_white(c) ==> words(u).len() > 0
            &&& !is_white(c) && (glued || words(t).len() == 0) ==> collapsed(u) == collapsed(
                t,
            ).push(c)
            &&& !is_white(c) && !glued && words(t).len() > 0 ==> collapsed(u) == collapsed(t).push(
                ' ',
            ).push(c)
        }),
    decreases t.len(),
{
    let u = t.push(c);
    let sep = seq![' '];
    assert(u.drop_last() =~= t);
    if !is_white(c) {
        let w = words(t);
        let v = words(u);
        if t.len() > 0 && !is_white(t.last()) {
            lemma_collapsed_push(t.drop_last(), t.last());
            assert(t.drop_last().push(t.last()) =~= t);
            assert(v == w.drop_last().push(w.last().push(c)));
            assert(v.drop_last() =~= w.drop_last());
            if w.len() >= 2 {
                assert(joined(v, sep) =~= joined(w, sep).push(c));
            } else {
                assert(v =~= seq![w[0].push(c)]);
            }
        } else {
            assert(v == w.push(seq![c]));
            assert(v.drop_last() =~= w);
            if w.len() >= 1 {
                assert(joined(v, sep) =~= joined(w, sep).push(' ').push(c));
            } else {
                assert(joined(v, sep) =~= joined(w, sep).push(c));
            }
        }
    }
}

/// Collapses the white space of a text: one space between words, none at
/// either end.
pub fn collapse(s: &str) -> (r: String)
    ensures
        r@ == collapsed(s@),
{
    let mut out = String::new();
    let mut in_word: bool = false;
    let mut any: bool = false;
    for c in it: s.chars()
        invariant
            it.seq() == s@,
            out@ == collapsed(s@.take(it.index())),
            any == (words(s@.take(it.index())).len() > 0),
            in_word == (it.index() > 0 && !is_white(s@[it.index() - 1])),
    {
        proof {
            let i = it.index();
            lemma_collapsed_push(s@.take(i), c);
            assert(s@.take(i).push(c) =~= s@.take(i + 1));
        }
        if white(c) {
            in_word = false;
        } else {
            if !in_word && any {
                out.push(' ');
            }
            out.push(c);
            in_word = true;
            any = true;
        }
    }
    assert(s@.take(s@.len() as int) =~= s@);
    out
}

/// A run of one or more characters, none of them white space.
pub open spec fn is_word(w: Seq<char>) -> bool {
    &&& w.len() > 0
    &&& forall|i: int| 0 <= i < w.len() ==> !is_white(#[trigger] w[i])
}

/// The words of a text are words.
proof fn lemma_words_are_words(s: Seq<char>)
    ensures
        forall|i: int| 0 <= i < words(s).len() ==> is_word(#[trigger] words(s)[i]),
    decreases s.len(),
{
    if s.len() > 0 {
        let t = s.drop_last();
        lemma_words_are_words(t);
        if !is_white(s.last()) && t.len() > 0 && !is_white(t.last()) {
            lemma_collapsed_push(t.drop_last(), t.last());
            assert(t.drop_last().push(t.last()) =~= t);
            let w = words(t);
            assert(t.last() == s[s.len() - 2]);
            assert(is_word(w[w.len() - 1]));
            assert(is_word(w.last().push(s.last())));
            assert(words(s) == w.drop_last().push(w.last().push(s.last())));
            assert forall|i: int| 0 <= i < words(s).len() implies is_word(
                #[trigger] words(s)[i],
            ) by {
                assert(i < w.len() - 1 ==> words(s)[i] == w[i]);
            }
        } else if !is_white(s.last()) {
            let w = words(t);
            assert(is_word(seq![s.last()]));
            assert(words(s) == w.push(seq![s.last()]));
            assert forall|i: int| 0 <= i < words(s).len() implies is_word(
                #[trigger] words(s)[i],
            ) by {
                assert(i < w.len() ==> words(s)[i] == w[i]);
            }
        }
    }
}

/// A word that follows white space, or nothing, is the last word.
proof fn lemma_words_append(a: Seq<char>, w: Seq<char>)
    requires
        is_word(w),
        a.len() == 0 || is_white(a.last()),
    ensures
        words(a + w) == words(a).push(w),
    decreases w.len(),
{
    let c = w.last();
    let v = w.drop_last();
    assert((a + w).drop_last() =~= a + v);
    assert((a + w).last() == c);
    if v.len() == 0 {
        assert(a + v =~= a);
        assert(w =~= seq![c]);
    } else {
        lemma_words_append(a, v);
        assert((a + w)[(a + w).len() - 2] == v.last());
        let before = words(a).push(v);
        assert(before.drop_last() =~= words(a));
        assert(v.push(c) =~= w);
    }
}

/// Words joined by single spaces come apart into the same words.
proof fn lemma_words_of_joined(ws: Seq<Seq<char>>)
    requires
        forall|i: int| 0 <= i < ws.len() ==> is_word(#[trigger] ws[i]),
    ensures
        words(joined(ws, seq![' '])) == ws,
    decreases ws.len(),
{
    let sep = seq![' '];
    if ws.len() == 0 {
        assert(words(joined(ws, sep)) =~= ws);
    } else {
        let w = ws.last();
        assert(is_word(ws[ws.len() - 1]));
        if ws.len() == 1 {
            assert(Seq::<char>::empty() + w =~= w);
            lemma_words_append(seq![], w);
            assert(words(w) =~= ws);
        } else {
            let rest = ws.drop_last();
            lemma_words_of_joined(rest);
            let a = joined(rest, sep) + sep;
            assert(a.drop_last() =~= joined(rest, sep));
            assert(words(a) == rest);
            lemma_words_append(a, w);
            assert(rest.push(w) =~= ws);
        }
    }
}

/// The collapsed text has the words of the text, so collapsing it once more
/// changes nothing.
pub proof fn collapsed_keeps_words(s: Seq<char>)
    ensures
        words(collapsed(s)) == words(s),
        collapsed(collapsed(s)) == collapsed(s),
{
    lemma_words_are_words(s);
    lemma_words_of_joined(words(s));
}

/// The characters of a text that are not white space.
pub open spec fn solid(s: Seq<char>) -> Seq<char>
    decreases s.len(),
{
    if s.len() == 0 {
        seq![]
    } else if is_white(s.last()) {
        solid(s.drop_last())
    } else {
        solid(s.drop_last()).push(s.last())
    }
}

/// Collapsing drops and changes no character but white space: case is kept.
pub proof fn collapsed_keeps_solid(s: Seq<char>)
    ensures
        solid(collapsed(s)) == solid(s),
    decreases s.len(),
{
    if s.len() > 0 {
        let t = s.drop_last();
        let c = s.last();
        collapsed_keeps_solid(t);
        lemma_collapsed_push(t, c);
        assert(t.push(c) =~= s);
        let k = collapsed(t);
        assert(k.push(c).drop_last() =~= k);
        assert(k.push(' ').drop_last() =~= k);
        assert(k.push(' ').push(c).drop_last() =~= k.push(' '));
        assert(solid(k.push(' ')) == solid(k));
    }
}

/// White space between two texts parts their words: the words of the whole are
/// those of the one, and behind them those of the other.
pub proof fn words_part_at_white_space(a: Seq<char>, c: char, b: Seq<char>)
    requires
        is_white(c),
    ensures
        words(a.push(c) + b) == words(a) + words(b),
    decreases b.len(),
{
    let s = a.push(c) + b;
    if b.len() == 0 {
        assert(s =~= a.push(c));
        assert(s.drop_last() =~= a);
        assert(words(a) + words(b) =~= words(a));
    } else {
        let t = b.drop_last();
        words_part_at_white_space(a, c, t);
        assert(s.drop_last() =~= a.push(c) + t);
        assert(s.last() == b.last());
        if t.len() > 0 {
            assert(s[s.len() - 2] == t.last());
        } else {
            assert(s[s.len() - 2] == c);
        }
        if !is_white(b.last()) {
            if t.len() > 0 && !is_white(t.last()) {
                lemma_collapsed_push(t.drop_last(), t.last());
                assert(t.drop_last().push(t.last()) =~= t);
                assert(b[b.len() - 2] == t.last());
                assert(words(s) =~= words(a) + words(b));
            } else {
                assert(words(s) =~= words(a) + words(b));
            }
        }
    }
}

/// A run of characters without white space is a single word.
pub proof fn word_is_one_word(w: Seq<char>)
    requires
        is_word(w),
    ensures
        words(w) == seq![w],
{
    lemma_words_append(seq![], w);
    assert(Seq::<char>::empty() + w =~= w);
    assert(words(w) =~= seq![w]);
}

/// The characters that are white space.
pub proof fn white_space_characters(c: char)
    ensures
        is_white(c) <==> c == '\t' || c == '\n' || c == '\u{B}' || c == '\u{C}' || c == '\r' || c == ' '
            || c == '\u{85}' || c == '\u{A0}' || c == '\u{1680}' || '\u{2000}' <= c <= '\u{200A}' || c
            == '\u{2028}' || c == '\u{2029}' || c == '\u{202F}' || c == '\u{205F}' || c == '\u{3000}',
{
}

/// The only white space of a collapsed text is single spaces between words.
pub proof fn collapsed_has_single_spaces(s: Seq<char>)
    ensures
        ({
            let t = collapsed(s);
            &&& t.len() > 0 <==> words(s).len() > 0
            &&& t.len() > 0 ==> !is_white(t[0]) && !is_white(t.last())
            &&& forall|i: int| 0 <= i < t.len() && is_white(#[trigger] t[i]) ==> t[i] == ' '
            &&& forall|i: int, j: int|
                0 <= i < t.len() && j == i + 1 && j < t.len() && is_white(#[trigger] t[i])
                    ==> !is_white(#[trigger] t[j])
        }),
    decreases s.len(),
{
    if s.len() > 0 {
        collapsed_has_single_spaces(s.drop_last());
        lemma_collapsed_push(s.drop_last(), s.last());
        assert(s.drop_last().push(s.last()) =~= s);
    }
}

/// Collapsing brings in no character but the space.
pub proof fn collapsed_brings_only_spaces(s: Seq<char>, c: char)
    requires
        c != ' ',
        forall|i: int| 0 <= i < s.len() ==> s[i] != c,
    ensures
        forall|i: int| 0 <= i < collapsed(s).len() ==> collapsed(s)[i] != c,
    decreases s.len(),
{
    if s.len() > 0 {
        let t = s.drop_last();
        assert forall|i: int| 0 <= i < t.len() implies t[i] != c by {
            assert(t[i] == s[i]);
        }
        assert(s[s.len() - 1] != c);
        collapsed_brings_only_spaces(t, c);
        lemma_collapsed_push(t, s.last());
        assert(t.push(s.last()) =~= s);
    }
}

/// Two texts collapse to the same exactly if they have the same words.
pub proof fn collapsed_tells_words_apart(a: Seq<char>, b: Seq<char>)
    ensures
        collapsed(a) == collapsed(b) <==> words(a) == words(b),
{
    collapsed_keeps_words(a);
    collapsed_keeps_words(b);
}

/// A joined list with one more part is longer by the separator and the part.
pub proof fn joined_grows_by_part(parts: Seq<Seq<char>>, part: Seq<char>, sep: Seq<char>)
    ensures
        joined(seq![part], sep) == part,
        parts.len() > 0 ==> joined(parts.push(part), sep) == joined(parts, sep) + sep + part,
{
    assert(parts.push(part).drop_last() =~= parts);
}

// ---------------------------------------------------------------------
// Prefixes, suffixes, letters
// ---------------------------------------------------------------------

/// A text without the slashes that end it.
pub open spec fn without_trailing_slashes(s: Seq<char>) -> Seq<char>
    decreases s.len(),
{
    if s.len() > 0 && s.last() == '/' {
        without_trailing_slashes(s.drop_last())
    } else {
        s
    }
}

/// Drops the slashes that end a text.
pub fn trim_trailing_slashes(s: &str) -> (r: String)
    ensures
        r@ == without_trailing_slashes(s@),
{
    let chars = chars_of(s);
    let mut n: usize = chars.len();
    assert(s@.take(n as int) =~= s@);
    while n > 0 && chars[n - 1] == '/'
        invariant
            n <= chars@.len(),
            chars@ == s@,
            without_trailing_slashes(s@.take(n as int)) == without_trailing_slashes(s@),
        decreases n,
    {
        assert(s@.take(n as int).drop_last() =~= s@.take(n - 1));
        n -= 1;
    }
    assert(chars@.subrange(0, n as int) =~= s@.take(n as int));
    text_of(&chars, 0, n)
}

/// Whether a text ends in another.
pub open spec fn has_suffix(s: Seq<char>, suffix: Seq<char>) -> bool {
    suffix.len() <= s.len() && s.skip(s.len() - suffix.len()) == suffix
}

/// Whether a text ends in another.
pub fn ends_with(s: &str, suffix: &str) -> (r: bool)
    ensures
        r == has_suffix(s@, suffix@),
{
    let a = chars_of(s);
    let b = chars_of(suffix);
    let n: usize = a.len();
    if b.len() > n {
        return false;
    }
    let d: usize = n - b.len();
    let mut i: usize = 0;
    while i < b.len()
        invariant
            a@ == s@,
            b@ == suffix@,
            n == a@.len(),
            d == n - b@.len(),
            i <= b@.len(),
            forall|j: int| 0 <= j < i ==> a@[d + j] == b@[j],
        decreases b@.len() - i,
    {
        if a[d + i] != b[i] {
            assert(s@.skip(d as int)[i as int] != suffix@[i as int]);
            return false;
        }
        i += 1;
    }
    assert(s@.skip(d as int) =~= suffix@);
    true
}

/// An ASCII capital becomes its small letter; any other character stays.
pub open spec fn lower(c: char) -> char {
    if 'A' <= c <= 'Z' {
        ((c as u32) + 32) as char
    } else {
        c
    }
}

/// The text with its ASCII capitals made small.
pub open spec fn lowered(s: Seq<char>) -> Seq<char> {
    Seq::new(s.len(), |i: int| lower(s[i]))
}

/// Makes an ASCII capital small.
fn lower_char(c: char) -> (r: char)
    ensures
        r == lower(c),
{
    if 'A' <= c && c <= 'Z' {
        let b: u8 = c as u8;
        (b + 32) as char
    } else {
        c
    }
}

/// Whether two texts are the same but for the case of ASCII letters.
pub fn same_text_ignoring_case(a: &str, b: &str) -> (r: bool)
    ensures
        r == (lowered(a@) == lowered(b@)),
{
    let x = chars_of(a);
    let y = chars_of(b);
    if x.len() != y.len() {
        assert(lowered(a@).len() != lowered(b@).len());
        return false;
    }
    let mut i: usize = 0;
    while i < x.len()
        invariant
            x@ == a@,
            y@ == b@,
            x@.len() == y@.len(),
            i <= x@.len(),
            forall|j: int| 0 <= j < i ==> lower(x@[j]) == lower(y@[j]),
        decreases x@.len() - i,
    {
        if lower_char(x[i]) != lower_char(y[i]) {
            assert(lowered(a@)[i as int] != lowered(b@)[i as int]);
            return false;
        }
        i += 1;
    }
    assert(lowered(a@) =~= lowered(b@));
    true
}

/// Makes the ASCII capitals of a text small.
pub fn to_lower(s: &str) -> (r: String)
    ensures
        r@ == lowered(s@),
{
    let mut out = String::new();
    for c in it: s.chars()
        invariant
            it.seq() == s@,
            out@ == lowered(s@.take(it.index())),
    {
        out.push(lower_char(c));
        assert(lowered(s@.take(it.index() + 1)) =~= lowered(s@.take(it.index())).push(lower(c)));
    }
    assert(s@.take(s@.len() as int) =~= s@);
    out
}

/// Trailing slashes, all of them and nothing else, are dropped.
pub proof fn trailing_slashes_are_dropped(s: Seq<char>)
    ensures
        ({
            let t = without_trailing_slashes(s);
            &&& t.len() <= s.len()
            &&& s.take(t.len() as int) == t
            &&& forall|i: int| t.len() <= i < s.len() ==> s[i] == '/'
            &&& t.len() > 0 ==> t.last() != '/'
        }),
    decreases s.len(),
{
    let t = without_trailing_slashes(s);
    if s.len() > 0 && s.last() == '/' {
        let u = s.drop_last();
        trailing_slashes_are_dropped(u);
        assert(s.take(t.len() as int) =~= u.take(t.len() as int));
        assert forall|i: int| t.len() <= i < s.len() implies s[i] == '/' by {
            if i < u.len() {
                assert(u[i] == s[i]);
            }
        }
    } else {
        assert(s.take(t.len() as int) =~= s);
    }
}

/// A text ends in another exactly if it is some text with the other behind it.
pub proof fn suffix_is_the_end(s: Seq<char>, front: Seq<char>, suffix: Seq<char>)
    ensures
        has_suffix(front + suffix, suffix),
        has_suffix(s, suffix) ==> s == s.take(s.len() - suffix.len()) + suffix,
{
    assert((front + suffix).skip(front.len() as int) =~= suffix);
    if has_suffix(s, suffix) {
        let d = s.len() - suffix.len();
        assert(s =~= s.take(d) + s.skip(d));
    }
}

/// Capitals become the small letters of the same place in the alphabet, and
/// nothing else changes.
pub proof fn only_capitals_are_lowered(c: char)
    ensures
        'A' <= c <= 'Z' ==> 'a' <= lower(c) <= 'z' && lower(c) as int - 'a' as int == c as int
            - 'A' as int,
        !('A' <= c <= 'Z') ==> lower(c) == c,
{
}

/// The letters of a text are made small one by one.
pub proof fn letters_are_lowered_one_by_one(a: Seq<char>, b: Seq<char>, c: char)
    ensures
        lowered(a + b) == lowered(a) + lowered(b),
        lowered(seq![c]) == seq![lower(c)],
        lowered(lowered(a)) == lowered(a),
{
    assert(lowered(a + b) =~= lowered(a) + lowered(b));
    assert(lowered(seq![c]) =~= seq![lower(c)]);
    assert(lowered(lowered(a)) =~= lowered(a));
}

// ---------------------------------------------------------------------
// Numbers in decimal
// ---------------------------------------------------------------------

/// The decimal digit of that value.
pub open spec fn digit(n: int) -> char {
    (n + 48) as char
}

/// A number in decimal, without leading zeros.
pub open spec fn decimal(n: nat) -> Seq<char>
    decreases n,
{
    if n < 10 {
        seq![digit(n as int)]
    } else {
        decimal(n / 10).push(digit((n % 10) as int))
    }
}

/// The decimal digit of that value.
pub fn digit_char(n: u8) -> (r: char)
    requires
        n < 10,
    ensures
        r == digit(n as int),
{
    (n + 48) as char
}

/// Writes a number in decimal.
pub fn decimal_text(n: u128) -> (r: String)
    ensures
        r@ == decimal(n as nat),
    decreases n,
{
    if n < 10 {
        let mut out = String::new();
        out.push(digit_char(n as u8));
        assert(out@ =~= decimal(n as nat));
        out
    } else {
        let mut out = decimal_text(n / 10);
        out.push(digit_char((n % 10) as u8));
        out
    }
}

/// The number that a text of decimal digits spells.
pub open spec fn decimal_value(t: Seq<char>) -> nat
    decreases t.len(),
{
    if t.len() == 0 {
        0
    } else {
        10 * decimal_value(t.drop_last()) + (t.last() as int - '0' as int) as nat
    }
}

/// A number written in decimal is read back; it has digits alone, and no leading
/// zero unless it is zero.
pub proof fn decimal_is_read_back(n: nat)
    ensures
        decimal_value(decimal(n)) == n,
        decimal(n).len() > 0,
        forall|i: int| 0 <= i < decimal(n).len() ==> '0' <= #[trigger] decimal(n)[i] <= '9',
        n > 0 ==> decimal(n)[0] != '0',
    decreases n,
{
    reveal_with_fuel(decimal_value, 2);
    if n < 10 {
        assert(decimal(n).drop_last() =~= seq![]);
    } else {
        decimal_is_read_back(n / 10);
        assert(decimal(n).drop_last() =~= decimal(n / 10));
    }
}

} // verus!
