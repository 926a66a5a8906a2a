//! Character-level text helpers shared by the parsers: string equality,
//! conversion between strings and character vectors, Unicode whitespace
//! tokenisation, lower-casing and substring search.

use vstd::prelude::*;

verus! {

/// Whether `c` has the Unicode `White_Space` property, which
/// `char::is_whitespace` decides: the controls from tab to carriage
/// return, the space, next line, no-break space, ogham space mark, the
/// spaces from en quad to hair space, line and paragraph separators, narrow
/// no-break space, medium mathematical space and ideographic space.
pub open spec fn spec_is_whitespace(c: char) -> bool {
    ||| '\u{9}' <= c <= '\u{d}'
    ||| c == ' '
    ||| c == '\u{85}'
    ||| c == '\u{a0}'
    ||| c == '\u{1680}'
    ||| '\u{2000}' <= c <= '\u{200a}'
    ||| c == '\u{2028}'
    ||| c == '\u{2029}'
    ||| c == '\u{202f}'
    ||| c == '\u{205f}'
    ||| c == '\u{3000}'
}

/// The lower-case mapping of a string, as computed by `str::to_lowercase`.
pub uninterp spec fn spec_lowercase(s: Seq<char>) -> Seq<char>;

/// Calls `<str as PartialEq>::eq`; claims that two string slices compare
/// equal exactly when they hold the same characters.
#[verifier::external_body]
pub(crate) fn str_eq(a: &str, b: &str) -> (r: bool)
    ensures
        r == (a@ == b@),
{
    a == b
}

/// Calls `str::chars` and collects the characters; claims that the vector
/// holds the characters of `s` in order.
#[verifier::external_body]
pub(crate) fn chars_of(s: &str) -> (v: Vec<char>)
    ensures
        v@ == s@,
{
    s.chars().collect()
}

/// Calls `String::push`; claims that the character is appended at the end.
#[verifier::external_body]
pub(crate) fn push_char(s: &mut String, c: char)
    ensures
        final(s)@ == old(s)@.push(c),
{
    s.push(c)
}

/// Calls `char::is_whitespace`; claims the `White_Space` set as
/// `spec_is_whitespace` lists it.
#[verifier::external_body]
pub(crate) fn is_whitespace(c: char) -> (r: bool)
    ensures
        r == spec_is_whitespace(c),
{
    c.is_whitespace()
}

/// Whether every character of `s` is ASCII.
pub open spec fn all_ascii(s: Seq<char>) -> bool {
    forall|i: int| 0 <= i < s.len() ==> (#[trigger] s[i]) <= '\u{7f}'
}

/// `c` with an ASCII capital letter made small.
pub open spec fn ascii_lower_char(c: char) -> char {
    if 'A' <= c <= 'Z' { ((c as int) + 32) as char } else { c }
}

/// `c` with an ASCII small letter made capital.
pub open spec fn ascii_upper_char(c: char) -> char {
    if 'a' <= c <= 'z' { ((c as int) - 32) as char } else { c }
}

/// Calls `str::to_lowercase`; its result is named `spec_lowercase`, and on
/// ASCII text it changes exactly the capital letters to small ones.
#[verifier::external_body]
pub(crate) fn to_lowercase(s: &str) -> (r: String)
    ensures
        r@ == spec_lowercase(s@),
        all_ascii(s@) ==> r@ == s@.map_values(|c: char| ascii_lower_char(c)),
{
    s.to_lowercase()
}

/// Whether `c` is numeric in Unicode's sense, as decided by
/// `char::is_numeric`.
pub uninterp spec fn spec_is_numeric(c: char) -> bool;

/// The upper-case mapping of a string, as computed by `str::to_uppercase`.
pub uninterp spec fn spec_uppercase(s: Seq<char>) -> Seq<char>;

/// Calls `char::is_numeric`; its result is named `spec_is_numeric`, and
/// among ASCII characters it holds exactly of the digits.
#[verifier::external_body]
pub(crate) fn is_numeric(c: char) -> (r: bool)
    ensures
        r == spec_is_numeric(c),
        c <= '\u{7f}' ==> (r <==> '0' <= c <= '9'),
{
    c.is_numeric()
}

/// Calls `str::to_uppercase`; its result is named `spec_uppercase`, and on
/// ASCII text it changes exactly the small letters to capital ones.
#[verifier::external_body]
pub(crate) fn to_uppercase(s: &str) -> (r: String)
    ensures
        r@ == spec_uppercase(s@),
        all_ascii(s@) ==> r@ == s@.map_values(|c: char| ascii_upper_char(c)),
{
    s.to_uppercase()
}

/// The string holding the characters of `v`.
pub fn string_from_chars(v: &Vec<char>) -> (s: String)
    ensures
        s@ == v@,
{
    let mut s = String::new();
    let mut i: usize = 0;
    while i < v.len()
        invariant
            i <= v.len(),
            s@ == v@.subrange(0, i as int),
        decreases v.len() - i,
    {
        push_char(&mut s, v[i]);
        i = i + 1;
        assert(s@ == v@.subrange(0, i as int));
    }
    assert(v@.subrange(0, v.len() as int) == v@);
    s
}

/// `s` without leading whitespace.
pub open spec fn trim_start(s: Seq<char>) -> Seq<char>
    decreases s.len(),
{
    if s.len() > 0 && spec_is_whitespace(s[0]) { trim_start(s.drop_first()) } else { s }
}

/// `s` without trailing whitespace.
pub open spec fn trim_end(s: Seq<char>) -> Seq<char>
    decreases s.len(),
{
    if s.len() > 0 && spec_is_whitespace(s.last()) { trim_end(s.drop_last()) } else { s }
}

/// `s` without leading and trailing whitespace.
pub open spec fn trim(s: Seq<char>) -> Seq<char> {
    trim_end(trim_start(s))
}

/// Calls `str::trim`, which strips leading and trailing Unicode whitespace
/// (the characters `char::is_whitespace` accepts); claims exactly that.
#[verifier::external_body]
pub(crate) fn str_trim(s: &str) -> (r: &str)
    ensures
        r@ == trim(s@),
{
    s.trim()
}

/// The pieces of `s` between occurrences of `sep`, in order; a text
/// without `sep` is a single piece.
pub open spec fn pieces(s: Seq<char>, sep: char) -> Seq<Seq<char>>
    decreases s.len(),
{
    if s.len() == 0 {
        seq![Seq::<char>::empty()]
    } else {
        let p = pieces(s.drop_last(), sep);
        if s.last() == sep {
            p.push(Seq::<char>::empty())
        } else {
            p.update(p.len() - 1, p.last().push(s.last()))
        }
    }
}

/// There is always at least one piece.
pub proof fn lemma_pieces_nonempty(s: Seq<char>, sep: char)
    ensures
        pieces(s, sep).len() >= 1,
    decreases s.len(),
{
    if s.len() > 0 {
        lemma_pieces_nonempty(s.drop_last(), sep);
    }
}

/// The pieces of `s` between occurrences of `sep`: what `str::split`
/// yields for a one-character pattern.
pub fn split_on(s: &Vec<char>, sep: char) -> (r: Vec<Vec<char>>)
    ensures
        r@.len() == pieces(s@, sep).len(),
        forall|k: int| 0 <= k < r@.len() ==> #[trigger] r@[k]@ == pieces(s@, sep)[k],
{
    let mut done: Vec<Vec<char>> = Vec::new();
    let mut cur: Vec<char> = Vec::new();
    let mut i: usize = 0;
    assert(s@.take(0) =~= Seq::<char>::empty());
    while i < s.len()
        invariant
            i <= s@.len(),
            pieces(s@.take(i as int), sep).len() == done@.len() + 1,
            forall|k: int| 0 <= k < done@.len() ==> #[trigger] done@[k]@ == pieces(s@.take(i as int), sep)[k],
            cur@ == pieces(s@.take(i as int), sep).last(),
        decreases s.len() - i,
    {
        let ghost before = s@.take(i as int);
        proof {
            lemma_pieces_nonempty(before, sep);
            assert(s@.take(i + 1).drop_last() =~= before);
            assert(s@.take(i + 1).last() == s@[i as int]);
        }
        if s[i] == sep {
            done.push(cur);
            cur = Vec::new();
        } else {
            cur.push(s[i]);
        }
        i = i + 1;
    }
    proof {
        lemma_pieces_nonempty(s@, sep);
        assert(s@.take(s@.len() as int) =~= s@);
    }
    done.push(cur);
    done
}

/// The tokens produced so far by a whitespace split, given the characters
/// still to read and the token under construction.
pub open spec fn tokens_from(s: Seq<char>, cur: Seq<char>) -> Seq<Seq<char>>
    decreases s.len(),
{
    if s.len() == 0 {
        if cur.len() > 0 { seq![cur] } else { seq![] }
    } else if spec_is_whitespace(s[0]) {
        (if cur.len() > 0 { seq![cur] } else { seq![] }) + tokens_from(s.drop_first(), seq![])
    } else {
        tokens_from(s.drop_first(), cur.push(s[0]))
    }
}

/// The maximal runs of non-whitespace characters of `s`, in order: what
/// `str::split_whitespace` yields.
pub open spec fn tokens(s: Seq<char>) -> Seq<Seq<char>> {
    tokens_from(s, seq![])
}

/// Whether `needle` occurs in `hay` as a contiguous run of characters.
pub open spec fn occurs_in(needle: Seq<char>, hay: Seq<char>) -> bool {
    exists|i: int| 0 <= i && i + needle.len() <= hay.len() && #[trigger] hay.subrange(i, i + needle.len()) == needle
}

/// Splits a string at Unicode whitespace, dropping empty pieces.
pub fn split_whitespace(s: &str) -> (parts: Vec<String>)
    ensures
        parts@.len() == tokens(s@).len(),
        forall|k: int| 0 <= k < parts@.len() ==> #[trigger] parts@[k]@ == tokens(s@)[k],
{
    let v = chars_of(s);
    let mut parts: Vec<String> = Vec::new();
    let mut cur: Vec<char> = Vec::new();
    let mut i: usize = 0;
    let ghost mut views: Seq<Seq<char>> = seq![];
    assert(v@.skip(0) == v@);
    while i < v.len()
        invariant
            i <= v.len(),
            v@ == s@,
            views.len() == parts@.len(),
            forall|k: int| 0 <= k < parts@.len() ==> #[trigger] parts@[k]@ == views[k],
            views + tokens_from(v@.skip(i as int), cur@) == tokens(s@),
        decreases v.len() - i,
    {
        let c = v[i];
        let ghost rest = v@.skip(i as int);
        let ghost old_views = views;
        let ghost old_cur = cur@;
        assert(rest.drop_first() == v@.skip(i + 1));
        assert(rest[0] == c);
        if is_whitespace(c) {
            assert(tokens_from(rest, old_cur) == (if old_cur.len() > 0 { seq![old_cur] } else { seq![] })
                + tokens_from(rest.drop_first(), seq![]));
            if cur.len() > 0 {
                let t = string_from_chars(&cur);
                proof {
                    views = views.push(cur@);
                }
                parts.push(t);
                cur = Vec::new();
                assert(old_views + (seq![old_cur] + tokens_from(rest.drop_first(), seq![]))
                    == views + tokens_from(rest.drop_first(), seq![]));
                assert(cur@ == Seq::<char>::empty());
                assert(views + tokens_from(rest.drop_first(), cur@) == tokens(s@));
            } else {
                assert(old_cur =~= Seq::<char>::empty());
                assert(seq![] + tokens_from(rest.drop_first(), seq![]) == tokens_from(rest.drop_first(), seq![]));
            }
        } else {
            assert(tokens_from(rest, old_cur) == tokens_from(rest.drop_first(), old_cur.push(c)));
            cur.push(c);
            assert(cur@ == old_cur.push(c));
            assert(views + tokens_from(rest.drop_first(), cur@) == tokens(s@));
        }
        assert(views + tokens_from(rest.drop_first(), cur@) == tokens(s@));
        i = i + 1;
    }
    if cur.len() > 0 {
        let t = string_from_chars(&cur);
        proof {
            views = views.push(cur@);
        }
        parts.push(t);
    }
    assert(views == tokens(s@));
    parts
}

/// Whether `needle` occurs in `hay`: what `str::contains` decides for a
/// string pattern.
pub fn contains_str(hay: &str, needle: &str) -> (r: bool)
    ensures
        r == occurs_in(needle@, hay@),
{
    let h = chars_of(hay);
    let n = chars_of(needle);
    if n.len() == 0 {
        assert(hay@.subrange(0int, 0int + needle@.len()) == needle@);
        return true;
    }
    if n.len() > h.len() {
        return false;
    }
    let last = h.len() - n.len();
    let mut i: usize = 0;
    while i <= last
        invariant
            h@ == hay@,
            n@ == needle@,
            0 < n.len() <= h.len(),
            last == h.len() - n.len(),
            i <= last + 1,
            forall|j: int| 0 <= j < i ==> #[trigger] h@.subrange(j, j + n@.len()) != n@,
        decreases last + 1 - i,
    {
        let mut k: usize = 0;
        let mut same = true;
        while k < n.len()
            invariant
                h@ == hay@,
                n@ == needle@,
                i <= last,
                last == h.len() - n.len(),
                k <= n.len(),
                same == (forall|m: int| 0 <= m < k ==> h@[i + m] == n@[m]),
            decreases n.len() - k,
        {
            if h[i + k] != n[k] {
                same = false;
            }
            k = k + 1;
        }
        if same {
            assert(h@.subrange(i as int, i + n@.len()) == n@);
            return true;
        }
        proof {
            let m = choose|m: int| 0 <= m < n.len() && h@[i + m] != n@[m];
            assert(h@.subrange(i as int, i + n@.len())[m] != n@[m]);
        }
        i = i + 1;
    }
    proof {
        assert forall|j: int| 0 <= j && j + needle@.len() <= hay@.len() implies #[trigger] hay@.subrange(j, j + needle@.len()) != needle@ by {
            assert(j <= last);
        }
    }
    false
}

/// The first position at or after `i` where `needle` occurs in `hay`, or
/// -1.
pub open spec fn first_occurrence_from(needle: Seq<char>, hay: Seq<char>, i: int) -> int
    decreases hay.len() + 1 - i,
{
    if i < 0 || i + needle.len() > hay.len() {
        -1
    } else if hay.subrange(i, i + needle.len()) == needle {
        i
    } else {
        first_occurrence_from(needle, hay, i + 1)
    }
}

/// The first position where `needle` occurs in `hay`: what `str::find`
/// gives for a string pattern (counted in characters).
pub fn find_chars(hay: &Vec<char>, needle: &Vec<char>) -> (r: Option<usize>)
    ensures
        match r {
            Some(i) => i as int == first_occurrence_from(needle@, hay@, 0) && i + needle@.len() <= hay@.len(),
            None => first_occurrence_from(needle@, hay@, 0) == -1,
        },
{
    if needle.len() > hay.len() {
        return None;
    }
    let last = hay.len() - needle.len();
    let mut i: usize = 0;
    while i <= last
        invariant
            needle@.len() <= hay@.len(),
            hay@.len() <= usize::MAX,
            last == hay@.len() - needle@.len(),
            i <= last + 1,
            first_occurrence_from(needle@, hay@, 0) == first_occurrence_from(needle@, hay@, i as int),
        decreases last + 1 - i,
    {
        let mut k: usize = 0;
        let mut same = true;
        while k < needle.len() && same
            invariant
                i <= last,
                needle@.len() <= hay@.len(),
                hay@.len() <= usize::MAX,
                last == hay@.len() - needle@.len(),
                k <= needle@.len(),
                same == (forall|m: int| 0 <= m < k ==> hay@[i + m] == needle@[m]),
            decreases needle.len() - k,
        {
            if hay[i + k] != needle[k] {
                same = false;
            }
            k = k + 1;
        }
        if same {
            assert(hay@.subrange(i as int, i + needle@.len()) =~= needle@);
            return Some(i);
        }
        proof {
            if hay@.subrange(i as int, i + needle@.len()) == needle@ {
                assert forall|m: int| 0 <= m < k implies hay@[i + m] == needle@[m] by {
                    assert(hay@.subrange(i as int, i + needle@.len())[m] == hay@[i + m]);
                }
            }
        }
        assert(first_occurrence_from(needle@, hay@, i as int) == first_occurrence_from(needle@, hay@, i + 1));
        if i == last {
            assert(first_occurrence_from(needle@, hay@, i + 1) == -1);
            return None;
        }
        i = i + 1;
    }
    None
}

/// Words joined by single spaces.
#[verifier::opaque]
pub open spec fn spaced(ws: Seq<Seq<char>>) -> Seq<char>
    decreases ws.len(),
{
    if ws.len() == 0 {
        seq![]
    } else if ws.len() == 1 {
        ws[0]
    } else {
        ws[0] + (seq![' '] + spaced(ws.drop_first()))
    }
}

/// A word: not empty and without whitespace.
pub open spec fn is_word(w: Seq<char>) -> bool {
    w.len() > 0 && forall|i: int| 0 <= i < w.len() ==> !spec_is_whitespace(#[trigger] w[i])
}

/// The space is whitespace and the visible ASCII characters are not: the
/// part of Unicode's `White_Space` property that text made of ASCII words
/// relies on.
pub open spec fn space_separates_words() -> bool {
    &&& spec_is_whitespace(' ')
    &&& forall|c: char| '!' <= c <= '~' ==> !#[trigger] spec_is_whitespace(c)
}

/// The space separates words and no visible ASCII character does.
pub proof fn lemma_space_separates_words()
    ensures
        space_separates_words(),
{
}

proof fn lemma_tokens_word_prefix(w: Seq<char>, s: Seq<char>, cur: Seq<char>)
    requires
        forall|i: int| 0 <= i < w.len() ==> !spec_is_whitespace(#[trigger] w[i]),
    ensures
        tokens_from(w + s, cur) == tokens_from(s, cur + w),
    decreases w.len(),
{
    if w.len() > 0 {
        let ws = w + s;
        assert(ws[0] == w[0]);
        assert(ws.drop_first() =~= w.drop_first() + s);
        assert(cur.push(w[0]) + w.drop_first() =~= cur + w);
        assert forall|i: int| 0 <= i < w.drop_first().len() implies !spec_is_whitespace(#[trigger] w.drop_first()[i]) by {
            assert(w.drop_first()[i] == w[i + 1]);
        }
        lemma_tokens_word_prefix(w.drop_first(), s, cur.push(w[0]));
    } else {
        assert(w + s =~= s);
        assert(cur + w =~= cur);
    }
}

/// Words joined by single spaces split back into the same words.
pub proof fn lemma_tokens_of_spaced(ws: Seq<Seq<char>>)
    requires
        spec_is_whitespace(' '),
        ws.len() > 0,
        forall|k: int| 0 <= k < ws.len() ==> is_word(#[trigger] ws[k]),
    ensures
        tokens(spaced(ws)) == ws,
    decreases ws.len(),
{
    reveal(spaced);
    let w0 = ws[0];
    assert(is_word(w0));
    if ws.len() == 1 {
        lemma_tokens_word_prefix(w0, seq![], seq![]);
        assert(w0 + seq![] =~= w0);
        assert(Seq::<char>::empty() + w0 =~= w0);
        assert(tokens_from(seq![], w0) == seq![w0]);
        assert(seq![w0] =~= ws);
    } else {
        let rest = ws.drop_first();
        assert forall|k: int| 0 <= k < rest.len() implies is_word(#[trigger] rest[k]) by {
            assert(rest[k] == ws[k + 1]);
        }
        lemma_tokens_of_spaced(rest);
        let tail = seq![' '] + spaced(rest);
        lemma_tokens_word_prefix(w0, tail, seq![]);
        assert(Seq::<char>::empty() + w0 =~= w0);
        assert(tail[0] == ' ');
        assert(tail.drop_first() =~= spaced(rest));
        assert(tokens_from(tail, w0) == seq![w0] + tokens_from(tail.drop_first(), seq![]));
        assert(seq![w0] + rest =~= ws);
    }
}

} // verus!
