//! Character-sequence helpers: comparison, search and construction of strings.
use vstd::prelude::*;
use vstd::utf8::*;

verus! {

broadcast use vstd::utf8::group_utf8_lib;

/// Two strings are equal exactly when their UTF-8 encodings are.
pub proof fn lemma_encode_injective(a: Seq<char>, b: Seq<char>)
    ensures
        (encode_utf8(a) == encode_utf8(b)) <==> (a == b),
{
    if encode_utf8(a) == encode_utf8(b) {
        assert(decode_utf8(encode_utf8(a)) == a);
        assert(decode_utf8(encode_utf8(b)) == b);
    }
}

/// Equality of two byte slices, element by element.
pub fn bytes_eq(a: &[u8], b: &[u8]) -> (r: bool)
    ensures
        r == (a@ == b@),
{
    if a.len() != b.len() {
        return false;
    }
    let mut i: usize = 0;
    while i < a.len()
        invariant
            a@.len() == b@.len(),
            i <= a@.len(),
            a@.take(i as int) == b@.take(i as int),
        decreases a@.len() - i,
    {
        if a[i] != b[i] {
            assert(a@[i as int] != b@[i as int]);
            return false;
        }
        assert(a@.take(i + 1) == a@.take(i as int).push(a@[i as int]));
        assert(b@.take(i + 1) == b@.take(i as int).push(b@[i as int]));
        i = i + 1;
    }
    assert(a@ == a@.take(a@.len() as int));
    assert(b@ == b@.take(b@.len() as int));
    true
}

/// Equality of two strings.
pub fn str_eq(a: &str, b: &str) -> (r: bool)
    ensures
        r == (a@ == b@),
{
    let r = bytes_eq(a.as_bytes(), b.as_bytes());
    proof {
        lemma_encode_injective(a@, b@);
    }
    r
}

} // verus!

verus! {

/// The characters of a string, in order.
pub fn chars_of(s: &str) -> (v: Vec<char>)
    ensures
        v@ == s@,
{
    let mut v: Vec<char> = Vec::new();
    for c in it: s.chars()
        invariant
            it.seq() == s@,
            v@ == it.seq().take(it.index() as int),
    {
        v.push(c);
    }
    v
}

} // verus!

verus! {

/// Appends one character to a string (`String::push`).
#[verifier::external_body]
pub(crate) fn push_char(s: &mut String, c: char)
    ensures
        final(s)@ == old(s)@.push(c),
{
    s.push(c);
}

/// A string holding the given characters.
pub fn string_of(v: &[char]) -> (s: String)
    ensures
        s@ == v@,
{
    let mut s = String::new();
    let mut i: usize = 0;
    while i < v.len()
        invariant
            i <= v@.len(),
            s@ == v@.take(i as int),
        decreases v@.len() - i,
    {
        push_char(&mut s, v[i]);
        assert(v@.take(i + 1) == v@.take(i as int).push(v@[i as int]));
        i = i + 1;
    }
    assert(v@.take(v@.len() as int) == v@);
    s
}

/// A string holding the given text (an owned copy).
pub fn owned(s: &str) -> (r: String)
    ensures
        r@ == s@,
{
    s.to_owned()
}

/// A string holding `a` followed by `b`.
pub fn concat2(a: &str, b: &str) -> (r: String)
    ensures
        r@ == a@ + b@,
{
    let mut r = a.to_owned();
    r.append(b);
    r
}

/// A string holding `a`, `b` and `c` in order.
pub fn concat3(a: &str, b: &str, c: &str) -> (r: String)
    ensures
        r@ == a@ + b@ + c@,
{
    let mut r = a.to_owned();
    r.append(b);
    r.append(c);
    r
}

/// Unicode `White_Space`, the property that `char::is_whitespace` tests.
pub open spec fn is_white(c: char) -> bool {
    ||| ('\t' <= c && c <= '\r')
    ||| c == ' '
    ||| c == '\u{85}'
    ||| c == '\u{a0}'
    ||| c == '\u{1680}'
    ||| ('\u{2000}' <= c && c <= '\u{200a}')
    ||| c == '\u{2028}'
    ||| c == '\u{2029}'
    ||| c == '\u{202f}'
    ||| c == '\u{205f}'
    ||| c == '\u{3000}'
}

/// Whether `c` is Unicode white space.
pub fn is_whitespace(c: char) -> (r: bool)
    ensures
        r == is_white(c),
{
    ('\t' <= c && c <= '\r') || c == ' ' || c == '\u{85}' || c == '\u{a0}' || c == '\u{1680}'
        || ('\u{2000}' <= c && c <= '\u{200a}') || c == '\u{2028}' || c == '\u{2029}'
        || c == '\u{202f}' || c == '\u{205f}' || c == '\u{3000}'
}

/// `s` without its leading white space.
pub open spec fn trim_start_spec(s: Seq<char>) -> Seq<char>
    decreases s.len(),
{
    if s.len() > 0 && is_white(s[0]) {
        trim_start_spec(s.drop_first())
    } else {
        s
    }
}

/// `s` without its trailing white space.
pub open spec fn trim_end_spec(s: Seq<char>) -> Seq<char>
    decreases s.len(),
{
    if s.len() > 0 && is_white(s.last()) {
        trim_end_spec(s.drop_last())
    } else {
        s
    }
}

/// `s` without leading and trailing white space (what `str::trim` returns).
pub open spec fn trim_spec(s: Seq<char>) -> Seq<char> {
    trim_end_spec(trim_start_spec(s))
}

/// The characters of `s` without leading and trailing white space.
pub fn trim_chars(s: &[char]) -> (r: Vec<char>)
    ensures
        r@ == trim_spec(s@),
{
    let mut i: usize = 0;
    assert(s@.skip(0) == s@);
    while i < s.len() && is_whitespace(s[i])
        invariant
            i <= s@.len(),
            trim_start_spec(s@) == trim_start_spec(s@.skip(i as int)),
        decreases s@.len() - i,
    {
        assert(s@.skip(i as int).drop_first() == s@.skip(i + 1));
        i = i + 1;
    }
    let mut j: usize = s.len();
    let ghost mid = s@.skip(i as int);
    assert(trim_start_spec(mid) == mid);
    while j > i && is_whitespace(s[j - 1])
        invariant
            i <= j <= s@.len(),
            mid == s@.skip(i as int),
            trim_end_spec(mid) == trim_end_spec(s@.subrange(i as int, j as int)),
        decreases j,
    {
        assert(s@.subrange(i as int, j as int).drop_last() == s@.subrange(i as int, j - 1));
        j = j - 1;
    }
    assert(trim_end_spec(s@.subrange(i as int, j as int)) == s@.subrange(i as int, j as int));
    let mut r: Vec<char> = Vec::new();
    let mut k: usize = i;
    while k < j
        invariant
            i <= k <= j <= s@.len(),
            r@ == s@.subrange(i as int, k as int),
        decreases j - k,
    {
        r.push(s[k]);
        assert(s@.subrange(i as int, k + 1) == s@.subrange(i as int, k as int).push(s@[k as int]));
        k = k + 1;
    }
    r
}

/// The ASCII lower-case form of a character (others are unchanged).
pub open spec fn ascii_lower(c: char) -> char {
    if 'A' <= c && c <= 'Z' {
        ((c as u32) + 32) as char
    } else {
        c
    }
}

/// Whether every character is ASCII.
pub open spec fn all_ascii(s: Seq<char>) -> bool {
    forall|i: int| 0 <= i < s.len() ==> (s[i] as u32) < 128
}

/// Lower-cases the ASCII letters of `s`.
pub fn ascii_lowercase(s: &[char]) -> (r: Vec<char>)
    ensures
        r@ == s@.map_values(|c: char| ascii_lower(c)),
{
    let mut r: Vec<char> = Vec::new();
    let mut i: usize = 0;
    while i < s.len()
        invariant
            i <= s@.len(),
            r@ == s@.take(i as int).map_values(|c: char| ascii_lower(c)),
        decreases s@.len() - i,
    {
        let c = s[i];
        let l = if 'A' <= c && c <= 'Z' {
            let b: u8 = (c as u8) + 32;
            b as char
        } else {
            c
        };
        r.push(l);
        assert(s@.take(i + 1) == s@.take(i as int).push(c));
        assert(s@.take(i + 1).map_values(|c: char| ascii_lower(c))
            == s@.take(i as int).map_values(|c: char| ascii_lower(c)).push(ascii_lower(c)));
        i = i + 1;
    }
    assert(s@.take(s@.len() as int) == s@);
    r
}

/// Whether every character of `s` is ASCII.
pub fn is_all_ascii(s: &[char]) -> (r: bool)
    ensures
        r == all_ascii(s@),
{
    let mut i: usize = 0;
    while i < s.len()
        invariant
            i <= s@.len(),
            forall|k: int| 0 <= k < i ==> (s@[k] as u32) < 128,
        decreases s@.len() - i,
    {
        if (s[i] as u32) >= 128 {
            return false;
        }
        i = i + 1;
    }
    true
}

/// The lower-case form of `s` as `str::to_lowercase` computes it (Unicode rules).
pub uninterp spec fn lowercased(s: Seq<char>) -> Seq<char>;

/// Calls `str::to_lowercase`; the result is named `lowercased` of the input.
#[verifier::external_body]
pub(crate) fn to_lowercase(s: &str) -> (r: String)
    ensures
        r@ == lowercased(s@),
{
    s.to_lowercase()
}

} // verus!

verus! {

/// Whether `needle` occurs in `hay` at position `i`.
pub open spec fn occurs_at(hay: Seq<char>, needle: Seq<char>, i: int) -> bool {
    0 <= i && i + needle.len() <= hay.len() && hay.subrange(i, i + needle.len()) == needle
}

/// Whether `needle` occurs somewhere in `hay`.
pub open spec fn contains_spec(hay: Seq<char>, needle: Seq<char>) -> bool {
    exists|i: int| occurs_at(hay, needle, i)
}

/// Whether `needle` starts `hay`.
pub open spec fn starts_with_spec(hay: Seq<char>, needle: Seq<char>) -> bool {
    needle.len() <= hay.len() && hay.take(needle.len() as int) == needle
}

/// Whether `needle` occurs in `hay` at position `i`.
pub fn occurs_at_exec(hay: &[char], needle: &[char], i: usize) -> (r: bool)
    ensures
        r == occurs_at(hay@, needle@, i as int),
{
    if i > hay.len() || needle.len() > hay.len() - i {
        return false;
    }
    let mut k: usize = 0;
    while k < needle.len()
        invariant
            i + needle@.len() <= hay@.len(),
            k <= needle@.len(),
            forall|j: int| 0 <= j < k ==> hay@[i + j] == needle@[j],
        decreases needle@.len() - k,
    {
        assert(hay@.len() == hay.len());
        if hay[i + k] != needle[k] {
            assert(hay@.subrange(i as int, i + needle@.len())[k as int] != needle@[k as int]);
            return false;
        }
        k = k + 1;
    }
    assert(hay@.subrange(i as int, i + needle@.len()) =~= needle@);
    true
}

/// Whether `needle` occurs in `hay`.
pub fn contains_chars(hay: &[char], needle: &[char]) -> (r: bool)
    ensures
        r == contains_spec(hay@, needle@),
{
    if needle.len() > hay.len() {
        assert forall|j: int| !occurs_at(hay@, needle@, j) by {}
        return false;
    }
    let last = hay.len() - needle.len();
    let mut i: usize = 0;
    while i < last
        invariant
            i <= last,
            last + needle@.len() == hay@.len(),
            forall|j: int| 0 <= j < i ==> !occurs_at(hay@, needle@, j),
        decreases last - i,
    {
        if occurs_at_exec(hay, needle, i) {
            return true;
        }
        i = i + 1;
    }
    if occurs_at_exec(hay, needle, last) {
        return true;
    }
    assert forall|j: int| !occurs_at(hay@, needle@, j) by {
        if 0 <= j && j < i {
        }
    }
    false
}

/// Whether the text `needle` occurs in the text `hay`.
pub fn contains_str(hay: &str, needle: &str) -> (r: bool)
    ensures
        r == contains_spec(hay@, needle@),
{
    let h = chars_of(hay);
    let n = chars_of(needle);
    contains_chars(h.as_slice(), n.as_slice())
}

/// Whether the text `hay` starts with `needle`.
pub fn starts_with_str(hay: &str, needle: &str) -> (r: bool)
    ensures
        r == starts_with_spec(hay@, needle@),
{
    let h = chars_of(hay);
    let n = chars_of(needle);
    let r = occurs_at_exec(h.as_slice(), n.as_slice(), 0);
    assert(r == starts_with_spec(hay@, needle@)) by {
        assert(h@.take(n@.len() as int) == h@.subrange(0, n@.len() as int));
    }
    r
}

} // verus!

verus! {

/// The pieces of `s` between occurrences of `sep` (as `str::split` with a
/// character): always at least one piece, possibly empty ones.
pub open spec fn split_spec(s: Seq<char>, sep: char) -> Seq<Seq<char>>
    decreases s.len(),
{
    if s.len() == 0 {
        seq![Seq::empty()]
    } else {
        let prev = split_spec(s.drop_last(), sep);
        if s.last() == sep {
            prev.push(Seq::empty())
        } else {
            prev.update(prev.len() - 1, prev.last().push(s.last()))
        }
    }
}

proof fn lemma_split_nonempty(s: Seq<char>, sep: char)
    ensures
        split_spec(s, sep).len() >= 1,
    decreases s.len(),
{
    if s.len() > 0 {
        lemma_split_nonempty(s.drop_last(), sep);
    }
}

/// Splits `s` at every `sep`.
pub fn split_char(s: &str, sep: char) -> (r: Vec<String>)
    ensures
        texts_of(r@) == split_spec(s@, sep),
{
    let c = chars_of(s);
    let mut pieces: Vec<Vec<char>> = Vec::new();
    pieces.push(Vec::new());
    let mut i: usize = 0;
    while i < c.len()
        invariant
            i <= c@.len(),
            pieces@.len() >= 1,
            pieces@.map_values(|v: Vec<char>| v@) == split_spec(c@.take(i as int), sep),
        decreases c@.len() - i,
    {
        proof {
            assert(c@.take(i + 1).drop_last() == c@.take(i as int));
            assert(c@.take(i + 1).last() == c@[i as int]);
            lemma_split_nonempty(c@.take(i as int), sep);
        }
        let ch = c[i];
        if ch == sep {
            pieces.push(Vec::new());
            assert(pieces@.map_values(|v: Vec<char>| v@) =~= split_spec(c@.take(i + 1), sep));
        } else {
            let last = pieces.len() - 1;
            let mut cur = pieces.pop().unwrap();
            cur.push(ch);
            pieces.push(cur);
            assert(pieces@.map_values(|v: Vec<char>| v@) =~= split_spec(c@.take(i + 1), sep));
        }
        i = i + 1;
    }
    assert(c@.take(c@.len() as int) == c@);
    let mut r: Vec<String> = Vec::new();
    let mut k: usize = 0;
    while k < pieces.len()
        invariant
            k <= pieces@.len(),
            r@.len() == k,
            forall|j: int| 0 <= j < k ==> #[trigger] r@[j]@ == pieces@[j]@,
        decreases pieces@.len() - k,
    {
        r.push(string_of(pieces[k].as_slice()));
        k = k + 1;
    }
    assert(texts_of(r@) =~= pieces@.map_values(|v: Vec<char>| v@));
    r
}

/// The texts of a list of strings.
pub open spec fn texts_of(v: Seq<String>) -> Seq<Seq<char>> {
    v.map_values(|s: String| s@)
}

/// The text of an optional string slice.
pub open spec fn opt_text(s: Option<&str>) -> Option<Seq<char>> {
    match s {
        Some(t) => Some(t@),
        None => None,
    }
}

/// The text of an optional string.
pub open spec fn opt_string(s: Option<String>) -> Option<Seq<char>> {
    match s {
        Some(t) => Some(t@),
        None => None,
    }
}

/// Whether one of the strings `v` equals `s`.
pub fn contains_text(v: &[String], s: &str) -> (r: bool)
    ensures
        r == texts_of(v@).contains(s@),
{
    let mut i: usize = 0;
    while i < v.len()
        invariant
            i <= v@.len(),
            forall|j: int| 0 <= j < i ==> v@[j]@ != s@,
        decreases v@.len() - i,
    {
        if str_eq(v[i].as_str(), s) {
            assert(texts_of(v@)[i as int] == s@);
            return true;
        }
        i = i + 1;
    }
    assert(!texts_of(v@).contains(s@)) by {
        if texts_of(v@).contains(s@) {
            let j = choose|j: int| 0 <= j < texts_of(v@).len() && texts_of(v@)[j] == s@;
            assert(v@[j]@ == s@);
        }
    }
    false
}

/// A line without one trailing carriage return.
pub open spec fn strip_cr(l: Seq<char>) -> Seq<char> {
    if l.len() > 0 && l.last() == '\r' {
        l.drop_last()
    } else {
        l
    }
}

/// The lines of a text, as `str::lines` gives them: split at `\n`, one
/// trailing `\r` removed from each, no final empty line after a last `\n`.
pub open spec fn lines_spec(s: Seq<char>) -> Seq<Seq<char>> {
    let parts = split_spec(s, '\n');
    let kept = if parts.last().len() == 0 { parts.drop_last() } else { parts };
    kept.map_values(|l: Seq<char>| strip_cr(l))
}

/// The lines of a text.
pub fn lines(s: &str) -> (r: Vec<String>)
    ensures
        texts_of(r@) == lines_spec(s@),
{
    let parts = split_char(s, '\n');
    proof {
        lemma_split_nonempty(s@, '\n');
    }
    let n = parts.len();
    let keep = if parts[n - 1].unicode_len() == 0 { n - 1 } else { n };
    let ghost ps = texts_of(parts@);
    let ghost kept = if ps.last().len() == 0 { ps.drop_last() } else { ps };
    assert(ps.last() == parts@[n - 1]@);
    assert(kept.len() == keep);
    let mut r: Vec<String> = Vec::new();
    let mut i: usize = 0;
    while i < keep
        invariant
            i <= keep,
            keep <= parts@.len(),
            kept.len() == keep,
            ps == texts_of(parts@),
            forall|j: int| 0 <= j < keep ==> #[trigger] kept[j] == ps[j],
            r@.len() == i,
            forall|j: int| 0 <= j < i ==> #[trigger] r@[j]@ == strip_cr(kept[j]),
        decreases keep - i,
    {
        let c = chars_of(parts[i].as_str());
        assert(c@ == kept[i as int]);
        let mut end = c.len();
        if end > 0 && c[end - 1] == '\r' {
            end = end - 1;
        }
        let mut l: Vec<char> = Vec::new();
        let mut k: usize = 0;
        while k < end
            invariant
                k <= end <= c@.len(),
                l@ == c@.take(k as int),
            decreases end - k,
        {
            l.push(c[k]);
            assert(c@.take(k + 1) == c@.take(k as int).push(c@[k as int]));
            k = k + 1;
        }
        assert(l@ == strip_cr(c@));
        r.push(string_of(l.as_slice()));
        i = i + 1;
    }
    assert(texts_of(r@) =~= lines_spec(s@));
    r
}

/// The first of the lines `ls` in which `needle` occurs.
pub open spec fn first_line_containing_spec(ls: Seq<Seq<char>>, needle: Seq<char>) -> Option<Seq<char>>
    decreases ls.len(),
{
    if ls.len() == 0 {
        None
    } else if contains_spec(ls[0], needle) {
        Some(ls[0])
    } else {
        first_line_containing_spec(ls.drop_first(), needle)
    }
}

/// The first line of `text` in which `needle` occurs.
pub fn first_line_containing(text: &str, needle: &str) -> (r: Option<String>)
    ensures
        match r {
            Some(l) => first_line_containing_spec(lines_spec(text@), needle@) == Some(l@),
            None => first_line_containing_spec(lines_spec(text@), needle@) is None,
        },
{
    let ls = lines(text);
    let ghost t = texts_of(ls@);
    let mut i: usize = 0;
    assert(t.skip(0) =~= t);
    while i < ls.len()
        invariant
            i <= ls@.len(),
            t == texts_of(ls@),
            t == lines_spec(text@),
            first_line_containing_spec(t, needle@) == first_line_containing_spec(t.skip(i as int), needle@),
        decreases ls@.len() - i,
    {
        assert(t.skip(i as int)[0] == ls@[i as int]@);
        assert(t.skip(i as int).drop_first() =~= t.skip(i + 1));
        if contains_str(ls[i].as_str(), needle) {
            return Some(owned(ls[i].as_str()));
        }
        i = i + 1;
    }
    assert(t.skip(i as int).len() == 0);
    None
}

/// The white-space separated words of a text (as `str::split_whitespace`).
pub open spec fn words_spec(s: Seq<char>) -> Seq<Seq<char>>
    decreases s.len(),
{
    if s.len() == 0 {
        Seq::empty()
    } else {
        let prev = words_spec(s.drop_last());
        if is_white(s.last()) {
            prev
        } else if s.len() == 1 || is_white(s[s.len() - 2]) {
            prev.push(seq![s.last()])
        } else {
            prev.update(prev.len() - 1, prev.last().push(s.last()))
        }
    }
}

proof fn lemma_words_nonempty(s: Seq<char>)
    ensures
        s.len() > 0 && !is_white(s.last()) ==> words_spec(s).len() >= 1,
    decreases s.len(),
{
    if s.len() > 0 {
        lemma_words_nonempty(s.drop_last());
    }
}

/// The white-space separated words of a text.
pub fn words(s: &str) -> (r: Vec<String>)
    ensures
        texts_of(r@) == words_spec(s@),
{
    let c = chars_of(s);
    let mut ws: Vec<Vec<char>> = Vec::new();
    let mut i: usize = 0;
    while i < c.len()
        invariant
            i <= c@.len(),
            ws@.map_values(|v: Vec<char>| v@) == words_spec(c@.take(i as int)),
        decreases c@.len() - i,
    {
        proof {
            assert(c@.take(i + 1).drop_last() == c@.take(i as int));
            assert(c@.take(i + 1).last() == c@[i as int]);
            if i >= 1 {
                assert(c@.take(i + 1)[i - 1] == c@[i - 1]);
                assert(c@.take(i as int).last() == c@[i - 1]);
                lemma_words_nonempty(c@.take(i as int));
            }
        }
        let ch = c[i];
        if is_whitespace(ch) {
        } else if i == 0 || is_whitespace(c[i - 1]) {
            let mut w: Vec<char> = Vec::new();
            w.push(ch);
            ws.push(w);
            assert(ws@.map_values(|v: Vec<char>| v@) =~= words_spec(c@.take(i + 1)));
        } else {
            let mut cur = ws.pop().unwrap();
            cur.push(ch);
            ws.push(cur);
            assert(ws@.map_values(|v: Vec<char>| v@) =~= words_spec(c@.take(i + 1)));
        }
        i = i + 1;
    }
    assert(c@.take(c@.len() as int) == c@);
    let mut r: Vec<String> = Vec::new();
    let mut k: usize = 0;
    while k < ws.len()
        invariant
            k <= ws@.len(),
            r@.len() == k,
            forall|j: int| 0 <= j < k ==> #[trigger] r@[j]@ == ws@[j]@,
        decreases ws@.len() - k,
    {
        r.push(string_of(ws[k].as_slice()));
        k = k + 1;
    }
    assert(texts_of(r@) =~= ws@.map_values(|v: Vec<char>| v@));
    r
}

} // verus!

verus! {

/// Whether every character is an ASCII digit.
pub open spec fn all_digits(s: Seq<char>) -> bool {
    forall|i: int| 0 <= i < s.len() ==> '0' <= #[trigger] s[i] && s[i] <= '9'
}

/// The number written by decimal digits.
pub open spec fn decimal_value(s: Seq<char>) -> nat
    decreases s.len(),
{
    if s.len() == 0 {
        0
    } else {
        decimal_value(s.drop_last()) * 10 + ((s.last() as u32) - ('0' as u32)) as nat
    }
}

/// What `str::parse::<u32>` gives: an optional `+`, then one or more decimal
/// digits whose value fits in 32 bits.
pub open spec fn parse_u32_spec(s: Seq<char>) -> Option<u32> {
    let digits = if s.len() > 0 && s[0] == '+' { s.drop_first() } else { s };
    if digits.len() > 0 && all_digits(digits) && decimal_value(digits) <= u32::MAX {
        Some(decimal_value(digits) as u32)
    } else {
        None
    }
}

proof fn lemma_decimal_prefix_bound(s: Seq<char>, i: int)
    requires
        0 <= i <= s.len(),
        all_digits(s),
    ensures
        decimal_value(s.take(i)) <= decimal_value(s),
    decreases s.len(),
{
    if i < s.len() {
        lemma_decimal_prefix_bound(s.drop_last(), i);
        assert(s.drop_last().take(i) == s.take(i));
    } else {
        assert(s.take(i) == s);
    }
}

/// Parses a decimal `u32` as `str::parse::<u32>` does.
pub fn parse_u32(s: &str) -> (r: Option<u32>)
    ensures
        r == parse_u32_spec(s@),
{
    let c = chars_of(s);
    let start: usize = if c.len() > 0 && c[0] == '+' { 1 } else { 0 };
    let ghost digits = if s@.len() > 0 && s@[0] == '+' { s@.drop_first() } else { s@ };
    assert(digits == c@.skip(start as int));
    if start >= c.len() {
        return None;
    }
    let mut v: u64 = 0;
    let mut i: usize = start;
    while i < c.len()
        invariant
            c@ == s@,
            digits == (if s@.len() > 0 && s@[0] == '+' { s@.drop_first() } else { s@ }),
            start <= i <= c@.len(),
            digits == c@.skip(start as int),
            all_digits(c@.subrange(start as int, i as int)),
            v == decimal_value(c@.subrange(start as int, i as int)),
            v <= u32::MAX,
        decreases c@.len() - i,
    {
        let ch = c[i];
        if !('0' <= ch && ch <= '9') {
            assert(!all_digits(digits)) by {
                assert(digits[i - start] == ch);
            }
            return None;
        }
        let d: u64 = (ch as u32 - '0' as u32) as u64;
        let next = v * 10 + d;
        proof {
            assert(c@.subrange(start as int, i + 1).drop_last() == c@.subrange(start as int, i as int));
        }
        if next > 0xFFFF_FFFF {
            proof {
                assert(c@.subrange(start as int, i + 1) == digits.take(i + 1 - start));
                if all_digits(digits) {
                    lemma_decimal_prefix_bound(digits, i + 1 - start);
                }
            }
            return None;
        }
        v = next;
        i = i + 1;
    }
    assert(c@.subrange(start as int, c@.len() as int) == digits);
    Some(v as u32)
}

} // verus!

verus! {

/// `s` with every non-overlapping occurrence of `pat` (found left to right)
/// replaced by `rep`, as `str::replace` does for a non-empty pattern.
pub open spec fn replace_spec(s: Seq<char>, pat: Seq<char>, rep: Seq<char>) -> Seq<char>
    recommends
        pat.len() > 0,
    decreases s.len(),
{
    if s.len() == 0 || pat.len() == 0 {
        s
    } else if occurs_at(s, pat, 0) {
        rep + replace_spec(s.skip(pat.len() as int), pat, rep)
    } else {
        seq![s[0]] + replace_spec(s.drop_first(), pat, rep)
    }
}

/// Replaces every occurrence of a non-empty pattern.
pub fn replace_str(s: &str, pat: &str, rep: &str) -> (r: String)
    requires
        pat@.len() > 0,
    ensures
        r@ == replace_spec(s@, pat@, rep@),
{
    let c = chars_of(s);
    let p = chars_of(pat);
    let rc = chars_of(rep);
    let mut out: Vec<char> = Vec::new();
    let mut i: usize = 0;
    assert(c@.skip(0) == c@);
    while i < c.len()
        invariant
            c@ == s@,
            p@ == pat@,
            rc@ == rep@,
            p@.len() > 0,
            i <= c@.len(),
            out@ + replace_spec(c@.skip(i as int), p@, rc@) == replace_spec(s@, pat@, rep@),
        decreases c@.len() - i,
    {
        if occurs_at_exec(c.as_slice(), p.as_slice(), i) {
            proof {
                assert(occurs_at(c@.skip(i as int), p@, 0)) by {
                    assert(c@.skip(i as int).subrange(0, p@.len() as int) == c@.subrange(i as int, i + p@.len()));
                }
                assert(c@.skip(i as int).skip(p@.len() as int) == c@.skip(i + p@.len()));
            }
            let ghost before = out@;
            let mut k: usize = 0;
            while k < rc.len()
                invariant
                    k <= rc@.len(),
                    out@ == before + rc@.take(k as int),
                decreases rc@.len() - k,
            {
                out.push(rc[k]);
                assert(rc@.take(k + 1) == rc@.take(k as int).push(rc@[k as int]));
                k = k + 1;
            }
            assert(rc@.take(rc@.len() as int) == rc@);
            assert(out@ + replace_spec(c@.skip(i + p@.len()), p@, rc@) == replace_spec(s@, pat@, rep@)) by {
                assert(before + (rc@ + replace_spec(c@.skip(i + p@.len()), p@, rc@))
                    == before + rc@ + replace_spec(c@.skip(i + p@.len()), p@, rc@));
            }
            i = i + p.len();
        } else {
            proof {
                assert(!occurs_at(c@.skip(i as int), p@, 0)) by {
                    if occurs_at(c@.skip(i as int), p@, 0) {
                        assert(c@.skip(i as int).subrange(0, p@.len() as int) == c@.subrange(i as int, i + p@.len()));
                    }
                }
                assert(c@.skip(i as int).drop_first() == c@.skip(i + 1));
                assert(c@.skip(i as int)[0] == c@[i as int]);
            }
            let ghost before = out@;
            out.push(c[i]);
            assert(out@ + replace_spec(c@.skip(i + 1), p@, rc@) == replace_spec(s@, pat@, rep@)) by {
                assert(before + (seq![c@[i as int]] + replace_spec(c@.skip(i + 1), p@, rc@))
                    == before.push(c@[i as int]) + replace_spec(c@.skip(i + 1), p@, rc@));
            }
            i = i + 1;
        }
    }
    assert(replace_spec(c@.skip(i as int), p@, rc@) == Seq::<char>::empty());
    assert(out@ + Seq::<char>::empty() == out@);
    string_of(out.as_slice())
}


/// The character of a decimal digit.
pub open spec fn digit_char(d: nat) -> char {
    ((d + 48) as u8) as char
}

/// The decimal numeral of `n`, without leading zeros.
pub open spec fn decimal_text(n: nat) -> Seq<char>
    decreases n,
{
    if n < 10 {
        seq![digit_char(n)]
    } else {
        decimal_text(n / 10).push(digit_char(n % 10))
    }
}

fn push_decimal(n: u64, out: &mut Vec<char>)
    ensures
        final(out)@ == old(out)@ + decimal_text(n as nat),
    decreases n,
{
    if n >= 10 {
        push_decimal(n / 10, out);
    }
    let d: u8 = (n % 10) as u8;
    out.push((d + 48) as char);
    proof {
        if n < 10 {
            assert(n % 10 == n);
        }
        assert(out@ =~= old(out)@ + decimal_text(n as nat));
    }
}

/// The decimal numeral of `n` (as `u64`'s `to_string` writes it).
pub fn decimal(n: u64) -> (r: String)
    ensures
        r@ == decimal_text(n as nat),
{
    let mut v: Vec<char> = Vec::new();
    push_decimal(n, &mut v);
    assert(v@ =~= decimal_text(n as nat));
    string_of(v.as_slice())
}

} // verus!
