//! Character-level text handling: the meaning of the standard string
//! operations the library relies on (trimming, splitting, case folding of
//! ASCII, decimal and hexadecimal numbers), each with a verified
//! implementation over `Vec<char>`.
use vstd::prelude::*;

verus! {

// ---------------------------------------------------------------------
// Characters
// ---------------------------------------------------------------------
/// Unicode `White_Space`, the set that `char::is_whitespace`, `str::trim`
/// and `str::split_whitespace` use.
pub open spec fn is_space(c: char) -> bool {
    ||| '\u{9}' <= c <= '\u{d}'
    ||| c == ' '
    ||| c == '\u{85}'
    ||| c == '\u{a0}'
    ||| c == '\u{1680}'
    ||| '\u{2000}' <= c <= '\u{200a}'
    ||| c == '\u{2028}'
    ||| c == '\u{2029}'
    ||| c == '\u{202f}'
    ||| c == '\u{205f}'
    ||| c == '\u{3000}'
}

pub fn char_is_space(c: char) -> (r: bool)
    ensures
        r == is_space(c),
{
    ('\u{9}' <= c && c <= '\u{d}') || c == ' ' || c == '\u{85}' || c == '\u{a0}' || c
        == '\u{1680}' || ('\u{2000}' <= c && c <= '\u{200a}') || c == '\u{2028}' || c
        == '\u{2029}' || c == '\u{202f}' || c == '\u{205f}' || c == '\u{3000}'
}

pub open spec fn is_ascii_char(c: char) -> bool {
    (c as u32) < 128
}

pub open spec fn is_ascii_text(s: Seq<char>) -> bool {
    forall|i: int| 0 <= i < s.len() ==> is_ascii_char(#[trigger] s[i])
}

pub open spec fn is_digit(c: char) -> bool {
    '0' <= c <= '9'
}

/// The value of a decimal digit character.
pub open spec fn digit_value(c: char) -> nat {
    ((c as u32) - ('0' as u32)) as nat
}

pub open spec fn hex_value(c: char) -> nat {
    if '0' <= c <= '9' {
        ((c as u32) - ('0' as u32)) as nat
    } else if 'a' <= c <= 'f' {
        ((c as u32) - ('a' as u32) + 10) as nat
    } else {
        ((c as u32) - ('A' as u32) + 10) as nat
    }
}

pub open spec fn is_hex_digit(c: char) -> bool {
    ('0' <= c <= '9') || ('a' <= c <= 'f') || ('A' <= c <= 'F')
}

pub open spec fn ascii_lower(c: char) -> char {
    if 'A' <= c <= 'Z' {
        ((c as u32) + 32) as char
    } else {
        c
    }
}

pub open spec fn ascii_upper(c: char) -> char {
    if 'a' <= c <= 'z' {
        ((c as u32) - 32) as char
    } else {
        c
    }
}

/// `s` with its ASCII letters made lower case, other characters unchanged.
pub open spec fn lower_ascii_text(s: Seq<char>) -> Seq<char> {
    s.map_values(|c: char| ascii_lower(c))
}

/// `s` with its ASCII letters made upper case, other characters unchanged.
pub open spec fn upper_ascii_text(s: Seq<char>) -> Seq<char> {
    s.map_values(|c: char| ascii_upper(c))
}

// ---------------------------------------------------------------------
// Conversions between `str`, `String` and `Vec<char>`
// ---------------------------------------------------------------------
/// The characters of `s`, in order.
pub fn chars_of(s: &str) -> (r: Vec<char>)
    ensures
        r@ == s@,
{
    let mut r: Vec<char> = Vec::new();
    for c in it: s.chars()
        invariant
            r@ == it.seq().take(it.index() as int),
            it.seq() == s@,
    {
        r.push(c);
    }
    r
}

/// Collects characters into a `String` (`String: FromIterator<char>`):
/// the string holds exactly those characters, in order.
#[verifier::external_body]
pub(crate) fn string_of(v: &[char]) -> (r: String)
    ensures
        r@ == v@,
{
    v.iter().collect()
}

/// A `String` holding the characters of `s`.
pub fn owned(s: &str) -> (r: String)
    ensures
        r@ == s@,
{
    s.to_owned()
}

/// Appends `s` to `v`.
pub fn push_str(v: &mut Vec<char>, s: &str)
    ensures
        final(v)@ == old(v)@ + s@,
{
    let c = chars_of(s);
    push_all(v, &c);
}

/// Appends the characters of `s` to `v`.
pub fn push_all(v: &mut Vec<char>, s: &[char])
    ensures
        final(v)@ == old(v)@ + s@,
{
    let ghost start = v@;
    let mut i: usize = 0;
    while i < s.len()
        invariant
            i <= s.len(),
            v@ == start + s@.take(i as int),
        decreases s.len() - i,
    {
        v.push(s[i]);
        i = i + 1;
        assert(s@.take(i as int) == s@.take((i - 1) as int).push(s@[i - 1]));
    }
    assert(s@.take(i as int) == s@);
}

/// Whether two character sequences are equal.
pub fn chars_eq(a: &[char], b: &[char]) -> (r: bool)
    ensures
        r == (a@ == b@),
{
    if a.len() != b.len() {
        return false;
    }
    let mut i: usize = 0;
    while i < a.len()
        invariant
            i <= a.len(),
            a.len() == b.len(),
            forall|j: int| 0 <= j < i ==> a@[j] == b@[j],
        decreases a.len() - i,
    {
        if a[i] != b[i] {
            return false;
        }
        i = i + 1;
    }
    assert(a@ =~= b@);
    true
}

/// Whether the text of `s` equals that of `t`.
pub fn str_eq(s: &str, t: &str) -> (r: bool)
    ensures
        r == (s@ == t@),
{
    let a = chars_of(s);
    let b = chars_of(t);
    chars_eq(&a, &b)
}

/// Whether the characters `l` are the text of `lit`.
pub fn chars_is(l: &[char], lit: &str) -> (r: bool)
    ensures
        r == (l@ == lit@),
{
    let c = chars_of(lit);
    chars_eq(l, &c)
}

/// Whether the characters `l` begin with the text of `lit`.
pub fn chars_begin(l: &[char], lit: &str) -> (r: bool)
    ensures
        r == has_prefix(l@, lit@),
{
    let c = chars_of(lit);
    starts_with(l, &c)
}

/// Whether `p` is a prefix of `s`.
pub open spec fn has_prefix(s: Seq<char>, p: Seq<char>) -> bool {
    p.len() <= s.len() && s.take(p.len() as int) == p
}

/// Whether `p` is a suffix of `s`.
pub open spec fn has_suffix(s: Seq<char>, p: Seq<char>) -> bool {
    p.len() <= s.len() && s.skip(s.len() - p.len()) == p
}

pub fn starts_with(s: &[char], p: &[char]) -> (r: bool)
    ensures
        r == has_prefix(s@, p@),
{
    if p.len() > s.len() {
        return false;
    }
    let mut i: usize = 0;
    while i < p.len()
        invariant
            i <= p.len(),
            p.len() <= s.len(),
            forall|j: int| 0 <= j < i ==> s@[j] == p@[j],
        decreases p.len() - i,
    {
        if s[i] != p[i] {
            assert(s@.take(p.len() as int)[i as int] != p@[i as int]);
            return false;
        }
        i = i + 1;
    }
    assert(s@.take(p.len() as int) =~= p@);
    true
}

pub fn ends_with(s: &[char], p: &[char]) -> (r: bool)
    ensures
        r == has_suffix(s@, p@),
{
    if p.len() > s.len() {
        return false;
    }
    let off = s.len() - p.len();
    let mut i: usize = 0;
    while i < p.len()
        invariant
            i <= p.len(),
            off + p.len() == s.len(),
            forall|j: int| 0 <= j < i ==> s@[off + j] == p@[j],
        decreases p.len() - i,
    {
        if s[off + i] != p[i] {
            assert(s@.skip(off as int)[i as int] != p@[i as int]);
            return false;
        }
        i = i + 1;
    }
    assert(s@.skip(off as int) =~= p@);
    true
}

pub fn str_starts_with(s: &str, p: &str) -> (r: bool)
    ensures
        r == has_prefix(s@, p@),
{
    let a = chars_of(s);
    let b = chars_of(p);
    starts_with(&a, &b)
}

/// A copy of `s[from..to]`.
pub fn slice_chars(s: &[char], from: usize, to: usize) -> (r: Vec<char>)
    requires
        from <= to <= s.len(),
    ensures
        r@ == s@.subrange(from as int, to as int),
{
    let mut r: Vec<char> = Vec::new();
    let mut i = from;
    while i < to
        invariant
            from <= i <= to <= s.len(),
            r@ == s@.subrange(from as int, i as int),
        decreases to - i,
    {
        r.push(s[i]);
        i = i + 1;
        assert(s@.subrange(from as int, i as int) == s@.subrange(from as int, (i - 1) as int).push(
            s@[i - 1],
        ));
    }
    r
}

/// The ASCII-lower-cased copy of `s`.
pub fn lower_ascii(s: &[char]) -> (r: Vec<char>)
    ensures
        r@ == lower_ascii_text(s@),
{
    let mut r: Vec<char> = Vec::new();
    let mut i: usize = 0;
    while i < s.len()
        invariant
            i <= s.len(),
            r@ == lower_ascii_text(s@.take(i as int)),
        decreases s.len() - i,
    {
        let c = s[i];
        let l = if 'A' <= c && c <= 'Z' {
            ((c as u32) + 32) as u8 as char
        } else {
            c
        };
        assert(l == ascii_lower(c)) by {
            if 'A' <= c && c <= 'Z' {
                assert(((c as u32) + 32) < 256);
            }
        }
        r.push(l);
        i = i + 1;
        assert(lower_ascii_text(s@.take(i as int)) =~= lower_ascii_text(s@.take((i - 1) as int)).push(
            ascii_lower(s@[i - 1]),
        ));
    }
    assert(s@.take(i as int) =~= s@);
    r
}

// ---------------------------------------------------------------------
// Trimming
// ---------------------------------------------------------------------
pub open spec fn trim_start(s: Seq<char>) -> Seq<char>
    decreases s.len(),
{
    if s.len() > 0 && is_space(s[0]) {
        trim_start(s.drop_first())
    } else {
        s
    }
}

pub open spec fn trim_end(s: Seq<char>) -> Seq<char>
    decreases s.len(),
{
    if s.len() > 0 && is_space(s.last()) {
        trim_end(s.drop_last())
    } else {
        s
    }
}

/// `str::trim`: `s` without its leading and trailing white space.
pub open spec fn trim(s: Seq<char>) -> Seq<char> {
    trim_end(trim_start(s))
}

/// `str::trim` over characters.
pub fn trim_chars(s: &[char]) -> (r: Vec<char>)
    ensures
        r@ == trim(s@),
{
    let mut i: usize = 0;
    assert(s@.skip(0) =~= s@);
    while i < s.len() && char_is_space(s[i])
        invariant
            i <= s.len(),
            trim_start(s@) == trim_start(s@.skip(i as int)),
        decreases s.len() - i,
    {
        assert(s@.skip(i as int).drop_first() =~= s@.skip(i + 1));
        i = i + 1;
    }
    assert(trim_start(s@) == s@.skip(i as int));
    let mut j: usize = s.len();
    while j > i && char_is_space(s[j - 1])
        invariant
            i <= j <= s.len(),
            trim(s@) == trim_end(s@.subrange(i as int, j as int)),
        decreases j,
    {
        assert(s@.subrange(i as int, j as int).drop_last() =~= s@.subrange(i as int, j - 1));
        j = j - 1;
    }
    assert(s@.skip(i as int) =~= s@.subrange(i as int, s.len() as int));
    slice_chars(s, i, j)
}

/// `str::trim_matches` with a single character: `s` without the leading
/// and trailing occurrences of `c`.
pub open spec fn trim_char(s: Seq<char>, c: char) -> Seq<char> {
    trim_char_end(trim_char_start(s, c), c)
}

pub open spec fn trim_char_start(s: Seq<char>, c: char) -> Seq<char>
    decreases s.len(),
{
    if s.len() > 0 && s[0] == c {
        trim_char_start(s.drop_first(), c)
    } else {
        s
    }
}

pub open spec fn trim_char_end(s: Seq<char>, c: char) -> Seq<char>
    decreases s.len(),
{
    if s.len() > 0 && s.last() == c {
        trim_char_end(s.drop_last(), c)
    } else {
        s
    }
}

pub fn trim_matching(s: &[char], c: char) -> (r: Vec<char>)
    ensures
        r@ == trim_char(s@, c),
{
    let mut i: usize = 0;
    assert(s@.skip(0) =~= s@);
    while i < s.len() && s[i] == c
        invariant
            i <= s.len(),
            trim_char_start(s@, c) == trim_char_start(s@.skip(i as int), c),
        decreases s.len() - i,
    {
        assert(s@.skip(i as int).drop_first() =~= s@.skip(i + 1));
        i = i + 1;
    }
    assert(trim_char_start(s@, c) == s@.skip(i as int));
    let mut j: usize = s.len();
    while j > i && s[j - 1] == c
        invariant
            i <= j <= s.len(),
            trim_char(s@, c) == trim_char_end(s@.subrange(i as int, j as int), c),
        decreases j,
    {
        assert(s@.subrange(i as int, j as int).drop_last() =~= s@.subrange(i as int, j - 1));
        j = j - 1;
    }
    assert(s@.skip(i as int) =~= s@.subrange(i as int, s.len() as int));
    slice_chars(s, i, j)
}

/// `str::trim_start_matches` with a single character.
pub fn trim_start_matching(s: &[char], c: char) -> (r: Vec<char>)
    ensures
        r@ == trim_char_start(s@, c),
{
    let mut i: usize = 0;
    assert(s@.skip(0) =~= s@);
    while i < s.len() && s[i] == c
        invariant
            i <= s.len(),
            trim_char_start(s@, c) == trim_char_start(s@.skip(i as int), c),
        decreases s.len() - i,
    {
        assert(s@.skip(i as int).drop_first() =~= s@.skip(i + 1));
        i = i + 1;
    }
    assert(s@.skip(i as int) =~= s@.subrange(i as int, s.len() as int));
    slice_chars(s, i, s.len())
}

/// `str::trim_end_matches` with a single character.
pub fn trim_end_matching(s: &[char], c: char) -> (r: Vec<char>)
    ensures
        r@ == trim_char_end(s@, c),
{
    let mut j: usize = s.len();
    assert(s@.take(s.len() as int) =~= s@);
    while j > 0 && s[j - 1] == c
        invariant
            j <= s.len(),
            trim_char_end(s@, c) == trim_char_end(s@.take(j as int), c),
        decreases j,
    {
        assert(s@.take(j as int).drop_last() =~= s@.take(j - 1));
        j = j - 1;
    }
    assert(s@.take(j as int) =~= s@.subrange(0, j as int));
    assert(s@.take(s.len() as int) =~= s@);
    slice_chars(s, 0, j)
}

// ---------------------------------------------------------------------
// Searching and splitting
// ---------------------------------------------------------------------
/// The index of the first occurrence of `d` in `s`.
pub open spec fn find_char(s: Seq<char>, d: char) -> Option<int>
    decreases s.len(),
{
    if s.len() == 0 {
        None
    } else if s[0] == d {
        Some(0)
    } else {
        match find_char(s.drop_first(), d) {
            Some(i) => Some(i + 1),
            None => None,
        }
    }
}

pub proof fn lemma_find_char_at(s: Seq<char>, d: char, k: int)
    requires
        0 <= k < s.len(),
        s[k] == d,
        forall|j: int| 0 <= j < k ==> s[j] != d,
    ensures
        find_char(s, d) == Some(k),
    decreases k,
{
    if k > 0 {
        lemma_find_char_at(s.drop_first(), d, k - 1);
    }
}

pub proof fn lemma_find_char_none(s: Seq<char>, d: char)
    requires
        forall|j: int| 0 <= j < s.len() ==> s[j] != d,
    ensures
        find_char(s, d) is None,
    decreases s.len(),
{
    if s.len() > 0 {
        lemma_find_char_none(s.drop_first(), d);
    }
}

pub proof fn lemma_find_char_props(s: Seq<char>, d: char)
    ensures
        find_char(s, d) matches Some(k) ==> 0 <= k < s.len() && s[k] == d && forall|j: int|
            0 <= j < k ==> s[j] != d,
        find_char(s, d) is None ==> forall|j: int| 0 <= j < s.len() ==> s[j] != d,
    decreases s.len(),
{
    if s.len() > 0 {
        lemma_find_char_props(s.drop_first(), d);
        if s[0] != d {
            assert forall|j: int| 0 < j < s.len() implies s[j] == s.drop_first()[j - 1] by {}
        }
    }
}

/// First index of `d` in `s`, if any.
pub fn find(s: &[char], d: char) -> (r: Option<usize>)
    ensures
        r matches Some(k) ==> find_char(s@, d) == Some(k as int),
        r is None ==> find_char(s@, d) is None,
{
    let mut i: usize = 0;
    while i < s.len()
        invariant
            i <= s.len(),
            forall|j: int| 0 <= j < i ==> s@[j] != d,
        decreases s.len() - i,
    {
        if s[i] == d {
            proof {
                lemma_find_char_at(s@, d, i as int);
            }
            return Some(i);
        }
        i = i + 1;
    }
    proof {
        lemma_find_char_none(s@, d);
    }
    None
}

/// `str::split` with a character pattern: the pieces between the
/// occurrences of `d`, empty pieces included.
pub open spec fn split(s: Seq<char>, d: char) -> Seq<Seq<char>>
    decreases s.len(),
{
    match find_char(s, d) {
        None => seq![s],
        Some(i) => {
            if 0 <= i < s.len() {
                seq![s.take(i)] + split(s.skip(i + 1), d)
            } else {
                seq![s]
            }
        },
    }
}

/// A text without the delimiter is one piece.
pub proof fn lemma_split_whole(s: Seq<char>, d: char)
    requires
        forall|j: int| 0 <= j < s.len() ==> s[j] != d,
    ensures
        split(s, d) == seq![s],
{
    lemma_find_char_none(s, d);
}

/// A text that starts with a piece free of the delimiter, then the
/// delimiter, splits into that piece and the pieces of the rest.
pub proof fn lemma_split_first(a: Seq<char>, b: Seq<char>, d: char)
    requires
        forall|j: int| 0 <= j < a.len() ==> a[j] != d,
    ensures
        split(a + seq![d] + b, d) == seq![a] + split(b, d),
{
    let s = a + seq![d] + b;
    assert forall|j: int| 0 <= j < a.len() implies s[j] != d by {
        assert(s[j] == a[j]);
    }
    lemma_find_char_at(s, d, a.len() as int);
    assert(s.take(a.len() as int) =~= a);
    assert(s.skip(a.len() + 1int) =~= b);
}

/// A text that ends with the delimiter and a last piece free of it splits
/// into the pieces of what comes before and that last piece.
pub proof fn lemma_split_last(a: Seq<char>, b: Seq<char>, d: char)
    requires
        forall|j: int| 0 <= j < b.len() ==> b[j] != d,
    ensures
        split(a + seq![d] + b, d) == split(a, d) + seq![b],
    decreases a.len(),
{
    lemma_find_char_props(a, d);
    match find_char(a, d) {
        None => {
            lemma_split_whole(a, d);
            lemma_split_first(a, b, d);
            lemma_split_whole(b, d);
        },
        Some(i) => {
            let a1 = a.take(i);
            let a2 = a.skip(i + 1);
            assert(a =~= a1 + seq![d] + a2);
            lemma_split_first(a1, a2, d);
            assert(a + seq![d] + b =~= a1 + seq![d] + (a2 + seq![d] + b));
            lemma_split_first(a1, a2 + seq![d] + b, d);
            lemma_split_last(a2, b, d);
            assert(split(a + seq![d] + b, d) =~= split(a, d) + seq![b]);
        },
    }
}

/// The view of each element of a vector of character vectors.
pub open spec fn views(v: Seq<Vec<char>>) -> Seq<Seq<char>> {
    v.map_values(|x: Vec<char>| x@)
}

/// `str::split` with a character pattern.
pub fn split_on(s: &[char], d: char) -> (r: Vec<Vec<char>>)
    ensures
        views(r@) == split(s@, d),
        r@.len() >= 1,
{
    let mut r: Vec<Vec<char>> = Vec::new();
    let mut start: usize = 0;
    let mut i: usize = 0;
    assert(s@.skip(0) =~= s@);
    assert(views(r@) =~= Seq::<Seq<char>>::empty());
    while i < s.len()
        invariant
            start <= i <= s.len(),
            split(s@, d) == views(r@) + split(s@.skip(start as int), d),
            forall|j: int| start <= j < i ==> s@[j] != d,
        decreases s.len() - i,
    {
        if s[i] == d {
            let piece = slice_chars(s, start, i);
            proof {
                let t = s@.skip(start as int);
                assert forall|j: int| 0 <= j < i - start implies t[j] != d by {
                    assert(t[j] == s@[start + j]);
                }
                lemma_find_char_at(t, d, i - start);
                assert(t.take(i - start) =~= piece@);
                assert(t.skip(i - start + 1) =~= s@.skip(i + 1));
                assert(views(r@.push(piece)) =~= views(r@).push(piece@));
            }
            r.push(piece);
            start = i + 1;
        }
        i = i + 1;
    }
    let last = slice_chars(s, start, s.len());
    proof {
        let t = s@.skip(start as int);
        assert forall|j: int| 0 <= j < t.len() implies t[j] != d by {
            assert(t[j] == s@[start + j]);
        }
        lemma_find_char_none(t, d);
        assert(t =~= last@);
        assert(views(r@.push(last)) =~= views(r@).push(last@));
    }
    r.push(last);
    r
}

/// `str::split_once` / `splitn(2, ..)` with a character pattern: the text
/// before the first `d` and the text after it.
pub open spec fn split_once(s: Seq<char>, d: char) -> Option<(Seq<char>, Seq<char>)> {
    match find_char(s, d) {
        Some(i) => Some((s.take(i), s.skip(i + 1))),
        None => None,
    }
}

pub fn split_once_on(s: &[char], d: char) -> (r: Option<(Vec<char>, Vec<char>)>)
    ensures
        r matches Some((a, b)) ==> split_once(s@, d) == Some((a@, b@)),
        r is None ==> split_once(s@, d) is None,
{
    proof {
        lemma_find_char_props(s@, d);
    }
    match find(s, d) {
        Some(k) => {
            assert(find_char(s@, d) == Some(k as int));
            assert(k < s.len());
            let a = slice_chars(s, 0, k);
            let b = slice_chars(s, k + 1, s.len());
            assert(a@ =~= s@.take(k as int));
            assert(b@ =~= s@.skip(k + 1));
            Some((a, b))
        },
        None => None,
    }
}

// ---------------------------------------------------------------------
// Numbers
// ---------------------------------------------------------------------
pub open spec fn all_digits(s: Seq<char>) -> bool {
    forall|i: int| 0 <= i < s.len() ==> is_digit(#[trigger] s[i])
}

/// The value of a string of decimal digits.
pub open spec fn digits_value(s: Seq<char>) -> nat
    decreases s.len(),
{
    if s.len() == 0 {
        0
    } else {
        digits_value(s.drop_last()) * 10 + digit_value(s.last())
    }
}

/// `FromStr` of an unsigned integer type whose largest value is `max`:
/// an optional `+`, then one or more decimal digits, the value at most
/// `max`.
pub open spec fn parse_unsigned(s: Seq<char>, max: nat) -> Option<nat> {
    let d = if s.len() > 0 && s[0] == '+' {
        s.drop_first()
    } else {
        s
    };
    if d.len() > 0 && all_digits(d) && digits_value(d) <= max {
        Some(digits_value(d))
    } else {
        None
    }
}

/// `FromStr` of a signed integer type with range `[-(max + 1), max]`: an
/// optional sign, then one or more decimal digits.
pub open spec fn parse_signed(s: Seq<char>, max: nat) -> Option<int> {
    if s.len() > 0 && s[0] == '-' {
        let d = s.drop_first();
        if d.len() > 0 && all_digits(d) && digits_value(d) <= max + 1 {
            Some(-(digits_value(d) as int))
        } else {
            None
        }
    } else {
        match parse_unsigned(s, max) {
            Some(v) => Some(v as int),
            None => None,
        }
    }
}

pub proof fn lemma_digits_value_grows(s: Seq<char>, i: int)
    requires
        0 <= i <= s.len(),
        all_digits(s),
    ensures
        digits_value(s.take(i)) <= digits_value(s),
    decreases s.len() - i,
{
    if i < s.len() {
        lemma_digits_value_grows(s, i + 1);
        assert(s.take(i + 1).drop_last() =~= s.take(i));
    } else {
        assert(s.take(i) =~= s);
    }
}

/// Value of the digit string `s`, or `None` if it has a non-digit or its
/// value exceeds `max`.
fn digits_up_to(s: &[char], max: u64) -> (r: Option<u64>)
    ensures
        r matches Some(v) ==> all_digits(s@) && v == digits_value(s@) && v <= max,
        r is None ==> !(all_digits(s@) && digits_value(s@) <= max),
{
    let mut v: u64 = 0;
    let mut i: usize = 0;
    while i < s.len()
        invariant
            i <= s.len(),
            all_digits(s@.take(i as int)),
            v == digits_value(s@.take(i as int)),
            v <= max,
        decreases s.len() - i,
    {
        let c = s[i];
        if !('0' <= c && c <= '9') {
            assert(!is_digit(s@[i as int]));
            return None;
        }
        let dv = ((c as u32) - ('0' as u32)) as u64;
        assert(s@.take(i + 1).drop_last() =~= s@.take(i as int));
        if dv > max || v > (max - dv) / 10 {
            proof {
                assert(all_digits(s@.take(i + 1))) by {
                    assert forall|j: int| 0 <= j < i + 1 implies is_digit(
                        #[trigger] s@.take(i + 1)[j],
                    ) by {
                        if j < i {
                            assert(s@.take(i + 1)[j] == s@.take(i as int)[j]);
                        }
                    }
                }
                assert(digits_value(s@.take(i + 1)) == v * 10 + dv);
                assert(v * 10 + dv > max) by (nonlinear_arith)
                    requires
                        dv > max || v > (max - dv) / 10,
                        dv <= 9,
                ;
                if all_digits(s@) {
                    lemma_digits_value_grows(s@, i + 1);
                }
            }
            return None;
        }
        assert(v * 10 + dv <= max) by (nonlinear_arith)
            requires
                v <= (max - dv) / 10,
                dv <= max,
        ;
        v = v * 10 + dv;
        i = i + 1;
        assert forall|j: int| 0 <= j < i implies is_digit(#[trigger] s@.take(i as int)[j]) by {
            if j < i - 1 {
                assert(s@.take(i as int)[j] == s@.take(i - 1)[j]);
            }
        }
    }
    assert(s@.take(i as int) =~= s@);
    Some(v)
}

/// `str::parse::<u64>` (and the other unsigned widths, through `max`).
pub fn parse_unsigned_chars(s: &[char], max: u64) -> (r: Option<u64>)
    ensures
        r matches Some(v) ==> parse_unsigned(s@, max as nat) == Some(v as nat),
        r is None ==> parse_unsigned(s@, max as nat) is None,
{
    let digits = if s.len() > 0 && s[0] == '+' {
        slice_chars(s, 1, s.len())
    } else {
        slice_chars(s, 0, s.len())
    };
    assert(s@.subrange(1, s@.len() as int) =~= s@.drop_first());
    assert(s@.subrange(0, s@.len() as int) =~= s@);
    if digits.len() == 0 {
        return None;
    }
    digits_up_to(&digits, max)
}

/// `str::parse::<i32>`.
pub fn parse_i32_chars(s: &[char]) -> (r: Option<i32>)
    ensures
        r matches Some(v) ==> parse_signed(s@, i32::MAX as nat) == Some(v as int),
        r is None ==> parse_signed(s@, i32::MAX as nat) is None,
{
    if s.len() > 0 && s[0] == '-' {
        let digits = slice_chars(s, 1, s.len());
        assert(digits@ =~= s@.drop_first());
        if digits.len() == 0 {
            return None;
        }
        match digits_up_to(&digits, 2147483648) {
            Some(v) => Some((0 - (v as i64)) as i32),
            None => None,
        }
    } else {
        match parse_unsigned_chars(s, 2147483647) {
            Some(v) => Some(v as i32),
            None => None,
        }
    }
}

/// The value of a string of hexadecimal digits.
pub open spec fn hex_digits_value(s: Seq<char>) -> nat
    decreases s.len(),
{
    if s.len() == 0 {
        0
    } else {
        hex_digits_value(s.drop_last()) * 16 + hex_value(s.last())
    }
}

pub open spec fn all_hex_digits(s: Seq<char>) -> bool {
    forall|i: int| 0 <= i < s.len() ==> is_hex_digit(#[trigger] s[i])
}

/// `usize::from_str_radix(s, 16)`: an optional `+`, then one or more
/// hexadecimal digits of either case, the value at most `max`.
pub open spec fn parse_hex(s: Seq<char>, max: nat) -> Option<nat> {
    let d = if s.len() > 0 && s[0] == '+' {
        s.drop_first()
    } else {
        s
    };
    if d.len() > 0 && all_hex_digits(d) && hex_digits_value(d) <= max {
        Some(hex_digits_value(d))
    } else {
        None
    }
}

pub proof fn lemma_hex_value_grows(s: Seq<char>, i: int)
    requires
        0 <= i <= s.len(),
    ensures
        hex_digits_value(s.take(i)) <= hex_digits_value(s),
    decreases s.len() - i,
{
    if i < s.len() {
        lemma_hex_value_grows(s, i + 1);
        assert(s.take(i + 1).drop_last() =~= s.take(i));
    } else {
        assert(s.take(i) =~= s);
    }
}

fn hex_digits_up_to(s: &[char], max: usize) -> (r: Option<usize>)
    ensures
        r matches Some(v) ==> all_hex_digits(s@) && v == hex_digits_value(s@) && v <= max,
        r is None ==> !(all_hex_digits(s@) && hex_digits_value(s@) <= max),
{
    let mut v: usize = 0;
    let mut i: usize = 0;
    while i < s.len()
        invariant
            i <= s.len(),
            all_hex_digits(s@.take(i as int)),
            v == hex_digits_value(s@.take(i as int)),
            v <= max,
        decreases s.len() - i,
    {
        let c = s[i];
        let dv: usize = if '0' <= c && c <= '9' {
            ((c as u32) - ('0' as u32)) as usize
        } else if 'a' <= c && c <= 'f' {
            ((c as u32) - ('a' as u32) + 10) as usize
        } else if 'A' <= c && c <= 'F' {
            ((c as u32) - ('A' as u32) + 10) as usize
        } else {
            assert(!is_hex_digit(s@[i as int]));
            return None;
        };
        assert(dv == hex_value(c));
        assert(s@.take(i + 1).drop_last() =~= s@.take(i as int));
        if dv > max || v > (max - dv) / 16 {
            proof {
                assert(hex_digits_value(s@.take(i + 1)) == v * 16 + dv);
                assert(v * 16 + dv > max) by (nonlinear_arith)
                    requires
                        dv > max || v > (max - dv) / 16,
                        dv <= 15,
                ;
                lemma_hex_value_grows(s@, i + 1);
            }
            return None;
        }
        assert(v * 16 + dv <= max) by (nonlinear_arith)
            requires
                v <= (max - dv) / 16,
                dv <= max,
        ;
        v = v * 16 + dv;
        i = i + 1;
        assert forall|j: int| 0 <= j < i implies is_hex_digit(#[trigger] s@.take(i as int)[j]) by {
            if j < i - 1 {
                assert(s@.take(i as int)[j] == s@.take(i - 1)[j]);
            }
        }
    }
    assert(s@.take(i as int) =~= s@);
    Some(v)
}

/// `usize::from_str_radix(s, 16)`.
pub fn parse_hex_chars(s: &[char]) -> (r: Option<usize>)
    ensures
        r matches Some(v) ==> parse_hex(s@, usize::MAX as nat) == Some(v as nat),
        r is None ==> parse_hex(s@, usize::MAX as nat) is None,
{
    let digits = if s.len() > 0 && s[0] == '+' {
        slice_chars(s, 1, s.len())
    } else {
        slice_chars(s, 0, s.len())
    };
    assert(s@.subrange(1, s@.len() as int) =~= s@.drop_first());
    assert(s@.subrange(0, s@.len() as int) =~= s@);
    if digits.len() == 0 {
        return None;
    }
    hex_digits_up_to(&digits, usize::MAX)
}

/// The decimal digit character for `d < 10`.
pub open spec fn digit_char(d: nat) -> char {
    (('0' as u32) + d) as char
}

/// The decimal text of `n` (how `{}` formats an unsigned integer).
pub open spec fn decimal(n: nat) -> Seq<char>
    decreases n,
{
    if n < 10 {
        seq![digit_char(n)]
    } else {
        decimal(n / 10).push(digit_char(n % 10))
    }
}

/// The decimal text of a number is made of digits, and reads back as it.
pub proof fn lemma_decimal_digits(n: nat)
    ensures
        decimal(n).len() > 0,
        all_digits(decimal(n)),
        digits_value(decimal(n)) == n,
    decreases n,
{
    if n < 10 {
        let s = decimal(n);
        assert(s.drop_last() =~= Seq::<char>::empty());
        assert(digit_value(digit_char(n)) == n);
        assert(digits_value(s.drop_last()) == 0);
        assert(digits_value(s) == digits_value(s.drop_last()) * 10 + digit_value(s.last()));
    } else {
        lemma_decimal_digits(n / 10);
        let s = decimal(n);
        assert(s.drop_last() =~= decimal(n / 10));
        assert(digit_value(digit_char(n % 10)) == n % 10);
        assert((n / 10) * 10 + n % 10 == n) by (nonlinear_arith);
        assert(s.last() == digit_char(n % 10));
        assert(digits_value(s) == digits_value(s.drop_last()) * 10 + digit_value(s.last()));
        assert forall|i: int| 0 <= i < s.len() implies is_digit(#[trigger] s[i]) by {
            if i < s.len() - 1 {
                assert(s[i] == decimal(n / 10)[i]);
            }
        }
    }
}

/// The decimal text of a signed integer.
pub open spec fn signed_decimal(n: int) -> Seq<char> {
    if n < 0 {
        seq!['-'] + decimal((-n) as nat)
    } else {
        decimal(n as nat)
    }
}

/// The decimal text of `n`.
pub fn decimal_chars(n: u64) -> (r: Vec<char>)
    ensures
        r@ == decimal(n as nat),
    decreases n,
{
    let d = (n % 10) as u32;
    let c = char_from_digit(d);
    if n < 10 {
        let mut r = Vec::new();
        r.push(c);
        assert(r@ =~= seq![c]);
        r
    } else {
        let mut r = decimal_chars(n / 10);
        r.push(c);
        r
    }
}

fn char_from_digit(d: u32) -> (c: char)
    requires
        d < 10,
    ensures
        c == digit_char(d as nat),
{
    let v: u8 = 48u8 + (d as u8);
    v as char
}

/// The decimal text of a signed `n`.
pub fn signed_decimal_chars(n: i64) -> (r: Vec<char>)
    ensures
        r@ == signed_decimal(n as int),
{
    if n < 0 {
        let m: u64 = if n == i64::MIN {
            9223372036854775808u64
        } else {
            (-n) as u64
        };
        let mut r = Vec::new();
        r.push('-');
        let d = decimal_chars(m);
        push_all(&mut r, &d);
        assert(r@ =~= seq!['-'] + decimal((-(n as int)) as nat));
        r
    } else {
        decimal_chars(n as u64)
    }
}


// ---------------------------------------------------------------------
// Searching and replacing text
// ---------------------------------------------------------------------
/// Whether `p` occurs in `s` at position `i`.
pub open spec fn text_at(s: Seq<char>, p: Seq<char>, i: int) -> bool {
    0 <= i && i + p.len() <= s.len() && s.subrange(i, i + p.len()) == p
}

/// The first position at which `p` occurs in `s` (what `str::find`
/// finds, counted in characters).
pub open spec fn find_text(s: Seq<char>, p: Seq<char>) -> Option<int> {
    if exists|i: int| text_at(s, p, i) {
        Some(choose|i: int| text_at(s, p, i) && forall|j: int| 0 <= j < i ==> !text_at(s, p, j))
    } else {
        None
    }
}

proof fn lemma_least_text(s: Seq<char>, p: Seq<char>, w: int)
    requires
        text_at(s, p, w),
    ensures
        exists|i: int| text_at(s, p, i) && forall|j: int| 0 <= j < i ==> !text_at(s, p, j),
    decreases w,
{
    if exists|j: int| 0 <= j < w && text_at(s, p, j) {
        let j = choose|j: int| 0 <= j < w && text_at(s, p, j);
        lemma_least_text(s, p, j);
    } else {
        assert(text_at(s, p, w) && forall|j: int| 0 <= j < w ==> !text_at(s, p, j));
    }
}

/// `find_text` is the first occurrence, or `None` when there is none.
pub proof fn lemma_find_text(s: Seq<char>, p: Seq<char>)
    ensures
        find_text(s, p) matches Some(i) ==> text_at(s, p, i) && forall|j: int|
            0 <= j < i ==> !text_at(s, p, j),
        find_text(s, p) is None ==> forall|j: int| !text_at(s, p, j),
{
    if exists|i: int| text_at(s, p, i) {
        let w = choose|i: int| text_at(s, p, i);
        lemma_least_text(s, p, w);
    }
}

proof fn lemma_find_text_first(s: Seq<char>, p: Seq<char>, i: int)
    requires
        text_at(s, p, i),
        forall|j: int| 0 <= j < i ==> !text_at(s, p, j),
    ensures
        find_text(s, p) == Some(i),
{
    lemma_find_text(s, p);
    let k = find_text(s, p)->0;
    if k < i {
        assert(!text_at(s, p, k));
    }
    if i < k {
        assert(!text_at(s, p, i));
    }
}

/// Whether `p` occurs in `s` at position `i`.
pub fn text_matches_at(s: &[char], p: &[char], i: usize) -> (r: bool)
    requires
        i <= s.len(),
    ensures
        r == text_at(s@, p@, i as int),
{
    if p.len() > s.len() - i {
        return false;
    }
    let mut k: usize = 0;
    while k < p.len()
        invariant
            k <= p.len(),
            i + p.len() <= s.len(),
            forall|j: int| 0 <= j < k ==> s@[i + j] == p@[j],
        decreases p.len() - k,
    {
        if s[i + k] != p[k] {
            assert(s@.subrange(i as int, i + p.len())[k as int] != p@[k as int]);
            return false;
        }
        k = k + 1;
    }
    assert(s@.subrange(i as int, i + p.len()) =~= p@);
    true
}

/// The first position at which `p` occurs in `s`.
pub fn find_in(s: &[char], p: &[char]) -> (r: Option<usize>)
    ensures
        r matches Some(i) ==> find_text(s@, p@) == Some(i as int),
        r is None ==> find_text(s@, p@) is None,
{
    let mut i: usize = 0;
    while i < s.len()
        invariant
            i <= s.len(),
            forall|j: int| 0 <= j < i ==> !text_at(s@, p@, j),
        decreases s.len() - i,
    {
        if text_matches_at(s, p, i) {
            proof {
                lemma_find_text_first(s@, p@, i as int);
            }
            return Some(i);
        }
        i = i + 1;
    }
    if text_matches_at(s, p, i) {
        proof {
            lemma_find_text_first(s@, p@, i as int);
        }
        return Some(i);
    }
    proof {
        assert forall|j: int| !text_at(s@, p@, j) by {
            if 0 <= j < i {
            }
        }
        lemma_find_text(s@, p@);
    }
    None
}

/// `s` with each occurrence of `from` replaced by `to`, scanning from the
/// left and resuming after each replaced occurrence (`str::replace` with a
/// non-empty pattern).
pub open spec fn replace_all(s: Seq<char>, from: Seq<char>, to: Seq<char>) -> Seq<char>
    decreases s.len(),
{
    if s.len() == 0 {
        Seq::empty()
    } else if from.len() > 0 && has_prefix(s, from) {
        to + replace_all(s.skip(from.len() as int), from, to)
    } else {
        seq![s[0]] + replace_all(s.skip(1), from, to)
    }
}

/// `s` with every occurrence of `from` replaced by `to`.
pub fn replace_in(s: &[char], from: &[char], to: &[char]) -> (r: Vec<char>)
    requires
        from.len() > 0,
    ensures
        r@ == replace_all(s@, from@, to@),
{
    let mut out: Vec<char> = Vec::new();
    let mut i: usize = 0;
    assert(s@.skip(0) =~= s@);
    assert(out@ + replace_all(s@.skip(0), from@, to@) =~= replace_all(s@, from@, to@));
    while i < s.len()
        invariant
            i <= s.len(),
            from.len() > 0,
            out@ + replace_all(s@.skip(i as int), from@, to@) == replace_all(s@, from@, to@),
        decreases s.len() - i,
    {
        let ghost rest = s@.skip(i as int);
        if text_matches_at(s, from, i) {
            proof {
                assert(rest.take(from@.len() as int) =~= s@.subrange(i as int, i + from@.len()));
                assert(rest.skip(from@.len() as int) =~= s@.skip(i + from@.len()));
            }
            push_all(&mut out, to);
            i = i + from.len();
            assert(out@ + replace_all(s@.skip(i as int), from@, to@) =~= replace_all(
                s@,
                from@,
                to@,
            ));
        } else {
            proof {
                if has_prefix(rest, from@) {
                    assert(rest.take(from@.len() as int) =~= s@.subrange(i as int, i + from@.len()));
                }
                assert(rest.skip(1) =~= s@.skip(i + 1));
            }
            out.push(s[i]);
            i = i + 1;
            assert(out@ + replace_all(s@.skip(i as int), from@, to@) =~= replace_all(
                s@,
                from@,
                to@,
            ));
        }
    }
    assert(s@.skip(i as int) =~= Seq::<char>::empty());
    assert(out@ =~= out@ + replace_all(s@.skip(i as int), from@, to@));
    out
}


// ---------------------------------------------------------------------
// Lines and words
// ---------------------------------------------------------------------
/// A line without the carriage return that ends it, if any.
pub open spec fn strip_cr(p: Seq<char>) -> Seq<char> {
    if p.len() > 0 && p.last() == '\r' {
        p.drop_last()
    } else {
        p
    }
}

/// `str::lines`: the pieces between line feeds, each without a carriage
/// return before its line feed; a final empty piece is not a line.
pub open spec fn text_lines(s: Seq<char>) -> Seq<Seq<char>> {
    let ps = split(s, '\n');
    let body = ps.drop_last().map_values(|p: Seq<char>| strip_cr(p));
    if ps.last().len() == 0 {
        body
    } else {
        body.push(ps.last())
    }
}

/// The lines of a text.
pub fn lines_of(s: &[char]) -> (r: Vec<Vec<char>>)
    ensures
        views(r@) == text_lines(s@),
{
    let pieces = split_on(s, '\n');
    let ghost ps = views(pieces@);
    let n = pieces.len();
    let mut r: Vec<Vec<char>> = Vec::new();
    let mut i: usize = 0;
    while i + 1 < n
        invariant
            n == pieces@.len(),
            n >= 1,
            i < n,
            ps == views(pieces@),
            views(r@) == ps.drop_last().take(i as int).map_values(|p: Seq<char>| strip_cr(p)),
        decreases n - i,
    {
        let p = &pieces[i];
        let q = if p.len() > 0 && p[p.len() - 1] == '\r' {
            slice_chars(p, 0, p.len() - 1)
        } else {
            slice_chars(p, 0, p.len())
        };
        proof {
            assert(p@ == ps[i as int]);
            assert(p@.subrange(0, p@.len() - 1) =~= p@.drop_last());
            assert(p@.subrange(0, p@.len() as int) =~= p@);
        }
        let ghost before = views(r@);
        r.push(q);
        proof {
            assert(views(r@) =~= before.push(q@));
            assert(ps.drop_last().take(i + 1).map_values(|p: Seq<char>| strip_cr(p)) =~= ps.drop_last().take(
                i as int,
            ).map_values(|p: Seq<char>| strip_cr(p)).push(strip_cr(ps[i as int])));
        }
        i = i + 1;
    }
    proof {
        assert(ps.drop_last().take(i as int) =~= ps.drop_last());
    }
    let last = &pieces[n - 1];
    if last.len() > 0 {
        let c = slice_chars(last, 0, last.len());
        let ghost before = views(r@);
        r.push(c);
        proof {
            assert(c@ =~= ps.last());
            assert(views(r@) =~= before.push(c@));
        }
    }
    r
}

/// The characters before the first white space.
pub open spec fn word_prefix(u: Seq<char>) -> Seq<char>
    decreases u.len(),
{
    if u.len() == 0 || is_space(u[0]) {
        Seq::empty()
    } else {
        seq![u[0]] + word_prefix(u.drop_first())
    }
}

/// Trimming the end of a text that goes on after a part ending in a
/// character other than white space keeps that part.
pub proof fn lemma_trim_end_keeps(a: Seq<char>, b: Seq<char>)
    requires
        a.len() > 0,
        !is_space(a.last()),
    ensures
        a.len() <= trim_end(a + b).len() <= (a + b).len(),
        trim_end(a + b) == (a + b).take(trim_end(a + b).len() as int),
    decreases b.len(),
{
    if b.len() == 0 {
        assert(a + b =~= a);
        assert(a.take(a.len() as int) =~= a);
    } else {
        let s = a + b;
        if is_space(s.last()) {
            assert(s.drop_last() =~= a + b.drop_last());
            lemma_trim_end_keeps(a, b.drop_last());
            let t = trim_end(s.drop_last());
            assert(t =~= s.take(t.len() as int));
        } else {
            assert(s.take(s.len() as int) =~= s);
        }
    }
}

/// The first word of a text that starts with characters other than white
/// space, followed by nothing or by white space, is those characters.
pub proof fn lemma_word_prefix_stop(a: Seq<char>, r: Seq<char>)
    requires
        forall|j: int| 0 <= j < a.len() ==> !is_space(#[trigger] a[j]),
        r.len() == 0 || is_space(r[0]),
    ensures
        word_prefix(a + r) == a,
    decreases a.len(),
{
    if a.len() == 0 {
        assert(a + r =~= r);
    } else {
        let t = a.drop_first();
        assert forall|j: int| 0 <= j < t.len() implies !is_space(#[trigger] t[j]) by {
            assert(t[j] == a[j + 1]);
        }
        lemma_word_prefix_stop(t, r);
        assert((a + r).drop_first() =~= t + r);
        assert(seq![a[0]] + t =~= a);
    }
}

/// `split_whitespace().next()`: the first run of characters other than
/// white space, if there is one.
pub open spec fn first_word(t: Seq<char>) -> Option<Seq<char>> {
    let u = trim_start(t);
    if u.len() == 0 {
        None
    } else {
        Some(word_prefix(u))
    }
}

/// The first word of a text.
pub fn first_word_of(t: &[char]) -> (r: Option<Vec<char>>)
    ensures
        r matches Some(w) ==> first_word(t@) == Some(w@),
        r is None ==> first_word(t@) is None,
{
    let mut i: usize = 0;
    assert(t@.skip(0) =~= t@);
    while i < t.len() && char_is_space(t[i])
        invariant
            i <= t.len(),
            trim_start(t@) == trim_start(t@.skip(i as int)),
        decreases t.len() - i,
    {
        assert(t@.skip(i as int).drop_first() =~= t@.skip(i + 1));
        i = i + 1;
    }
    let ghost u = t@.skip(i as int);
    assert(trim_start(u) == u);
    if i == t.len() {
        return None;
    }
    let start = i;
    while i < t.len() && !char_is_space(t[i])
        invariant
            start <= i <= t.len(),
            u == t@.skip(start as int),
            word_prefix(u) == t@.subrange(start as int, i as int) + word_prefix(t@.skip(i as int)),
        decreases t.len() - i,
    {
        assert(t@.skip(i as int).drop_first() =~= t@.skip(i + 1));
        assert(t@.subrange(start as int, i + 1) =~= t@.subrange(start as int, i as int).push(t@[i as int]));
        i = i + 1;
    }
    assert(word_prefix(t@.skip(i as int)) =~= Seq::<char>::empty());
    let w = slice_chars(t, start, i);
    assert(w@ =~= word_prefix(u));
    Some(w)
}


// ---------------------------------------------------------------------
// Paths
// ---------------------------------------------------------------------
/// `Path::join` on Unix paths: an absolute `rel` replaces `base`; else
/// `rel` is appended, after a `/` unless `base` is empty or already ends
/// with one.
pub open spec fn joined_path(base: Seq<char>, rel: Seq<char>) -> Seq<char> {
    if rel.len() > 0 && rel[0] == '/' {
        rel
    } else if base.len() == 0 || base.last() == '/' {
        base + rel
    } else {
        base + seq!['/'] + rel
    }
}

/// The path `rel` joined to `base`.
pub fn join_path(base: &str, rel: &str) -> (r: String)
    ensures
        r@ == joined_path(base@, rel@),
{
    let b = chars_of(base);
    let r = chars_of(rel);
    if r.len() > 0 && r[0] == '/' {
        return string_of(&r);
    }
    let mut v = b;
    if v.len() > 0 && v[v.len() - 1] != '/' {
        v.push('/');
    }
    push_all(&mut v, &r);
    string_of(&v)
}

} // verus!
