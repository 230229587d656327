//! Character-level helpers on which the rest of the library is built.
use vstd::prelude::*;

verus! {

/// The characters of `s`, in order.
pub fn chars_of(s: &str) -> (r: Vec<char>)
    ensures
        r@ == s@,
{
    let mut r: Vec<char> = Vec::new();
    for c in it: s.chars()
        invariant
            r@ == it.seq().take(it.index() as int),
            it.seq() == s@,
    {
        r.push(c);
    }
    r
}

/// Builds a `String` holding exactly the given characters
/// (`String`'s `FromIterator<&char>`, which appends each character in turn).
#[verifier::external_body]
pub(crate) fn string_from_chars(v: &Vec<char>) -> (r: String)
    ensures
        r@ == v@,
{
    v.iter().collect()
}


/// Unicode `White_Space`: the characters that `char::is_whitespace` accepts.
pub open spec fn is_white_space(c: char) -> bool {
    ||| c == ' '
    ||| ('\u{9}' <= c && c <= '\u{d}')
    ||| c == '\u{85}'
    ||| c == '\u{a0}'
    ||| c == '\u{1680}'
    ||| ('\u{2000}' <= c && c <= '\u{200a}')
    ||| c == '\u{2028}'
    ||| c == '\u{2029}'
    ||| c == '\u{202f}'
    ||| c == '\u{205f}'
    ||| c == '\u{3000}'
}

/// `s` without its leading white space.
pub open spec fn trim_start(s: Seq<char>) -> Seq<char>
    decreases s.len(),
{
    if s.len() > 0 && is_white_space(s[0]) {
        trim_start(s.drop_first())
    } else {
        s
    }
}

/// `s` without its trailing white space.
pub open spec fn trim_end(s: Seq<char>) -> Seq<char>
    decreases s.len(),
{
    if s.len() > 0 && is_white_space(s.last()) {
        trim_end(s.drop_last())
    } else {
        s
    }
}

/// `s` without white space at either end.
pub open spec fn trim(s: Seq<char>) -> Seq<char> {
    trim_end(trim_start(s))
}

/// Decides `is_white_space`.
pub fn white_space(c: char) -> (r: bool)
    ensures
        r == is_white_space(c),
{
    c == ' ' || ('\u{9}' <= c && c <= '\u{d}') || c == '\u{85}' || c == '\u{a0}' || c == '\u{1680}'
        || ('\u{2000}' <= c && c <= '\u{200a}') || c == '\u{2028}' || c == '\u{2029}'
        || c == '\u{202f}' || c == '\u{205f}' || c == '\u{3000}'
}

/// The characters of `v` without white space at either end.
pub fn trim_chars(v: &Vec<char>) -> (r: Vec<char>)
    ensures
        r@ == trim(v@),
{
    let n = v.len();
    let mut i: usize = 0;
    assert(v@.subrange(0, n as int) =~= v@);
    while i < n && white_space(v[i])
        invariant
            n == v@.len(),
            i <= n,
            trim_start(v@) == trim_start(v@.subrange(i as int, n as int)),
        decreases n - i,
    {
        assert(v@.subrange(i as int, n as int).drop_first() =~= v@.subrange(i + 1, n as int));
        i = i + 1;
    }
    assert(trim_start(v@.subrange(i as int, n as int)) == v@.subrange(i as int, n as int));
    let mut j: usize = n;
    while j > i && white_space(v[j - 1])
        invariant
            n == v@.len(),
            i <= j <= n,
            trim_end(v@.subrange(i as int, n as int)) == trim_end(v@.subrange(i as int, j as int)),
        decreases j,
    {
        assert(v@.subrange(i as int, j as int).drop_last() =~= v@.subrange(i as int, j - 1));
        j = j - 1;
    }
    assert(trim_end(v@.subrange(i as int, j as int)) == v@.subrange(i as int, j as int));
    let mut r: Vec<char> = Vec::new();
    let mut k: usize = i;
    while k < j
        invariant
            n == v@.len(),
            i <= k <= j <= n,
            r@ == v@.subrange(i as int, k as int),
        decreases j - k,
    {
        r.push(v[k]);
        k = k + 1;
    }
    r
}

/// The decimal digit for `d < 10`.
pub open spec fn digit_char(d: nat) -> char {
    if d == 0 { '0' } else if d == 1 { '1' } else if d == 2 { '2' } else if d == 3 { '3' }
    else if d == 4 { '4' } else if d == 5 { '5' } else if d == 6 { '6' } else if d == 7 { '7' }
    else if d == 8 { '8' } else { '9' }
}

/// The decimal representation of `n`, without sign or leading zeros.
pub open spec fn decimal(n: nat) -> Seq<char>
    decreases n,
{
    if n < 10 {
        seq![digit_char(n)]
    } else {
        decimal(n / 10).push(digit_char(n % 10))
    }
}

fn digit_to_char(d: usize) -> (r: char)
    requires
        d < 10,
    ensures
        r == digit_char(d as nat),
{
    if d == 0 { '0' } else if d == 1 { '1' } else if d == 2 { '2' } else if d == 3 { '3' }
    else if d == 4 { '4' } else if d == 5 { '5' } else if d == 6 { '6' } else if d == 7 { '7' }
    else if d == 8 { '8' } else { '9' }
}

/// The decimal representation of `n`.
pub fn decimal_chars(n: usize) -> (r: Vec<char>)
    ensures
        r@ == decimal(n as nat),
{
    let mut v: Vec<char> = Vec::new();
    let mut m: usize = n;
    loop
        invariant
            decimal(n as nat) == decimal(m as nat) + v@,
        decreases m,
    {
        let c = digit_to_char(m % 10);
        v.insert(0, c);
        if m < 10 {
            assert(v@ =~= seq![digit_char(m as nat)] + (v@.drop_first()));
            return v;
        }
        assert(decimal(m as nat) == decimal((m / 10) as nat).push(digit_char((m % 10) as nat)));
        assert(decimal(m as nat) + v@.drop_first() =~= decimal((m / 10) as nat) + v@);
        m = m / 10;
    }
}


/// The pieces of `s` between its `|` characters, in order: one more piece
/// than there are `|` characters, empty pieces included.
pub open spec fn split_terms(s: Seq<char>) -> Seq<Seq<char>>
    decreases s.len(),
{
    if s.len() == 0 {
        seq![Seq::<char>::empty()]
    } else if s.last() == '|' {
        split_terms(s.drop_last()).push(Seq::<char>::empty())
    } else {
        let r = split_terms(s.drop_last());
        r.update(r.len() - 1, r.last().push(s.last()))
    }
}

/// There is always at least one piece.
pub proof fn lemma_split_terms_nonempty(s: Seq<char>)
    ensures
        split_terms(s).len() >= 1,
    decreases s.len(),
{
    if s.len() > 0 {
        lemma_split_terms_nonempty(s.drop_last());
    }
}

/// Splits `v` at each `|`, as `str::split('|')` does.
pub fn split_on_bar(v: &Vec<char>) -> (r: Vec<String>)
    ensures
        r.deep_view() == split_terms(v@),
{
    let n = v.len();
    let mut pieces: Vec<String> = Vec::new();
    let mut cur: Vec<char> = Vec::new();
    let mut i: usize = 0;
    while i < n
        invariant
            n == v@.len(),
            i <= n,
            pieces.deep_view().push(cur@) == split_terms(v@.take(i as int)),
        decreases n - i,
    {
        let c = v[i];
        proof {
            assert(v@.take(i + 1).drop_last() =~= v@.take(i as int));
            lemma_split_terms_nonempty(v@.take(i as int));
        }
        if c == '|' {
            let piece = string_from_chars(&cur);
            pieces.push(piece);
            cur = Vec::new();
            assert(pieces.deep_view().push(cur@) =~= split_terms(v@.take(i + 1)));
        } else {
            let ghost before = pieces.deep_view().push(cur@);
            cur.push(c);
            assert(pieces.deep_view().push(cur@) =~= before.update(before.len() - 1, before.last().push(c)));
        }
        i = i + 1;
    }
    let last = string_from_chars(&cur);
    pieces.push(last);
    assert(v@.take(n as int) =~= v@);
    assert(pieces.deep_view() =~= split_terms(v@));
    pieces
}

/// Whether `c` is one of `0` to `9`.
pub open spec fn is_digit(c: char) -> bool {
    '0' <= c && c <= '9'
}

/// The value of a decimal digit character.
pub open spec fn digit_value(c: char) -> nat {
    (c as nat - '0' as nat) as nat
}

/// Every character of `s` is a decimal digit.
pub open spec fn all_digits(s: Seq<char>) -> bool {
    forall|i: int| 0 <= i < s.len() ==> is_digit(#[trigger] s[i])
}

/// The number that the decimal digits `s` denote (leading zeros allowed).
pub open spec fn digits_value(s: Seq<char>) -> nat
    decreases s.len(),
{
    if s.len() == 0 {
        0
    } else {
        digits_value(s.drop_last()) * 10 + digit_value(s.last())
    }
}

/// What `u16::from_str` accepts: an optional `+`, then one or more decimal
/// digits whose value fits in 16 bits.
pub open spec fn parse_u16_spec(s: Seq<char>) -> Option<u16> {
    let d = if s.len() > 0 && s[0] == '+' { s.drop_first() } else { s };
    if d.len() > 0 && all_digits(d) && digits_value(d) <= u16::MAX {
        Some(digits_value(d) as u16)
    } else {
        None
    }
}

proof fn lemma_digits_value_prefix(s: Seq<char>, j: int)
    requires
        all_digits(s),
        0 <= j <= s.len(),
    ensures
        digits_value(s.take(j)) <= digits_value(s),
    decreases s.len(),
{
    if j < s.len() {
        assert(s.take(j) =~= s.drop_last().take(j));
        lemma_digits_value_prefix(s.drop_last(), j);
    } else {
        assert(s.take(j) =~= s);
    }
}

/// Reads an unsigned 16-bit number the way `u16::from_str` does.
pub fn parse_u16(v: &Vec<char>) -> (r: Option<u16>)
    ensures
        r == parse_u16_spec(v@),
{
    let n = v.len();
    let start: usize = if n > 0 && v[0] == '+' { 1 } else { 0 };
    let ghost d = if v@.len() > 0 && v@[0] == '+' { v@.drop_first() } else { v@ };
    assert(d =~= v@.subrange(start as int, n as int));
    if start == n {
        return None;
    }
    let mut acc: u32 = 0;
    let mut i: usize = start;
    while i < n
        invariant
            n == v@.len(),
            start <= i <= n,
            start < n,
            d == (if v@.len() > 0 && v@[0] == '+' { v@.drop_first() } else { v@ }),
            d =~= v@.subrange(start as int, n as int),
            all_digits(d.take(i - start)),
            acc == digits_value(d.take(i - start)),
            acc <= u16::MAX,
        decreases n - i,
    {
        let c = v[i];
        if !('0' <= c && c <= '9') {
            assert(d[i - start] == c);
            return None;
        }
        assert(d.take(i + 1 - start).drop_last() =~= d.take(i - start));
        acc = acc * 10 + (c as u32 - '0' as u32);
        i = i + 1;
        assert(all_digits(d.take(i - start)));
        if acc > 65535 {
            proof {
                if all_digits(d) {
                    lemma_digits_value_prefix(d, i - start);
                }
            }
            return None;
        }
    }
    assert(d.take(n - start) =~= d);
    Some(acc as u16)
}


/// `c` with an ASCII upper-case letter replaced by its lower-case form; every
/// other character is left as it is.
pub open spec fn fold_ascii(c: char) -> char {
    if 'A' <= c && c <= 'Z' {
        ((c as int) + 32) as char
    } else {
        c
    }
}

/// Two characters agree: equal, or equal once ASCII letters are folded.
pub open spec fn chars_agree(a: char, b: char, ignore_ascii_case: bool) -> bool {
    if ignore_ascii_case {
        fold_ascii(a) == fold_ascii(b)
    } else {
        a == b
    }
}

/// `needle` stands in `haystack` starting at position `k`.
pub open spec fn occurs_at(needle: Seq<char>, haystack: Seq<char>, k: int, ignore_ascii_case: bool) -> bool {
    &&& 0 <= k
    &&& k + needle.len() <= haystack.len()
    &&& forall|j: int|
        0 <= j < needle.len() ==> chars_agree(haystack[k + j], #[trigger] needle[j], ignore_ascii_case)
}

/// `needle` is a contiguous part of `haystack` (the empty needle always is).
pub open spec fn occurs(needle: Seq<char>, haystack: Seq<char>, ignore_ascii_case: bool) -> bool {
    exists|k: int| occurs_at(needle, haystack, k, ignore_ascii_case)
}

/// At least one of `needles` occurs in `haystack`.
pub open spec fn any_occurs(needles: Seq<Seq<char>>, haystack: Seq<char>, ignore_ascii_case: bool) -> bool {
    exists|i: int| 0 <= i < needles.len() && #[trigger] occurs(needles[i], haystack, ignore_ascii_case)
}

/// Every one of `needles` occurs in `haystack`.
pub open spec fn all_occur(needles: Seq<Seq<char>>, haystack: Seq<char>, ignore_ascii_case: bool) -> bool {
    forall|i: int| 0 <= i < needles.len() ==> #[trigger] occurs(needles[i], haystack, ignore_ascii_case)
}

/// `str::contains` with a string pattern: whether `needle` is a contiguous
/// part of `haystack`. The search runs over UTF-8 bytes; since both sides are
/// valid UTF-8, a byte match is a character match.
#[verifier::external_body]
pub(crate) fn str_contains(haystack: &str, needle: &str) -> (r: bool)
    ensures
        r == occurs(needle@, haystack@, false),
{
    haystack.contains(needle)
}

/// The result of `str::to_lowercase`: each character replaced by its Unicode
/// lower-case mapping (which may be several characters long).
pub uninterp spec fn unicode_lowercase(s: Seq<char>) -> Seq<char>;

/// Every character is ASCII.
pub open spec fn all_ascii(s: Seq<char>) -> bool {
    forall|i: int| 0 <= i < s.len() ==> (#[trigger] s[i] as u32) < 128
}

/// `str::to_lowercase`. Its result is a function of the text alone; what that
/// function is (Unicode's case tables) is named, not stated, except on ASCII
/// text, where each upper-case letter becomes its lower-case letter and every
/// other character stays.
#[verifier::external_body]
pub(crate) fn str_to_lowercase(s: &str) -> (r: String)
    ensures
        r@ == unicode_lowercase(s@),
        all_ascii(s@) ==> r@ == s@.map_values(|c: char| fold_ascii(c)),
{
    s.to_lowercase()
}

} // verus!
