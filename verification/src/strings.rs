//! Character-level string helpers with exact specifications.

use vstd::prelude::*;
use vstd::utf8::*;

verus! {

broadcast use {
    vstd::string::group_string_axioms,
    vstd::utf8::group_utf8_lib,
    vstd::slice::group_slice_axioms,
};

/// The character `'0' + d` for a decimal digit `d`.
pub open spec fn digit_char(d: nat) -> char {
    (48 + d) as char
}

/// The decimal representation of `n`, as `Display` writes an unsigned integer.
pub open spec fn decimal(n: nat) -> Seq<char>
    decreases n,
{
    if n < 10 {
        seq![digit_char(n)]
    } else {
        decimal(n / 10).push(digit_char(n % 10))
    }
}

/// Number of bytes in the UTF-8 encoding of `s` (what `str::len` returns).
pub open spec fn utf8_len(s: Seq<char>) -> nat {
    encode_utf8(s).len()
}

/// Whether byte offset `n` of the UTF-8 encoding of `s` starts a character (or is its end).
pub open spec fn cuts_at_char(s: Seq<char>, n: int) -> bool {
    is_char_boundary(encode_utf8(s), n)
}

/// The characters encoded by the first `n` bytes of `s` (what `&s[..n]` holds).
pub open spec fn byte_prefix(s: Seq<char>, n: int) -> Seq<char> {
    decode_utf8(encode_utf8(s).subrange(0, n))
}

/// Whether `p` is a prefix of `s`.
pub open spec fn starts_with(s: Seq<char>, p: Seq<char>) -> bool {
    p.len() <= s.len() && s.subrange(0, p.len() as int) == p
}

/// Whether `needle` occurs somewhere in `s`.
pub open spec fn contains_seq(s: Seq<char>, needle: Seq<char>) -> bool {
    exists|i: int| 0 <= i <= s.len() - needle.len() && #[trigger] s.subrange(i, i + needle.len()) == needle
}

/// The Unicode `White_Space` property, which `char::is_whitespace` tests.
pub open spec fn white_space(c: char) -> bool {
    ||| '\t' <= c <= '\r'
    ||| c == ' '
    ||| c == '\u{85}'
    ||| c == '\u{a0}'
    ||| c == '\u{1680}'
    ||| '\u{2000}' <= c <= '\u{200a}'
    ||| c == '\u{2028}'
    ||| c == '\u{2029}'
    ||| c == '\u{202f}'
    ||| c == '\u{205f}'
    ||| c == '\u{3000}'
}

/// `s` without its leading white space.
pub open spec fn trim_start(s: Seq<char>) -> Seq<char>
    decreases s.len(),
{
    if s.len() > 0 && white_space(s[0]) {
        trim_start(s.drop_first())
    } else {
        s
    }
}

/// `s` without its trailing white space.
pub open spec fn trim_end(s: Seq<char>) -> Seq<char>
    decreases s.len(),
{
    if s.len() > 0 && white_space(s.last()) {
        trim_end(s.drop_last())
    } else {
        s
    }
}

/// `s` without leading and trailing white space (what `str::trim` returns).
pub open spec fn trim(s: Seq<char>) -> Seq<char> {
    trim_end(trim_start(s))
}

/// Calls `String::push`.
/// Claimed: afterwards the string holds its old characters followed by `c`, as std documents.
#[verifier::external_body]
pub(crate) fn push_char(s: &mut String, c: char)
    ensures
        final(s)@ == old(s)@.push(c),
{
    s.push(c);
}

/// The decimal representation of `n`.
pub fn decimal_string(n: u64) -> (s: String)
    ensures
        s@ == decimal(n as nat),
    decreases n,
{
    let d: u64 = n % 10;
    let c: char = ((d as u8) + 48u8) as char;
    if n < 10 {
        let mut s = String::new();
        push_char(&mut s, c);
        s
    } else {
        let mut s = decimal_string(n / 10);
        push_char(&mut s, c);
        s
    }
}

/// The characters of `s`, in order.
pub fn chars_of(s: &str) -> (v: Vec<char>)
    ensures
        v@ == s@,
{
    let mut v: Vec<char> = Vec::new();
    for c in it: s.chars()
        invariant
            v@ == it.seq().take(it.index() as int),
            it.seq() == s@,
    {
        v.push(c);
    }
    v
}

/// The string made of `v[lo..hi]`.
pub fn string_from_chars(v: &Vec<char>, lo: usize, hi: usize) -> (s: String)
    requires
        lo <= hi <= v@.len(),
    ensures
        s@ == v@.subrange(lo as int, hi as int),
{
    let mut s = String::new();
    let mut k = lo;
    while k < hi
        invariant
            lo <= k <= hi <= v@.len(),
            s@ == v@.subrange(lo as int, k as int),
        decreases hi - k,
    {
        push_char(&mut s, v[k]);
        k = k + 1;
        assert(s@ =~= v@.subrange(lo as int, k as int));
    }
    s
}

/// Whether `c` has the Unicode `White_Space` property.
pub fn is_white_space(c: char) -> (b: bool)
    ensures
        b == white_space(c),
{
    ('\t' <= c && c <= '\r') || c == ' ' || c == '\u{85}' || c == '\u{a0}' || c == '\u{1680}'
        || ('\u{2000}' <= c && c <= '\u{200a}') || c == '\u{2028}' || c == '\u{2029}' || c
        == '\u{202f}' || c == '\u{205f}' || c == '\u{3000}'
}

proof fn lemma_trim_start_step(s: Seq<char>, i: int)
    requires
        0 <= i < s.len(),
        white_space(s[i]),
    ensures
        trim_start(s.subrange(i, s.len() as int)) == trim_start(s.subrange(i + 1, s.len() as int)),
{
    assert(s.subrange(i, s.len() as int).drop_first() =~= s.subrange(i + 1, s.len() as int));
}

proof fn lemma_trim_end_step(s: Seq<char>, j: int)
    requires
        0 < j <= s.len(),
        white_space(s[j - 1]),
    ensures
        trim_end(s.subrange(0, j)) == trim_end(s.subrange(0, j - 1)),
{
    assert(s.subrange(0, j).drop_last() =~= s.subrange(0, j - 1));
}

/// `s` with leading and trailing white space removed.
pub fn trimmed(s: &str) -> (r: String)
    ensures
        r@ == trim(s@),
{
    let v = chars_of(s);
    let n = v.len();
    let mut i: usize = 0;
    assert(v@.subrange(0, n as int) =~= v@);
    while i < n && is_white_space(v[i])
        invariant
            i <= n == v@.len(),
            v@ == s@,
            trim_start(s@) == trim_start(v@.subrange(i as int, n as int)),
        decreases n - i,
    {
        proof {
            lemma_trim_start_step(v@, i as int);
        }
        i = i + 1;
    }
    let ghost rest = v@.subrange(i as int, n as int);
    assert(trim_start(s@) == rest);
    let mut j: usize = n;
    assert(rest.subrange(0, (j - i) as int) =~= rest);
    while j > i && is_white_space(v[j - 1])
        invariant
            i <= j <= n == v@.len(),
            rest == v@.subrange(i as int, n as int),
            trim_end(rest) == trim_end(rest.subrange(0, (j - i) as int)),
        decreases j,
    {
        proof {
            lemma_trim_end_step(rest, (j - i) as int);
            assert(rest[(j - i) - 1] == v@[j - 1]);
        }
        j = j - 1;
    }
    assert(rest.subrange(0, (j - i) as int) =~= v@.subrange(i as int, j as int));
    string_from_chars(&v, i, j)
}

/// Whether `p` is a prefix of `s`.
pub fn has_prefix(s: &Vec<char>, p: &Vec<char>) -> (b: bool)
    ensures
        b == starts_with(s@, p@),
{
    if p.len() > s.len() {
        return false;
    }
    let mut k: usize = 0;
    while k < p.len()
        invariant
            p@.len() <= s@.len(),
            k <= p@.len(),
            forall|m: int| 0 <= m < k ==> s@[m] == p@[m],
        decreases p.len() - k,
    {
        if s[k] != p[k] {
            assert(s@.subrange(0, p@.len() as int)[k as int] != p@[k as int]);
            return false;
        }
        k = k + 1;
    }
    assert(s@.subrange(0, p@.len() as int) =~= p@);
    true
}

/// `s` without the prefix `p`, if `s` starts with `p`.
pub fn strip_prefix(s: &str, p: &str) -> (r: Option<String>)
    ensures
        r is Some <==> starts_with(s@, p@),
        r matches Some(rest) ==> rest@ == s@.subrange(p@.len() as int, s@.len() as int),
{
    let sv = chars_of(s);
    let pv = chars_of(p);
    if has_prefix(&sv, &pv) {
        Some(string_from_chars(&sv, pv.len(), sv.len()))
    } else {
        None
    }
}

/// Whether `needle` occurs in `s` at offset `i`.
fn occurs_at(s: &Vec<char>, needle: &Vec<char>, i: usize) -> (b: bool)
    requires
        i + needle@.len() <= s@.len(),
    ensures
        b == (s@.subrange(i as int, i + needle@.len()) == needle@),
{
    let slen = s.len();
    let mut k: usize = 0;
    while k < needle.len()
        invariant
            slen == s@.len(),
            i + needle@.len() <= s@.len(),
            k <= needle@.len(),
            forall|m: int| 0 <= m < k ==> s@[i + m] == needle@[m],
        decreases needle.len() - k,
    {
        if s[i + k] != needle[k] {
            assert(s@.subrange(i as int, i + needle@.len())[k as int] != needle@[k as int]);
            return false;
        }
        k = k + 1;
    }
    assert(s@.subrange(i as int, i + needle@.len()) =~= needle@);
    true
}

/// Whether `needle` occurs in `s`.
pub fn contains_chars(s: &Vec<char>, needle: &Vec<char>) -> (b: bool)
    ensures
        b == contains_seq(s@, needle@),
{
    if needle.len() > s.len() {
        return false;
    }
    let last = s.len() - needle.len();
    let mut i: usize = last;
    loop
        invariant
            needle@.len() <= s@.len(),
            last == s@.len() - needle@.len(),
            i <= last,
            forall|m: int| i < m <= last ==> #[trigger] s@.subrange(m, m + needle@.len()) != needle@,
        decreases i,
    {
        if occurs_at(s, needle, i) {
            return true;
        }
        if i == 0 {
            return false;
        }
        i = i - 1;
    }
}

/// Number of bytes in the UTF-8 encoding of `s`.
pub fn byte_len(s: &str) -> (n: usize)
    ensures
        n == utf8_len(s@),
{
    s.as_bytes().len()
}

/// The string held by the first `n` bytes of `s`.
pub fn byte_prefix_string(s: &str, n: usize) -> (r: String)
    requires
        n <= utf8_len(s@),
        cuts_at_char(s@, n as int),
    ensures
        r@ == byte_prefix(s@, n as int),
{
    let (head, _tail) = s.split_at(n);
    head.to_owned()
}

/// The first `n` bytes of a character sequence decode to a prefix of it.
pub proof fn lemma_byte_prefix_is_prefix(s: Seq<char>, n: int)
    requires
        0 <= n <= utf8_len(s),
        cuts_at_char(s, n),
    ensures
        starts_with(s, byte_prefix(s, n)),
{
    let bytes = encode_utf8(s);
    decode_utf8_split(bytes, n);
    assert(bytes.subrange(0, bytes.len() as int) =~= bytes);
    let a = decode_utf8(bytes.subrange(0, n));
    let b = decode_utf8(bytes.subrange(n, bytes.len() as int));
    assert(s == a + b);
    assert(s.subrange(0, a.len() as int) =~= a);
}

/// The first `n` bytes of a character sequence, cut at a character, decode to exactly `n`
/// bytes' worth of characters.
pub proof fn lemma_byte_prefix_len(s: Seq<char>, n: int)
    requires
        0 <= n <= utf8_len(s),
        cuts_at_char(s, n),
    ensures
        utf8_len(byte_prefix(s, n)) == n,
{
    let bytes = encode_utf8(s);
    valid_utf8_split(bytes, n);
    decode_utf8_encode_utf8(bytes.subrange(0, n));
}

/// Number of bytes in the UTF-8 encoding of `c`.
pub open spec fn char_width(c: char) -> nat {
    encode_scalar(c as u32).len()
}

/// Number of leading characters of `s` whose UTF-8 encoding fits in `budget` bytes.
pub open spec fn chars_within(s: Seq<char>, budget: int) -> nat
    decreases s.len(),
{
    if s.len() == 0 || char_width(s[0]) > budget {
        0
    } else {
        1 + chars_within(s.drop_first(), budget - char_width(s[0]))
    }
}

/// The encoding of two sequences one after the other is as long as both encodings.
pub proof fn lemma_utf8_len_concat(a: Seq<char>, b: Seq<char>)
    ensures
        utf8_len(a + b) == utf8_len(a) + utf8_len(b),
    decreases a.len(),
{
    if a.len() > 0 {
        assert((a + b).drop_first() =~= a.drop_first() + b);
        assert((a + b)[0] == a[0]);
        lemma_utf8_len_concat(a.drop_first(), b);
    } else {
        assert(a + b =~= b);
    }
}

/// A non-empty sequence encodes to at least one byte per leading character.
pub proof fn lemma_utf8_len_first(s: Seq<char>)
    requires
        s.len() > 0,
    ensures
        utf8_len(s) == char_width(s[0]) + utf8_len(s.drop_first()),
        char_width(s[0]) >= 1,
{
}

/// Taking more characters encodes to strictly more bytes.
pub proof fn lemma_utf8_len_take_rises(s: Seq<char>, a: int, b: int)
    requires
        0 <= a < b <= s.len(),
    ensures
        utf8_len(s.take(a)) < utf8_len(s.take(b)),
{
    assert(s.take(b) =~= s.take(a) + s.subrange(a, b));
    lemma_utf8_len_concat(s.take(a), s.subrange(a, b));
    lemma_utf8_len_first(s.subrange(a, b));
}

/// The characters counted by `chars_within` fit in the budget, and one more would not.
pub proof fn lemma_chars_within(s: Seq<char>, budget: int)
    requires
        budget >= 0,
    ensures
        chars_within(s, budget) <= s.len(),
        utf8_len(s.take(chars_within(s, budget) as int)) <= budget,
        chars_within(s, budget) < s.len() ==> utf8_len(
            s.take(chars_within(s, budget) as int + 1),
        ) > budget,
    decreases s.len(),
{
    let m = chars_within(s, budget);
    if s.len() == 0 {
        assert(s.take(0) =~= Seq::<char>::empty());
    } else {
        lemma_utf8_len_first(s.take(1));
        assert(s.take(1).drop_first() =~= Seq::<char>::empty());
        if char_width(s[0]) > budget {
            assert(s.take(0) =~= Seq::<char>::empty());
        } else {
            let t = s.drop_first();
            let w = char_width(s[0]);
            lemma_chars_within(t, budget - w);
            let m1 = chars_within(t, budget - w);
            assert(s.take(m as int) =~= seq![s[0]] + t.take(m1 as int));
            lemma_utf8_len_concat(seq![s[0]], t.take(m1 as int));
            lemma_utf8_len_first(seq![s[0]]);
            assert(seq![s[0]].drop_first() =~= Seq::<char>::empty());
            if m < s.len() {
                assert(s.take(m as int + 1) =~= seq![s[0]] + t.take(m1 as int + 1));
                lemma_utf8_len_concat(seq![s[0]], t.take(m1 as int + 1));
            }
        }
    }
}

/// Where a character starts at byte `n`, the characters that fit in `n` bytes are exactly the
/// first `n` bytes.
pub proof fn lemma_chars_within_boundary(s: Seq<char>, n: int)
    requires
        0 <= n <= utf8_len(s),
        cuts_at_char(s, n),
    ensures
        s.take(chars_within(s, n) as int) == byte_prefix(s, n),
        utf8_len(s.take(chars_within(s, n) as int)) == n,
{
    let a = byte_prefix(s, n);
    lemma_byte_prefix_is_prefix(s, n);
    lemma_byte_prefix_len(s, n);
    lemma_chars_within(s, n);
    let m = chars_within(s, n) as int;
    let j = a.len() as int;
    assert(s.take(j) =~= a);
    if j > m {
        lemma_utf8_len_take_rises(s, m, j);
        if m + 1 < j {
            lemma_utf8_len_take_rises(s, m + 1, j);
        }
    } else if j < m {
        lemma_utf8_len_take_rises(s, j, m);
    }
}

/// The number of bytes in the UTF-8 encoding of `c`.
pub fn char_width_of(c: char) -> (w: usize)
    ensures
        w == char_width(c),
{
    proof {
        char_is_scalar(c);
    }
    let u = c as u32;
    if u < 0x80 {
        1
    } else if u < 0x800 {
        2
    } else if u < 0x10000 {
        3
    } else {
        4
    }
}

/// The longest prefix of `s`, in whole characters, whose encoding fits in `budget` bytes.
pub fn prefix_within(s: &str, budget: usize) -> (r: String)
    ensures
        r@ == s@.take(chars_within(s@, budget as int) as int),
{
    let v = chars_of(s);
    let n = v.len();
    let mut used: usize = 0;
    let mut m: usize = 0;
    assert(v@.skip(0) =~= v@);
    while m < n && char_width_of(v[m]) <= budget - used
        invariant
            n == v@.len(),
            v@ == s@,
            m <= n,
            used <= budget,
            chars_within(v@, budget as int) == m + chars_within(v@.skip(m as int), budget - used),
        decreases n - m,
    {
        let w = char_width_of(v[m]);
        assert(v@.skip(m as int)[0] == v@[m as int]);
        assert(v@.skip(m as int).drop_first() =~= v@.skip(m + 1));
        used = used + w;
        m = m + 1;
    }
    proof {
        if m < n {
            assert(v@.skip(m as int)[0] == v@[m as int]);
        } else {
            assert(v@.skip(m as int).len() == 0);
        }
    }
    let r = string_from_chars(&v, 0, m);
    assert(v@.subrange(0, m as int) =~= s@.take(m as int));
    r
}

/// Copies an optional string.
pub fn clone_opt(o: &Option<String>) -> (r: Option<String>)
    ensures
        r.deep_view() == o.deep_view(),
{
    match o {
        Some(s) => Some(s.clone()),
        None => None,
    }
}

/// Copies a vector of strings.
pub fn clone_strings(v: &Vec<String>) -> (r: Vec<String>)
    ensures
        r.deep_view() == v.deep_view(),
{
    let mut r: Vec<String> = Vec::new();
    let n = v.len();
    let mut i: usize = 0;
    while i < n
        invariant
            n == v@.len(),
            i <= n,
            r@.len() == i,
            forall|k: int| 0 <= k < i ==> r@[k]@ == v@[k]@,
        decreases n - i,
    {
        let c = v[i].clone();
        r.push(c);
        i = i + 1;
    }
    assert(r.deep_view() =~= v.deep_view());
    r
}

/// Whether `v` holds a string equal to `s`.
pub fn contains_string(v: &Vec<String>, s: &String) -> (b: bool)
    ensures
        b == v.deep_view().contains(s@),
{
    let n = v.len();
    let mut i: usize = 0;
    while i < n
        invariant
            n == v@.len(),
            i <= n,
            forall|m: int| 0 <= m < i ==> v.deep_view()[m] != s@,
        decreases n - i,
    {
        if v[i].eq(s) {
            assert(v.deep_view()[i as int] == s@);
            return true;
        }
        i = i + 1;
    }
    false
}

/// The string `a` followed by `b`.
pub fn concat(a: &str, b: &str) -> (r: String)
    ensures
        r@ == a@ + b@,
{
    let mut r = a.to_owned();
    r.append(b);
    r
}

/// A one-element vector holding a copy of `s`.
pub fn single_string(s: &str) -> (v: Vec<String>)
    ensures
        v.deep_view() == seq![s@],
{
    let mut v: Vec<String> = Vec::new();
    v.push(s.to_owned());
    assert(v.deep_view() =~= seq![s@]);
    v
}

/// Whether `c` occurs in `s`.
pub fn has_char(s: &str, c: char) -> (b: bool)
    ensures
        b == s@.contains(c),
{
    let v = chars_of(s);
    let n = v.len();
    let mut i: usize = 0;
    while i < n
        invariant
            n == v@.len(),
            v@ == s@,
            i <= n,
            forall|m: int| 0 <= m < i ==> v@[m] != c,
        decreases n - i,
    {
        if v[i] == c {
            assert(v@[i as int] == c);
            return true;
        }
        i = i + 1;
    }
    false
}

} // verus!
