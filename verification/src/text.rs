//! Text helpers shared by the identity, report and scan modules: decimal
//! rendering, lossy display of raw path bytes and character-level string
//! comparisons.

use vstd::prelude::*;
use vstd::utf8::*;

verus! {

/// The ASCII digit character for `d < 10`.
pub open spec fn digit_char(d: nat) -> char {
    ((48 + d) as u32) as char
}

/// Decimal representation of a natural number, most significant digit first.
pub open spec fn dec_nat(n: nat) -> Seq<char>
    decreases n,
{
    if n < 10 {
        seq![digit_char(n)]
    } else {
        dec_nat(n / 10).push(digit_char(n % 10))
    }
}

/// Decimal representation of an integer, with a leading `-` when negative.
pub open spec fn dec_int(n: int) -> Seq<char> {
    if n < 0 {
        seq!['-'] + dec_nat((-n) as nat)
    } else {
        dec_nat(n as nat)
    }
}

/// The one-character text of the digit `d < 10`.
fn digit_str(d: u64) -> (r: &'static str)
    requires
        d < 10,
    ensures
        r@ == seq![digit_char(d as nat)],
{
    proof {
        reveal_strlit("0");
        reveal_strlit("1");
        reveal_strlit("2");
        reveal_strlit("3");
        reveal_strlit("4");
        reveal_strlit("5");
        reveal_strlit("6");
        reveal_strlit("7");
        reveal_strlit("8");
        reveal_strlit("9");
    }
    if d == 0 {
        "0"
    } else if d == 1 {
        "1"
    } else if d == 2 {
        "2"
    } else if d == 3 {
        "3"
    } else if d == 4 {
        "4"
    } else if d == 5 {
        "5"
    } else if d == 6 {
        "6"
    } else if d == 7 {
        "7"
    } else if d == 8 {
        "8"
    } else {
        "9"
    }
}

/// `u64` as decimal text, as its `Display` writes it.
pub(crate) fn u64_text(n: u64) -> (r: String)
    ensures
        r@ == dec_nat(n as nat),
    decreases n,
{
    if n < 10 {
        digit_str(n).to_owned()
    } else {
        let mut text = u64_text(n / 10);
        text.append(digit_str(n % 10));
        text
    }
}

/// `i64` as decimal text, as its `Display` writes it.
pub(crate) fn i64_text(n: i64) -> (r: String)
    ensures
        r@ == dec_int(n as int),
{
    if n < 0 {
        let magnitude: u64 = (-(n as i128)) as u64;
        let mut text = "-".to_owned();
        text.append(u64_text(magnitude).as_str());
        proof {
            reveal_strlit("-");
        }
        text
    } else {
        u64_text(n as u64)
    }
}

/// `usize` as decimal text, as its `Display` writes it.
pub(crate) fn usize_text(n: usize) -> (r: String)
    ensures
        r@ == dec_nat(n as nat),
{
    u64_text(n as u64)
}

/// Name for the text that `String::from_utf8_lossy` decodes from a byte
/// sequence (invalid sequences become U+FFFD).
pub uninterp spec fn utf8_lossy(bytes: Seq<u8>) -> Seq<char>;

/// Lossy UTF-8 display of raw bytes (std `String::from_utf8_lossy`). Valid
/// UTF-8 decodes unchanged; nothing more is claimed for invalid input.
#[verifier::external_body]
pub(crate) fn lossy_text(bytes: &[u8]) -> (r: String)
    ensures
        r@ == utf8_lossy(bytes@),
        valid_utf8(bytes@) ==> r@ == decode_utf8(bytes@),
{
    String::from_utf8_lossy(bytes).into_owned()
}

/// The characters of a string slice, in order.
pub fn chars_of(s: &str) -> (r: Vec<char>)
    ensures
        r@ == s@,
{
    let n = s.unicode_len();
    let mut out: Vec<char> = Vec::new();
    let mut i: usize = 0;
    while i < n
        invariant
            n == s@.len(),
            i <= n,
            out@ == s@.subrange(0, i as int),
        decreases n - i,
    {
        out.push(s.get_char(i));
        i = i + 1;
    }
    out
}

/// Whether two string slices hold the same characters.
pub fn str_eq(a: &str, b: &str) -> (r: bool)
    ensures
        r == (a@ == b@),
{
    let x = chars_of(a);
    let y = chars_of(b);
    chars_eq(&x, &y)
}

/// Whether two character vectors are equal.
pub fn chars_eq(x: &Vec<char>, y: &Vec<char>) -> (r: bool)
    ensures
        r == (x@ == y@),
{
    if x.len() != y.len() {
        return false;
    }
    let mut i: usize = 0;
    while i < x.len()
        invariant
            x@.len() == y@.len(),
            i <= x@.len(),
            forall|j: int| 0 <= j < i ==> x@[j] == y@[j],
        decreases x.len() - i,
    {
        if x[i] != y[i] {
            return false;
        }
        i = i + 1;
    }
    assert(x@ =~= y@);
    true
}

/// `pat` occurs in `s` starting at position `i`.
pub open spec fn occurs_at(s: Seq<char>, pat: Seq<char>, i: int) -> bool {
    0 <= i && i + pat.len() <= s.len() && s.subrange(i, i + pat.len()) == pat
}

/// `pat` occurs somewhere in `s`.
pub open spec fn contains_seq(s: Seq<char>, pat: Seq<char>) -> bool {
    exists|i: int| occurs_at(s, pat, i)
}

/// Whether `pat` occurs at position `i` of `s`.
pub fn matches_at(s: &Vec<char>, pat: &Vec<char>, i: usize) -> (r: bool)
    ensures
        r == occurs_at(s@, pat@, i as int),
{
    if i > s.len() || pat.len() > s.len() - i {
        return false;
    }
    let mut j: usize = 0;
    while j < pat.len()
        invariant
            i + pat@.len() <= s@.len(),
            s@.len() == s.len(),
            j <= pat@.len(),
            forall|k: int| 0 <= k < j ==> s@[i + k] == pat@[k],
        decreases pat.len() - j,
    {
        if s[i + j] != pat[j] {
            assert(s@.subrange(i as int, i + pat@.len())[j as int] != pat@[j as int]);
            return false;
        }
        j = j + 1;
    }
    assert(s@.subrange(i as int, i + pat@.len()) =~= pat@);
    true
}

/// The first position at which `pat` occurs in `s`, if any.
pub fn find_seq(s: &Vec<char>, pat: &Vec<char>) -> (r: Option<usize>)
    ensures
        match r {
            Some(i) => occurs_at(s@, pat@, i as int) && forall|j: int|
                0 <= j < i ==> !occurs_at(s@, pat@, j),
            None => !contains_seq(s@, pat@),
        },
{
    if pat.len() == 0 {
        assert(s@.subrange(0, 0) =~= pat@);
        return Some(0);
    }
    let mut i: usize = 0;
    while i < s.len()
        invariant
            i <= s@.len(),
            pat@.len() > 0,
            forall|j: int| 0 <= j < i ==> !occurs_at(s@, pat@, j),
        decreases s.len() - i,
    {
        if matches_at(s, pat, i) {
            return Some(i);
        }
        i = i + 1;
    }
    assert forall|j: int| !occurs_at(s@, pat@, j) by {
        if 0 <= j && j < i {
        }
    }
    None
}

/// Whether `pat` occurs in `s`.
pub fn str_contains(s: &str, pat: &str) -> (r: bool)
    ensures
        r == contains_seq(s@, pat@),
{
    let x = chars_of(s);
    let y = chars_of(pat);
    find_seq(&x, &y).is_some()
}


/// Lexicographic order on character sequences by code point, as `Ord` on
/// `String` (UTF-8 byte order and code point order agree).
pub open spec fn lex_le(a: Seq<char>, b: Seq<char>) -> bool
    decreases a.len(),
{
    if a.len() == 0 {
        true
    } else if b.len() == 0 {
        false
    } else if (a[0] as u32) < (b[0] as u32) {
        true
    } else if (a[0] as u32) > (b[0] as u32) {
        false
    } else {
        lex_le(a.drop_first(), b.drop_first())
    }
}

/// Any two sequences are ordered one way or the other.
pub proof fn lemma_lex_total(a: Seq<char>, b: Seq<char>)
    ensures
        lex_le(a, b) || lex_le(b, a),
    decreases a.len(),
{
    if a.len() > 0 && b.len() > 0 && a[0] as u32 == b[0] as u32 {
        lemma_lex_total(a.drop_first(), b.drop_first());
    }
}

/// The order is transitive.
pub proof fn lemma_lex_transitive(a: Seq<char>, b: Seq<char>, c: Seq<char>)
    requires
        lex_le(a, b),
        lex_le(b, c),
    ensures
        lex_le(a, c),
    decreases a.len(),
{
    if a.len() > 0 && b.len() > 0 && c.len() > 0 && a[0] as u32 == b[0] as u32 && b[0] as u32
        == c[0] as u32 {
        lemma_lex_transitive(a.drop_first(), b.drop_first(), c.drop_first());
    }
}

/// Every sequence orders no later than itself.
pub proof fn lemma_lex_reflexive(a: Seq<char>)
    ensures
        lex_le(a, a),
    decreases a.len(),
{
    if a.len() > 0 {
        lemma_lex_reflexive(a.drop_first());
    }
}

/// Sequences ordered both ways are equal.
pub proof fn lemma_lex_antisymmetric(a: Seq<char>, b: Seq<char>)
    requires
        lex_le(a, b),
        lex_le(b, a),
    ensures
        a == b,
    decreases a.len(),
{
    if a.len() == 0 {
        assert(b.len() == 0 || !lex_le(b, a));
        assert(a =~= b);
    } else {
        assert(b.len() > 0);
        lemma_lex_antisymmetric(a.drop_first(), b.drop_first());
        assert(a[0] as u32 == b[0] as u32);
        char_u32_cast(a[0], a[0] as u32);
        char_u32_cast(b[0], b[0] as u32);
        assert(a[0] == b[0]);
        assert(a =~= seq![a[0]] + a.drop_first());
        assert(b =~= seq![b[0]] + b.drop_first());
    }
}

/// Whether `a` orders no later than `b`.
pub fn chars_lex_le(a: &Vec<char>, b: &Vec<char>) -> (r: bool)
    ensures
        r == lex_le(a@, b@),
{
    let mut i: usize = 0;
    proof {
        assert(a@.skip(0) =~= a@);
        assert(b@.skip(0) =~= b@);
    }
    while i < a.len()
        invariant
            i <= a@.len(),
            i <= b@.len(),
            lex_le(a@, b@) == lex_le(a@.skip(i as int), b@.skip(i as int)),
        decreases a.len() - i,
    {
        proof {
            assert(a@.skip(i as int).drop_first() =~= a@.skip(i + 1));
        }
        if i == b.len() {
            return false;
        }
        proof {
            assert(b@.skip(i as int).drop_first() =~= b@.skip(i + 1));
        }
        let x = a[i] as u32;
        let y = b[i] as u32;
        if x < y {
            return true;
        }
        if x > y {
            return false;
        }
        i = i + 1;
    }
    true
}

/// Whether string `a` orders no later than string `b`.
pub fn string_le(a: &String, b: &String) -> (r: bool)
    ensures
        r == lex_le(a@, b@),
{
    let x = chars_of(a.as_str());
    let y = chars_of(b.as_str());
    chars_lex_le(&x, &y)
}


/// Unicode `White_Space`, the set `char::is_whitespace` tests.
pub open spec fn is_unicode_whitespace(c: char) -> bool {
    let u = c as u32;
    ||| 0x09 <= u <= 0x0d
    ||| u == 0x20
    ||| u == 0x85
    ||| u == 0xa0
    ||| u == 0x1680
    ||| 0x2000 <= u <= 0x200a
    ||| u == 0x2028
    ||| u == 0x2029
    ||| u == 0x202f
    ||| u == 0x205f
    ||| u == 0x3000
}

pub fn is_whitespace_char(c: char) -> (r: bool)
    ensures
        r == is_unicode_whitespace(c),
{
    let u = c as u32;
    (0x09 <= u && u <= 0x0d) || u == 0x20 || u == 0x85 || u == 0xa0 || u == 0x1680 || (0x2000 <= u
        && u <= 0x200a) || u == 0x2028 || u == 0x2029 || u == 0x202f || u == 0x205f || u == 0x3000
}

/// Index of the first non-whitespace character (the length if none).
pub open spec fn trim_start_index(s: Seq<char>) -> int
    decreases s.len(),
{
    if s.len() == 0 || !is_unicode_whitespace(s[0]) {
        0
    } else {
        1 + trim_start_index(s.drop_first())
    }
}

/// Index just past the last non-whitespace character (0 if none).
pub open spec fn trim_end_index(s: Seq<char>) -> int
    decreases s.len(),
{
    if s.len() == 0 || !is_unicode_whitespace(s.last()) {
        s.len() as int
    } else {
        trim_end_index(s.drop_last())
    }
}

/// `str::trim`: leading and trailing whitespace removed.
pub open spec fn spec_trim(s: Seq<char>) -> Seq<char> {
    let a = trim_start_index(s);
    let b = trim_end_index(s);
    if a >= b { Seq::empty() } else { s.subrange(a, b) }
}

proof fn lemma_trim_start_bounds(s: Seq<char>)
    ensures
        0 <= trim_start_index(s) <= s.len(),
        forall|i: int| 0 <= i < trim_start_index(s) ==> is_unicode_whitespace(#[trigger] s[i]),
        trim_start_index(s) < s.len() ==> !is_unicode_whitespace(s[trim_start_index(s)]),
    decreases s.len(),
{
    if s.len() > 0 && is_unicode_whitespace(s[0]) {
        lemma_trim_start_bounds(s.drop_first());
        assert forall|i: int| 0 <= i < trim_start_index(s) implies is_unicode_whitespace(#[trigger] s[i]) by {
            if i > 0 {
                assert(s[i] == s.drop_first()[i - 1]);
            }
        }
    }
}

proof fn lemma_trim_end_bounds(s: Seq<char>)
    ensures
        0 <= trim_end_index(s) <= s.len(),
        forall|i: int| trim_end_index(s) <= i < s.len() ==> is_unicode_whitespace(#[trigger] s[i]),
        trim_end_index(s) > 0 ==> !is_unicode_whitespace(s[trim_end_index(s) - 1]),
    decreases s.len(),
{
    if s.len() > 0 && is_unicode_whitespace(s.last()) {
        lemma_trim_end_bounds(s.drop_last());
        assert forall|i: int| trim_end_index(s) <= i < s.len() implies is_unicode_whitespace(#[trigger] s[i]) by {
            if i < s.len() - 1 {
                assert(s[i] == s.drop_last()[i]);
            }
        }
    }
}

proof fn lemma_trim_start_is_first(s: Seq<char>, k: int)
    requires
        0 <= k <= s.len(),
        forall|i: int| 0 <= i < k ==> is_unicode_whitespace(#[trigger] s[i]),
        k < s.len() ==> !is_unicode_whitespace(s[k]),
    ensures
        trim_start_index(s) == k,
    decreases s.len(),
{
    if s.len() > 0 && k > 0 {
        assert(is_unicode_whitespace(s[0]));
        assert forall|i: int| 0 <= i < k - 1 implies is_unicode_whitespace(#[trigger] s.drop_first()[i]) by {
            assert(s.drop_first()[i] == s[i + 1]);
        }
        if k - 1 < s.len() - 1 {
            assert(s.drop_first()[k - 1] == s[k]);
        }
        lemma_trim_start_is_first(s.drop_first(), k - 1);
    }
}

proof fn lemma_trim_end_is_last(s: Seq<char>, k: int)
    requires
        0 <= k <= s.len(),
        forall|i: int| k <= i < s.len() ==> is_unicode_whitespace(#[trigger] s[i]),
        k > 0 ==> !is_unicode_whitespace(s[k - 1]),
    ensures
        trim_end_index(s) == k,
    decreases s.len(),
{
    if s.len() > 0 && k < s.len() {
        assert(is_unicode_whitespace(s.last()));
        assert forall|i: int| k <= i < s.len() - 1 implies is_unicode_whitespace(#[trigger] s.drop_last()[i]) by {
            assert(s.drop_last()[i] == s[i]);
        }
        if k > 0 {
            assert(s.drop_last()[k - 1] == s[k - 1]);
        }
        lemma_trim_end_is_last(s.drop_last(), k);
    }
}

/// `str::trim` as an owned string.
pub fn trim_text(s: &str) -> (r: String)
    ensures
        r@ == spec_trim(s@),
{
    let cs = chars_of(s);
    let n = cs.len();
    let mut a: usize = 0;
    while a < n && is_whitespace_char(cs[a])
        invariant
            n == cs@.len(),
            a <= n,
            forall|i: int| 0 <= i < a ==> is_unicode_whitespace(#[trigger] cs@[i]),
        decreases n - a,
    {
        a = a + 1;
    }
    let mut b: usize = n;
    while b > a && is_whitespace_char(cs[b - 1])
        invariant
            n == cs@.len(),
            a <= b <= n,
            forall|i: int| b <= i < n ==> is_unicode_whitespace(#[trigger] cs@[i]),
        decreases b - a,
    {
        b = b - 1;
    }
    proof {
        lemma_trim_start_is_first(s@, a as int);
        lemma_trim_end_bounds(s@);
        if b > a {
            lemma_trim_end_is_last(s@, b as int);
        } else {
            // everything from `a` on is whitespace, so the end index is at most `a`
            lemma_trim_end_bounds(s@);
            if trim_end_index(s@) > a {
                let e = trim_end_index(s@);
                assert(!is_unicode_whitespace(s@[e - 1]));
                assert(is_unicode_whitespace(s@[e - 1]));
            }
        }
    }
    if a >= b {
        return String::new();
    }
    s.substring_char(a, b).to_owned()
}

/// `str::trim_start`: leading whitespace removed.
pub open spec fn spec_trim_start(s: Seq<char>) -> Seq<char> {
    s.subrange(trim_start_index(s), s.len() as int)
}

pub fn trim_start_str(s: &str) -> (r: &str)
    ensures
        r@ == spec_trim_start(s@),
        0 <= trim_start_index(s@) <= s@.len(),
{
    let cs = chars_of(s);
    let n = cs.len();
    let mut a: usize = 0;
    while a < n && is_whitespace_char(cs[a])
        invariant
            n == cs@.len(),
            cs@ == s@,
            a <= n,
            forall|i: int| 0 <= i < a ==> is_unicode_whitespace(#[trigger] cs@[i]),
        decreases n - a,
    {
        a = a + 1;
    }
    proof {
        lemma_trim_start_is_first(s@, a as int);
    }
    s.substring_char(a, n)
}

} // verus!
