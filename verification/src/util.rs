//! Runtime configuration, timestamps in nanoseconds and human-readable sizes.

use vstd::prelude::*;
use crate::text::{dec_nat, u64_text};

verus! {

/// Runtime configuration. An explicit database path wins over the
/// environment, which wins over the platform's data directory.
#[derive(Debug, Clone)]
pub struct Config {
    pub database_path: Vec<u8>,
    pub sample_bytes: usize,
    pub read_buffer_bytes: usize,
    /// Scanned files committed to the index per transaction.
    pub batch_size: usize,
    /// Page size of every large query.
    pub query_page_size: usize,
}

impl Config {
    /// `database_override` comes from the command line, `env_value` from the
    /// `DISK_INDEXER_DB` variable, `default_path` from the data directory.
    pub fn new(database_override: Option<Vec<u8>>, env_value: Option<Vec<u8>>, default_path: Vec<u8>) -> (r:
        Config)
        ensures
            r.database_path@ == match database_override {
                Some(p) => p@,
                None => match env_value {
                    Some(p) => p@,
                    None => default_path@,
                },
            },
            r.sample_bytes == 256 * 1024,
            r.read_buffer_bytes == 1024 * 1024,
            r.batch_size == 500,
            r.query_page_size == 1000,
    {
        let database_path = match database_override {
            Some(p) => p,
            None => match env_value {
                Some(p) => p,
                None => default_path,
            },
        };
        Config {
            database_path,
            sample_bytes: 256 * 1024,
            read_buffer_bytes: 1024 * 1024,
            batch_size: 500,
            query_page_size: 1000,
        }
    }
}

/// Name for the instant that `chrono::DateTime::parse_from_rfc3339` reads
/// from a text, as whole seconds since the Unix epoch and the nanoseconds
/// past that second; `None` when the parser refuses the text.
pub uninterp spec fn rfc3339_instant(text: Seq<char>) -> Option<(i64, u32)>;

/// `chrono::DateTime::parse_from_rfc3339`, its result read as the instant's
/// `timestamp()` and `timestamp_subsec_nanos()` (the offset is folded in,
/// as for the UTC time). Which texts are accepted and what instant they
/// name is left to the name above.
#[verifier::external_body]
fn parse_rfc3339(value: &str) -> (r: Option<(i64, u32)>)
    ensures
        r == rfc3339_instant(value@),
{
    match chrono::DateTime::parse_from_rfc3339(value) {
        Ok(time) => Some((time.timestamp(), time.timestamp_subsec_nanos())),
        Err(_) => None,
    }
}

/// A stored RFC 3339 timestamp read back as an instant (seconds since the
/// Unix epoch and nanoseconds past that second), or `None` when the text is
/// not a valid timestamp.
pub fn parse_time(value: &str) -> (r: Option<(i64, u32)>)
    ensures
        r == rfc3339_instant(value@),
{
    parse_rfc3339(value)
}

/// Nanoseconds since the Unix epoch as stored in the index: absent when
/// unknown or beyond `i64`.
pub fn to_ns(nanos: Option<u128>) -> (r: Option<i64>)
    ensures
        r == match nanos {
            Some(n) => if n <= i64::MAX as u128 {
                Some(n as i64)
            } else {
                None
            },
            None => None,
        },
{
    match nanos {
        Some(n) => if n <= i64::MAX as u128 {
            Some(n as i64)
        } else {
            None
        },
        None => None,
    }
}

/// `2^e`.
pub open spec fn two_pow(e: nat) -> nat
    decreases e,
{
    if e == 0 {
        1
    } else {
        2 * two_pow((e - 1) as nat)
    }
}

/// Largest integer with a 53-bit significand, plus one.
pub open spec fn sig_limit() -> nat {
    9007199254740992
}

/// How many low bits a binary64 value drops from `n`.
pub open spec fn dropped_bits(n: nat) -> nat
    decreases n,
{
    if n < sig_limit() {
        0
    } else {
        1 + dropped_bits(n / 2)
    }
}

/// The 53-bit significand kept from `n`, before rounding.
pub open spec fn kept_bits(n: nat) -> nat
    decreases n,
{
    if n < sig_limit() {
        n
    } else {
        kept_bits(n / 2)
    }
}

/// The value of `n` converted to binary64: exact below `2^53`, otherwise
/// rounded to the nearest representable value, ties to an even significand.
pub open spec fn binary64_value(n: nat) -> nat {
    let e = dropped_bits(n);
    let q = kept_bits(n);
    let unit = two_pow(e);
    let rem = n - q * unit;
    if e == 0 {
        n
    } else if rem > unit / 2 || (rem == unit / 2 && q % 2 == 1) {
        (q + 1) * unit
    } else {
        q * unit
    }
}

/// The binary unit a value is shown in: the largest of B, KiB, MiB, GiB and
/// TiB that it reaches.
pub open spec fn unit_index(v: nat) -> nat {
    if v >= 1099511627776 {
        4
    } else if v >= 1073741824 {
        3
    } else if v >= 1048576 {
        2
    } else if v >= 1024 {
        1
    } else {
        0
    }
}

pub open spec fn unit_size(u: nat) -> nat {
    if u == 4 {
        1099511627776
    } else if u == 3 {
        1073741824
    } else if u == 2 {
        1048576
    } else if u == 1 {
        1024
    } else {
        1
    }
}

pub open spec fn unit_name(u: nat) -> Seq<char> {
    if u == 4 {
        "TiB"@
    } else if u == 3 {
        "GiB"@
    } else if u == 2 {
        "MiB"@
    } else if u == 1 {
        "KiB"@
    } else {
        "B"@
    }
}

/// `num / den` rounded to the nearest integer, ties to even.
pub open spec fn div_round_even(num: nat, den: nat) -> nat {
    let q = num / den;
    let r = num % den;
    if 2 * r > den || (2 * r == den && q % 2 == 1) {
        q + 1
    } else {
        q
    }
}

/// A byte count for people: plain bytes below 1 KiB, otherwise the value in
/// the largest binary unit reached, with one decimal rounded half to even.
pub open spec fn size_text(size: u64) -> Seq<char> {
    if size < 1024 {
        dec_nat(size as nat) + " B"@
    } else {
        let v = binary64_value(size as nat);
        let u = unit_index(v);
        let t = div_round_even(10 * v, unit_size(u));
        dec_nat(t / 10) + "."@ + dec_nat(t % 10) + " "@ + unit_name(u)
    }
}

proof fn lemma_kept_bounds(n: nat)
    ensures
        kept_bits(n) * two_pow(dropped_bits(n)) <= n < (kept_bits(n) + 1) * two_pow(dropped_bits(n)),
        kept_bits(n) < sig_limit(),
        n >= sig_limit() ==> kept_bits(n) >= sig_limit() / 2,
    decreases n,
{
    if n >= sig_limit() {
        let m = n / 2;
        lemma_kept_bounds(m);
        let q = kept_bits(m);
        let p = two_pow(dropped_bits(m));
        assert(two_pow(dropped_bits(n)) == 2 * p);
        assert(q * p <= m < (q + 1) * p);
        assert(q * (2 * p) <= n < (q + 1) * (2 * p)) by (nonlinear_arith)
            requires
                q * p <= m,
                m < (q + 1) * p,
                m == n / 2,
        ;
        if m < sig_limit() {
            assert(q == m);
        }
    } else {
        assert(dropped_bits(n) == 0);
        assert(two_pow(0) == 1);
        assert(n * 1 == n);
        assert((n + 1) * 1 == n + 1);
    }
}

fn binary64_of(n: u64) -> (r: u128)
    ensures
        r == binary64_value(n as nat),
        r <= 36893488147419103232,
{
    let ghost g = n as nat;
    let mut v: u128 = n as u128;
    let mut p: u128 = 1;
    let ghost mut e: nat = 0;
    while v >= 9007199254740992
        invariant
            kept_bits(v as nat) == kept_bits(g),
            dropped_bits(g) == e + dropped_bits(v as nat),
            p == two_pow(e),
            v * p <= g < (v + 1) * p,
            g < 18446744073709551616,
            1 <= p,
            v <= g,
        decreases v,
    {
        let ghost v0 = v;
        let ghost p0 = p;
        assert((v0 / 2) * (2 * p0) <= g < (v0 / 2 + 1) * (2 * p0)) by (nonlinear_arith)
            requires
                v0 * p0 <= g,
                g < (v0 + 1) * p0,
                p0 >= 1,
        ;
        assert(p0 <= g) by (nonlinear_arith)
            requires
                v0 * p0 <= g,
                v0 >= 1,
                p0 >= 1,
        ;
        v = v / 2;
        p = p * 2;
        proof {
            e = e + 1;
            assert(two_pow(e) == 2 * two_pow((e - 1) as nat));
        }
    }
    proof {
        lemma_kept_bounds(g);
        assert(kept_bits(v as nat) == v as nat);
        assert(dropped_bits(v as nat) == 0);
    }
    if p == 1 {
        proof {
            if e > 0 {
                assert(two_pow(e) == 2 * two_pow((e - 1) as nat));
                lemma_two_pow_positive((e - 1) as nat);
            }
        }
        return v;
    }
    proof {
        if e == 0 {
            assert(p == 1);
        }
        assert(e > 0);
        assert(two_pow(e) == 2 * two_pow((e - 1) as nat));
        assert(g >= sig_limit());
        assert(v >= 4503599627370496);
        assert(p < 4096) by (nonlinear_arith)
            requires
                v * p <= g,
                g < 18446744073709551616,
                v >= 4503599627370496,
        ;
    }
    let prod: u128 = v * p;
    let rem: u128 = n as u128 - prod;
    let half: u128 = p / 2;
    if rem > half || (rem == half && v % 2 == 1) {
        let up: u128 = v + 1;
        assert(up * p <= 36893488147419103232) by (nonlinear_arith)
            requires
                up <= 9007199254740992,
                p < 4096,
        ;
        up * p
    } else {
        prod
    }
}

proof fn lemma_two_pow_positive(e: nat)
    ensures
        two_pow(e) >= 1,
    decreases e,
{
    if e > 0 {
        lemma_two_pow_positive((e - 1) as nat);
    }
}

/// A byte count for people, as `1.5 MiB` or `512 B`.
pub fn human_size(size: u64) -> (r: String)
    ensures
        r@ == size_text(size),
{
    if size < 1024 {
        let mut text = u64_text(size);
        text.append(" B");
        return text;
    }
    let v = binary64_of(size);
    proof {
        assert(size as nat >= 1024);
        assert(binary64_value(size as nat) >= 1024) by {
            lemma_binary64_at_least(size as nat);
        }
    }
    let (den, name): (u128, &str) = if v >= 1099511627776 {
        (1099511627776, "TiB")
    } else if v >= 1073741824 {
        (1073741824, "GiB")
    } else if v >= 1048576 {
        (1048576, "MiB")
    } else {
        (1024, "KiB")
    };
    let num: u128 = 10 * v;
    let q: u128 = num / den;
    let rem: u128 = num % den;
    let t: u128 = if 2 * rem > den || (2 * rem == den && q % 2 == 1) {
        q + 1
    } else {
        q
    };
    assert(q <= num / 1024) by (nonlinear_arith)
        requires
            den >= 1024,
            q == num / den,
    ;
    let whole: u128 = t / 10;
    let tenth: u128 = t % 10;
    let mut text = u64_text(whole as u64);
    text.append(".");
    text.append(u64_text(tenth as u64).as_str());
    text.append(" ");
    text.append(name);
    text
}

proof fn lemma_binary64_at_least(n: nat)
    requires
        n >= 1024,
    ensures
        binary64_value(n) >= 1024,
{
    if n >= sig_limit() {
        lemma_kept_bounds(n);
        lemma_two_pow_positive(dropped_bits(n));
        let q = kept_bits(n);
        let unit = two_pow(dropped_bits(n));
        assert(q * unit >= q) by (nonlinear_arith)
            requires
                unit >= 1,
        ;
        assert((q + 1) * unit >= q) by (nonlinear_arith)
            requires
                unit >= 1,
        ;
    }
}

} // verus!
