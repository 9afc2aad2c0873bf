//! Exclusion patterns: `*` matches any run of bytes (path separators
//! included) and `?` matches exactly one byte. Matching uses the single
//! backtracking point of the most recent `*`.

use vstd::prelude::*;

verus! {

pub const STAR: u8 = 42u8;

pub const ANY_ONE: u8 = 63u8;

/// Declarative glob semantics: pattern bytes `p[i..]` match text bytes `t[j..]`.
pub open spec fn glob_from(p: Seq<u8>, t: Seq<u8>, i: int, j: int) -> bool
    decreases p.len() - i, t.len() - j,
{
    if i >= p.len() || i < 0 {
        j == t.len()
    } else if p[i] == STAR {
        glob_from(p, t, i + 1, j) || (0 <= j < t.len() && glob_from(p, t, i, j + 1))
    } else {
        0 <= j < t.len() && (p[i] == ANY_ONE || p[i] == t[j]) && glob_from(p, t, i + 1, j + 1)
    }
}

/// The whole pattern matches the whole text.
pub open spec fn glob_matches(p: Seq<u8>, t: Seq<u8>) -> bool {
    glob_from(p, t, 0, 0)
}

/// Every pattern byte from `i` on is a `*`.
pub open spec fn only_stars_from(p: Seq<u8>, i: int) -> bool {
    forall|k: int| i <= k < p.len() ==> p[k] == STAR
}

/// The text holds no `*` byte.
pub open spec fn no_star_text(t: Seq<u8>) -> bool {
    forall|k: int| 0 <= k < t.len() ==> t[k] != STAR
}

/// The matcher as it runs: pattern position `pi`, text position `ti`, the
/// most recent `*` and the text position it was last tried from. A pattern
/// `*` that meets a text `*` is consumed as a literal byte.
pub open spec fn glob_run(p: Seq<u8>, t: Seq<u8>, pi: int, ti: int, star: Option<int>, cp: int) -> bool
    decreases t.len() - cp, t.len() - ti, p.len() - pi,
{
    if !(0 <= cp <= ti && 0 <= pi && (star is Some ==> 0 <= star->0)) {
        false
    } else if ti < t.len() {
        if pi < p.len() && (p[pi] == ANY_ONE || p[pi] == t[ti]) {
            glob_run(p, t, pi + 1, ti + 1, star, cp)
        } else if pi < p.len() && p[pi] == STAR {
            glob_run(p, t, pi + 1, ti, Some(pi), ti)
        } else if star is Some {
            glob_run(p, t, star->0 + 1, cp + 1, star, cp + 1)
        } else {
            false
        }
    } else {
        only_stars_from(p, pi)
    }
}

/// What the matcher answers for a whole pattern and text.
pub open spec fn glob_result(p: Seq<u8>, t: Seq<u8>) -> bool {
    glob_run(p, t, 0, 0, None, 0)
}

/// Some split point at or after `c` lets `p[i..]` match the rest of the text.
pub open spec fn match_from_some(p: Seq<u8>, t: Seq<u8>, i: int, c: int) -> bool {
    exists|k: int| c <= k <= t.len() && #[trigger] glob_from(p, t, i, k)
}

/// The star-free pattern bytes `p[i..i+len]` match `t[j..j+len]` one by one.
pub open spec fn fixed_match(p: Seq<u8>, t: Seq<u8>, i: int, j: int, len: int) -> bool {
    forall|a: int| i <= a < i + len ==> #[trigger] p[a] != STAR && (p[a] == ANY_ONE || p[a] == t[j + (a - i)])
}

proof fn lemma_trailing(p: Seq<u8>, t: Seq<u8>, i: int)
    requires
        0 <= i <= p.len(),
    ensures
        glob_from(p, t, i, t.len() as int) == only_stars_from(p, i),
    decreases p.len() - i,
{
    if i < p.len() {
        lemma_trailing(p, t, i + 1);
        if p[i] != STAR {
            assert(!only_stars_from(p, i));
        }
    }
}

proof fn lemma_fixed(p: Seq<u8>, t: Seq<u8>, i: int, j: int, len: int)
    requires
        0 <= i,
        0 <= len,
        i + len <= p.len(),
        0 <= j <= t.len(),
        forall|k: int| i <= k < i + len ==> p[k] != STAR,
    ensures
        glob_from(p, t, i, j) == (j + len <= t.len() && fixed_match(p, t, i, j, len) && glob_from(
            p,
            t,
            i + len,
            j + len,
        )),
    decreases len,
{
    if len > 0 && j < t.len() {
        lemma_fixed(p, t, i + 1, j + 1, len - 1);
        if fixed_match(p, t, i, j, len) {
            assert(p[i] != STAR);
            assert(p[i] == ANY_ONE || p[i] == t[j + (i - i)]);
            assert forall|a: int| i + 1 <= a < (i + 1) + (len - 1) implies #[trigger] p[a] != STAR && (p[a]
                == ANY_ONE || p[a] == t[(j + 1) + (a - (i + 1))]) by {
                assert(j + (a - i) == (j + 1) + (a - (i + 1)));
            }
        }
        if (p[i] == ANY_ONE || p[i] == t[j]) && fixed_match(p, t, i + 1, j + 1, len - 1) {
            assert forall|a: int| i <= a < i + len implies #[trigger] p[a] != STAR && (p[a] == ANY_ONE
                || p[a] == t[j + (a - i)]) by {
                if a > i {
                    assert(j + (a - i) == (j + 1) + (a - (i + 1)));
                }
            }
        }
    }
}

proof fn lemma_some_unfold(p: Seq<u8>, t: Seq<u8>, i: int, c: int)
    requires
        0 <= c < t.len(),
    ensures
        match_from_some(p, t, i, c) == (glob_from(p, t, i, c) || match_from_some(p, t, i, c + 1)),
{
    if match_from_some(p, t, i, c) {
        let k = choose|k: int| c <= k <= t.len() && #[trigger] glob_from(p, t, i, k);
        if k > c {
            assert(c + 1 <= k <= t.len() && glob_from(p, t, i, k));
        }
    }
    if glob_from(p, t, i, c) {
        assert(c <= c <= t.len() && glob_from(p, t, i, c));
    }
    if match_from_some(p, t, i, c + 1) {
        let k = choose|k: int| c + 1 <= k <= t.len() && #[trigger] glob_from(p, t, i, k);
        assert(c <= k <= t.len() && glob_from(p, t, i, k));
    }
}

proof fn lemma_star(p: Seq<u8>, t: Seq<u8>, i: int, j: int)
    requires
        0 <= i < p.len(),
        p[i] == STAR,
        0 <= j <= t.len(),
    ensures
        glob_from(p, t, i, j) == match_from_some(p, t, i + 1, j),
    decreases t.len() - j,
{
    if j < t.len() {
        lemma_star(p, t, i, j + 1);
        lemma_some_unfold(p, t, i + 1, j);
    } else {
        if match_from_some(p, t, i + 1, j) {
            let k = choose|k: int| j <= k <= t.len() && #[trigger] glob_from(p, t, i + 1, k);
            assert(k == j);
        }
        if glob_from(p, t, i + 1, j) {
            assert(j <= j <= t.len() && glob_from(p, t, i + 1, j));
        }
    }
}

/// The invariant of the matcher's state, in terms of the declarative
/// semantics, for texts without `*`.
spec fn run_state_ok(p: Seq<u8>, t: Seq<u8>, pi: int, ti: int, star: Option<int>, cp: int) -> bool {
    &&& 0 <= cp <= ti <= t.len()
    &&& 0 <= pi <= p.len()
    &&& match star {
        None => true,
        Some(s) => {
            &&& 0 <= s
            &&& s + 1 <= pi
            &&& p[s] == STAR
            &&& ti - cp == pi - (s + 1)
            &&& forall|k: int| s + 1 <= k < pi ==> p[k] != STAR
            &&& fixed_match(p, t, s + 1, cp, pi - (s + 1))
        },
    }
}

spec fn run_target(p: Seq<u8>, t: Seq<u8>, pi: int, ti: int, star: Option<int>, cp: int) -> bool {
    match star {
        None => glob_from(p, t, pi, ti),
        Some(s) => match_from_some(p, t, s + 1, cp),
    }
}

proof fn lemma_run(p: Seq<u8>, t: Seq<u8>, pi: int, ti: int, star: Option<int>, cp: int)
    requires
        no_star_text(t),
        run_state_ok(p, t, pi, ti, star, cp),
    ensures
        glob_run(p, t, pi, ti, star, cp) == run_target(p, t, pi, ti, star, cp),
    decreases t.len() - cp, t.len() - ti, p.len() - pi,
{
    if ti < t.len() {
        assert(t[ti] != STAR);
        if pi < p.len() && (p[pi] == ANY_ONE || p[pi] == t[ti]) {
            assert(p[pi] != STAR);
            match star {
                None => {},
                Some(s) => {
                    assert forall|a: int| s + 1 <= a < (s + 1) + ((pi + 1) - (s + 1)) implies #[trigger] p[a]
                        != STAR && (p[a] == ANY_ONE || p[a] == t[cp + (a - (s + 1))]) by {
                        if a == pi {
                            assert(cp + (a - (s + 1)) == ti);
                        }
                    }
                },
            }
            lemma_run(p, t, pi + 1, ti + 1, star, cp);
        } else if pi < p.len() && p[pi] == STAR {
            assert(fixed_match(p, t, pi + 1, ti, 0));
            lemma_run(p, t, pi + 1, ti, Some(pi), ti);
            lemma_star(p, t, pi, ti);
            match star {
                None => {},
                Some(s) => {
                    let len = pi - (s + 1);
                    // The star-free stretch between the two stars pins the split.
                    if match_from_some(p, t, s + 1, cp) {
                        let k = choose|k: int| cp <= k <= t.len() && #[trigger] glob_from(p, t, s + 1, k);
                        lemma_fixed(p, t, s + 1, k, len);
                        lemma_star(p, t, pi, k + len);
                        let k2 = choose|k2: int| k + len <= k2 <= t.len() && #[trigger] glob_from(p, t, pi + 1, k2);
                        assert(ti <= k2 <= t.len() && glob_from(p, t, pi + 1, k2));
                    }
                    if match_from_some(p, t, pi + 1, ti) {
                        lemma_fixed(p, t, s + 1, cp, len);
                        assert(glob_from(p, t, s + 1, cp));
                        assert(cp <= cp <= t.len() && glob_from(p, t, s + 1, cp));
                    }
                },
            }
        } else if star is Some {
            let s = star->0;
            let len = pi - (s + 1);
            lemma_fixed(p, t, s + 1, cp, len);
            assert(!glob_from(p, t, s + 1, cp));
            lemma_some_unfold(p, t, s + 1, cp);
            assert(fixed_match(p, t, s + 1, cp + 1, 0));
            lemma_run(p, t, s + 1, cp + 1, star, cp + 1);
        } else {
        }
    } else {
        lemma_trailing(p, t, pi);
        match star {
            None => {},
            Some(s) => {
                let len = pi - (s + 1);
                lemma_fixed(p, t, s + 1, cp, len);
                if only_stars_from(p, pi) {
                    assert(cp <= cp <= t.len() && glob_from(p, t, s + 1, cp));
                } else if match_from_some(p, t, s + 1, cp) {
                    let k = choose|k: int| cp <= k <= t.len() && #[trigger] glob_from(p, t, s + 1, k);
                    lemma_fixed(p, t, s + 1, k, len);
                }
            },
        }
    }
}

/// On a text without `*` bytes the matcher answers exactly the declarative
/// glob semantics.
pub proof fn glob_matcher_is_sound_and_complete(p: Seq<u8>, t: Seq<u8>)
    requires
        no_star_text(t),
    ensures
        glob_result(p, t) == glob_matches(p, t),
{
    lemma_run(p, t, 0, 0, None, 0);
}

/// Whether `pattern` matches all of `text`, byte by byte.
pub fn glob_match_bytes(pattern: &[u8], text: &[u8]) -> (r: bool)
    ensures
        r == glob_result(pattern@, text@),
        no_star_text(text@) ==> r == glob_matches(pattern@, text@),
{
    let ghost p = pattern@;
    let ghost t = text@;
    let mut pi: usize = 0;
    let mut ti: usize = 0;
    let mut star: Option<usize> = None;
    let mut cp: usize = 0;
    while ti < text.len()
        invariant
            p == pattern@,
            t == text@,
            0 <= cp <= ti <= t.len(),
            pi <= p.len(),
            star matches Some(s) ==> s < pi,
            glob_result(p, t) == glob_run(
                p,
                t,
                pi as int,
                ti as int,
                match star {
                    Some(s) => Some(s as int),
                    None => None,
                },
                cp as int,
            ),
        decreases t.len() - cp, t.len() - ti, p.len() - pi,
    {
        let ghost gs: Option<int> = match star {
            Some(s) => Some(s as int),
            None => None,
        };
        if pi < pattern.len() && (pattern[pi] == ANY_ONE || pattern[pi] == text[ti]) {
            pi = pi + 1;
            ti = ti + 1;
        } else if pi < pattern.len() && pattern[pi] == STAR {
            star = Some(pi);
            pi = pi + 1;
            cp = ti;
        } else {
            match star {
                Some(s) => {
                    pi = s + 1;
                    cp = cp + 1;
                    ti = cp;
                },
                None => {
                    proof {
                        assert(!glob_run(p, t, pi as int, ti as int, gs, cp as int));
                    }
                    proof {
                        if no_star_text(t) {
                            glob_matcher_is_sound_and_complete(p, t);
                        }
                    }
                    return false;
                },
            }
        }
    }
    while pi < pattern.len() && pattern[pi] == STAR
        invariant
            p == pattern@,
            t == text@,
            pi <= p.len(),
            ti >= t.len(),
            0 <= cp <= ti,
            star matches Some(s) ==> s < pi,
            glob_result(p, t) == only_stars_from(p, pi as int),
        decreases p.len() - pi,
    {
        pi = pi + 1;
    }
    proof {
        if pi < p.len() {
            assert(!only_stars_from(p, pi as int));
        }
        if no_star_text(t) {
            glob_matcher_is_sound_and_complete(p, t);
        }
    }
    pi == pattern.len()
}

/// Whether the text matches the exclusion pattern.
pub fn glob_match(pattern: &str, text: &str) -> (r: bool)
    ensures
        r == glob_result(vstd::utf8::encode_utf8(pattern@), vstd::utf8::encode_utf8(text@)),
        no_star_text(vstd::utf8::encode_utf8(text@)) ==> r == glob_matches(
            vstd::utf8::encode_utf8(pattern@),
            vstd::utf8::encode_utf8(text@),
        ),
{
    glob_match_bytes(pattern.as_bytes(), text.as_bytes())
}

} // verus!
