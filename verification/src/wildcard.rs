//! Patterns with `*` and `?`, matched byte by byte.

use vstd::prelude::*;

verus! {

pub open spec fn star() -> u8 {
    42
}

pub open spec fn any_one() -> u8 {
    63
}

/// The bytes that a pattern stands for: `?` is one byte, `*` any number of bytes, and every other
/// byte itself.
pub open spec fn glob(pattern: Seq<u8>, value: Seq<u8>) -> bool
    decreases pattern.len() + value.len(),
{
    if pattern.len() == 0 {
        value.len() == 0
    } else if pattern[0] == star() {
        glob(pattern.drop_first(), value) || (value.len() > 0 && glob(pattern, value.drop_first()))
    } else {
        value.len() > 0 && (pattern[0] == any_one() || pattern[0] == value[0]) && glob(
            pattern.drop_first(),
            value.drop_first(),
        )
    }
}

pub open spec fn only_stars(pattern: Seq<u8>) -> bool {
    forall|i: int| 0 <= i < pattern.len() ==> pattern[i] == star()
}

/// Where matching resumes after a mismatch: the pattern behind the last `*`, and the value from
/// which that `*` was last taken to end.
pub type Retry = Option<(Seq<u8>, Seq<u8>)>;

pub open spec fn retry_ok(pattern: Seq<u8>, value: Seq<u8>, retry: Retry) -> bool {
    retry matches Some(r) ==> pattern.len() <= r.0.len() && value.len() <= r.1.len()
}

/// A literal byte, `?` included, is taken before a `*` is, and only the last `*` is ever widened.
/// So a `*` in the value is taken by a `*` in the pattern as a literal.
pub open spec fn matches_from(pattern: Seq<u8>, value: Seq<u8>, retry: Retry) -> bool
    decreases
            (match retry {
                Some(r) => r.0.len() as int,
                None => pattern.len() as int + 1,
            }),
            (match retry {
                Some(r) => r.1.len() as int,
                None => 0,
            }),
            value.len(),
        when retry_ok(pattern, value, retry)
{
    if value.len() == 0 {
        only_stars(pattern)
    } else if pattern.len() > 0 && (pattern[0] == any_one() || pattern[0] == value[0]) {
        matches_from(pattern.drop_first(), value.drop_first(), retry)
    } else if pattern.len() > 0 && pattern[0] == star() {
        matches_from(pattern.drop_first(), value, Some((pattern.drop_first(), value)))
    } else {
        match retry {
            Some(r) => matches_from(r.0, r.1.drop_first(), Some((r.0, r.1.drop_first()))),
            None => false,
        }
    }
}

/// Whether `value` matches `pattern`, over their bytes.
pub open spec fn matches_bytes(pattern: Seq<u8>, value: Seq<u8>) -> bool {
    matches_from(pattern, value, None)
}

/// Whether a text matches a pattern.
pub open spec fn matches_text(pattern: Seq<char>, value: Seq<char>) -> bool {
    matches_bytes(vstd::utf8::encode_utf8(pattern), vstd::utf8::encode_utf8(value))
}

pub fn wildcard_match(pattern: &str, value: &str) -> (r: bool)
    ensures
        r == matches_text(pattern@, value@),
{
    let pattern_bytes = pattern.as_bytes();
    let value_bytes = value.as_bytes();
    let ghost p = pattern_bytes@;
    let ghost v = value_bytes@;
    let ghost mut retry: Retry = None;
    let mut pattern_index: usize = 0;
    let mut value_index: usize = 0;
    let mut last_star: Option<usize> = None;
    let mut checkpoint: usize = 0;
    proof {
        assert(p.skip(0) =~= p);
        assert(v.skip(0) =~= v);
    }
    while value_index < value_bytes.len()
        invariant
            pattern_bytes@ == p,
            value_bytes@ == v,
            matches_bytes(p, v) == matches_text(pattern@, value@),
            pattern_index <= p.len(),
            value_index <= v.len(),
            checkpoint <= value_index,
            retry_ok(p.skip(pattern_index as int), v.skip(value_index as int), retry),
            match last_star {
                Some(at) => at < pattern_index && retry == Some(
                    (p.skip(at + 1), v.skip(checkpoint as int)),
                ),
                None => retry is None,
            },
            matches_from(p.skip(pattern_index as int), v.skip(value_index as int), retry)
                == matches_bytes(p, v),
        decreases
                (match last_star {
                    Some(at) => p.len() - at,
                    None => p.len() as int + 1,
                }),
                v.len() - checkpoint,
                v.len() - value_index,
    {
        proof {
            let ps = p.skip(pattern_index as int);
            let vs = v.skip(value_index as int);
            assert(vs[0] == v[value_index as int]);
            assert(vs.drop_first() =~= v.skip(value_index + 1));
            if pattern_index < p.len() {
                assert(ps[0] == p[pattern_index as int]);
                assert(ps.drop_first() =~= p.skip(pattern_index + 1));
            }
        }
        if pattern_index < pattern_bytes.len() && (pattern_bytes[pattern_index] == 63 || pattern_bytes[pattern_index]
            == value_bytes[value_index]) {
            pattern_index = pattern_index + 1;
            value_index = value_index + 1;
        } else if pattern_index < pattern_bytes.len() && pattern_bytes[pattern_index] == 42 {
            last_star = Some(pattern_index);
            pattern_index = pattern_index + 1;
            checkpoint = value_index;
            proof {
                retry = Some((p.skip(pattern_index as int), v.skip(value_index as int)));
            }
        } else {
            match last_star {
                Some(at) => {
                    proof {
                        assert(v.skip(checkpoint as int).drop_first() =~= v.skip(checkpoint + 1));
                        retry = Some((p.skip(at + 1), v.skip(checkpoint + 1)));
                    }
                    pattern_index = at + 1;
                    checkpoint = checkpoint + 1;
                    value_index = checkpoint;
                },
                None => {
                    return false;
                },
            }
        }
    }
    while pattern_index < pattern_bytes.len()
        invariant
            pattern_bytes@ == p,
            pattern_index <= p.len(),
            matches_text(pattern@, value@) == only_stars(p.skip(pattern_index as int)),
        decreases p.len() - pattern_index,
    {
        proof {
            assert(p.skip(pattern_index as int)[0] == p[pattern_index as int]);
        }
        if pattern_bytes[pattern_index] != 42 {
            return false;
        }
        proof {
            let here = p.skip(pattern_index as int);
            let next = p.skip(pattern_index + 1);
            if only_stars(next) {
                assert forall|i: int| 0 <= i < here.len() implies here[i] == star() by {
                    if i > 0 {
                        assert(here[i] == next[i - 1]);
                    }
                }
            }
            if only_stars(here) {
                assert forall|i: int| 0 <= i < next.len() implies next[i] == star() by {
                    assert(next[i] == here[i + 1]);
                }
            }
        }
        pattern_index = pattern_index + 1;
    }
    true
}

// Where the value holds no `*`, matching is exactly `glob`.

proof fn lemma_glob_of_nothing(pattern: Seq<u8>)
    ensures
        glob(pattern, Seq::empty()) == only_stars(pattern),
    decreases pattern.len(),
{
    if pattern.len() > 0 {
        let rest = pattern.drop_first();
        lemma_glob_of_nothing(rest);
        if only_stars(pattern) {
            assert forall|i: int| 0 <= i < rest.len() implies rest[i] == star() by {
                assert(rest[i] == pattern[i + 1]);
            }
        }
        if pattern[0] == star() && only_stars(rest) {
            assert forall|i: int| 0 <= i < pattern.len() implies pattern[i] == star() by {
                if i > 0 {
                    assert(pattern[i] == rest[i - 1]);
                }
            }
        }
    }
}

/// A `*` in front matches where the rest matches some end of the value.
proof fn lemma_glob_star(rest: Seq<u8>, value: Seq<u8>)
    ensures
        glob(seq![star()] + rest, value) <==> exists|j: int|
            0 <= j <= value.len() && #[trigger] glob(rest, value.skip(j)),
    decreases value.len(),
{
    let whole = seq![star()] + rest;
    assert(whole.drop_first() =~= rest);
    assert(value.skip(0) =~= value);
    assert(glob(rest, value.skip(0)) == glob(rest, value));
    if value.len() > 0 {
        let tail = value.drop_first();
        lemma_glob_star(rest, tail);
        if glob(whole, tail) {
            let j = choose|j: int| 0 <= j <= tail.len() && #[trigger] glob(rest, tail.skip(j));
            assert(tail.skip(j) =~= value.skip(j + 1));
        }
        if exists|j: int| 0 <= j <= value.len() && #[trigger] glob(rest, value.skip(j)) {
            let j = choose|j: int| 0 <= j <= value.len() && #[trigger] glob(rest, value.skip(j));
            if j > 0 {
                assert(tail.skip(j - 1) =~= value.skip(j));
            }
        }
    } else if exists|j: int| 0 <= j <= value.len() && #[trigger] glob(rest, value.skip(j)) {
        let j = choose|j: int| 0 <= j <= value.len() && #[trigger] glob(rest, value.skip(j));
        assert(j == 0);
    }
}

/// `n` bytes without a `*` in front are matched one for one.
proof fn lemma_glob_literals(q: Seq<u8>, w: Seq<u8>, n: int)
    requires
        0 <= n <= q.len(),
        forall|i: int| 0 <= i < n ==> q[i] != star(),
        glob(q, w),
    ensures
        n <= w.len(),
        glob(q.skip(n), w.skip(n)),
    decreases n,
{
    if n == 0 {
        assert(q.skip(0) =~= q);
        assert(w.skip(0) =~= w);
    } else {
        assert(q[0] != star());
        let qt = q.drop_first();
        assert forall|i: int| 0 <= i < n - 1 implies qt[i] != star() by {
            assert(qt[i] == q[i + 1]);
        }
        lemma_glob_literals(qt, w.drop_first(), n - 1);
        assert(qt.skip(n - 1) =~= q.skip(n));
        assert(w.drop_first().skip(n - 1) =~= w.skip(n));
    }
}

/// Whether some later end of the last `*` leads to a match.
spec fn later(retry: Retry) -> bool {
    match retry {
        Some(r) => exists|j: int| 1 <= j <= r.1.len() && #[trigger] glob(r.0, r.1.skip(j)),
        None => false,
    }
}

/// The pattern and value are what is left of the retry point after `n` literal bytes.
spec fn reached(pattern: Seq<u8>, value: Seq<u8>, retry: Retry, n: int) -> bool {
    match retry {
        Some(r) => {
            &&& 0 <= n <= r.0.len()
            &&& n <= r.1.len()
            &&& pattern == r.0.skip(n)
            &&& value == r.1.skip(n)
            &&& forall|i: int| 0 <= i < n ==> r.0[i] != star()
        },
        None => true,
    }
}

spec fn star_free(value: Seq<u8>) -> bool {
    forall|i: int| 0 <= i < value.len() ==> value[i] != star()
}

proof fn lemma_star_free_tail(value: Seq<u8>)
    requires
        star_free(value),
        value.len() > 0,
    ensures
        star_free(value.drop_first()),
{
    assert forall|i: int| 0 <= i < value.drop_first().len() implies value.drop_first()[i]
        != star() by {
        assert(value.drop_first()[i] == value[i + 1]);
    }
}

proof fn lemma_matches_from(pattern: Seq<u8>, value: Seq<u8>, retry: Retry, n: int)
    requires
        star_free(value),
        retry matches Some(r) ==> star_free(r.1),
        reached(pattern, value, retry, n),
    ensures
        matches_from(pattern, value, retry) == (glob(pattern, value) || later(retry)),
    decreases
            (match retry {
                Some(r) => r.0.len() as int,
                None => pattern.len() as int + 1,
            }),
            (match retry {
                Some(r) => r.1.len() as int,
                None => 0,
            }),
            value.len(),
{
    if value.len() == 0 {
        assert(value =~= Seq::empty());
        lemma_glob_of_nothing(pattern);
        if later(retry) {
            let r = retry->0;
            let j = choose|j: int| 1 <= j <= r.1.len() && #[trigger] glob(r.0, r.1.skip(j));
            lemma_glob_literals(r.0, r.1.skip(j), n);
            assert(false);
        }
    } else if pattern.len() > 0 && (pattern[0] == any_one() || pattern[0] == value[0]) {
        lemma_star_free_tail(value);
        let pt = pattern.drop_first();
        let vt = value.drop_first();
        assert(pattern[0] != star());
        match retry {
            Some(r) => {
                assert(pt =~= r.0.skip(n + 1));
                assert(vt =~= r.1.skip(n + 1));
                assert(r.0[n] == pattern[0]);
            },
            None => {},
        }
        lemma_matches_from(pt, vt, retry, n + 1);
    } else if pattern.len() > 0 && pattern[0] == star() {
        let rest = pattern.drop_first();
        let next: Retry = Some((rest, value));
        assert(rest.skip(0) =~= rest);
        assert(value.skip(0) =~= value);
        lemma_matches_from(rest, value, next, 0);
        lemma_glob_star(rest, value);
        assert(seq![star()] + rest =~= pattern);
        if later(next) {
            let j = choose|j: int| 1 <= j <= value.len() && #[trigger] glob(rest, value.skip(j));
            assert(glob(rest, value.skip(j)));
        }
        if glob(pattern, value) {
            let j = choose|j: int| 0 <= j <= value.len() && #[trigger] glob(rest, value.skip(j));
            if j == 0 {
                assert(glob(rest, value));
            }
        }
        if later(retry) {
            let r = retry->0;
            let j = choose|j: int| 1 <= j <= r.1.len() && #[trigger] glob(r.0, r.1.skip(j));
            lemma_glob_literals(r.0, r.1.skip(j), n);
            assert(r.0.skip(n) == pattern);
            let after = r.1.skip(j).skip(n);
            assert(after =~= value.skip(j));
            lemma_glob_star(rest, after);
            let m = choose|m: int| 0 <= m <= after.len() && #[trigger] glob(rest, after.skip(m));
            assert(after.skip(m) =~= value.skip(j + m));
            assert(glob(pattern, value));
        }
    } else {
        assert(!glob(pattern, value));
        match retry {
            Some(r) => {
                let wt = r.1.drop_first();
                lemma_star_free_tail(r.1);
                assert(r.0.skip(0) =~= r.0);
                assert(wt.skip(0) =~= wt);
                lemma_matches_from(r.0, wt, Some((r.0, wt)), 0);
                assert(wt =~= r.1.skip(1));
                if later(retry) {
                    let j = choose|j: int| 1 <= j <= r.1.len() && #[trigger] glob(r.0, r.1.skip(j));
                    if j > 1 {
                        assert(wt.skip(j - 1) =~= r.1.skip(j));
                        assert(glob(r.0, wt.skip(j - 1)));
                    }
                }
                if later(Some((r.0, wt))) {
                    let j = choose|j: int| 1 <= j <= wt.len() && #[trigger] glob(r.0, wt.skip(j));
                    assert(wt.skip(j) =~= r.1.skip(j + 1));
                }
            },
            None => {},
        }
    }
}

/// For values without a `*` byte, matching takes a pattern for what it stands for: `?` one byte,
/// `*` any number of bytes.
pub proof fn law_matches_is_glob(pattern: Seq<u8>, value: Seq<u8>)
    requires
        forall|i: int| 0 <= i < value.len() ==> value[i] != star(),
    ensures
        matches_bytes(pattern, value) == glob(pattern, value),
{
    lemma_matches_from(pattern, value, None, 0);
}

} // verus!
