//! Filtering a repository's tags through the version grammar: tags that
//! parse as SemVer versions are deduplicated, ordered by their
//! major/minor/patch triple, and matched against a constraint.

use vstd::prelude::*;

use crate::ver::Spec;
use crate::ver::spec_fullfill;

verus! {

/// The major, minor and patch numbers of a SemVer version string, when
/// it is one; what `parse_version` returns.
pub uninterp spec fn semver_triple(s: Seq<char>) -> Option<(u64, u64, u64)>;

/// Relies on semver's version parser (`semver::Version::parse`): whether
/// a string is a valid SemVer version, and its major, minor and patch
/// numbers, depend on the characters alone. Pre-release and build
/// metadata are dropped here.
#[verifier::external_body]
fn parse_version(s: &str) -> (r: Option<(u64, u64, u64)>)
    ensures
        r == semver_triple(s@),
{
    match semver::Version::parse(s) {
        Ok(v) => Some((v.major, v.minor, v.patch)),
        Err(_) => None,
    }
}

/// Strict lexicographic order on version triples.
pub open spec fn triple_lt(a: (u64, u64, u64), b: (u64, u64, u64)) -> bool {
    a.0 < b.0 || (a.0 == b.0 && (a.1 < b.1 || (a.1 == b.1 && a.2 < b.2)))
}

/// Strictly increasing: sorted with no duplicates.
pub open spec fn strictly_sorted(s: Seq<(u64, u64, u64)>) -> bool {
    forall|i: int, j: int| 0 <= i < j < s.len() ==> triple_lt(#[trigger] s[i], #[trigger] s[j])
}

fn triple_lt_exec(a: &(u64, u64, u64), b: &(u64, u64, u64)) -> (r: bool)
    ensures
        r == triple_lt(*a, *b),
{
    a.0 < b.0 || (a.0 == b.0 && (a.1 < b.1 || (a.1 == b.1 && a.2 < b.2)))
}

fn triple_eq_exec(a: &(u64, u64, u64), b: &(u64, u64, u64)) -> (r: bool)
    ensures
        r == (*a == *b),
{
    a.0 == b.0 && a.1 == b.1 && a.2 == b.2
}

/// Inserts a triple at a known position, keeping the vector strictly
/// sorted.
fn insert_at(v: &mut Vec<(u64, u64, u64)>, i: usize, t: (u64, u64, u64))
    requires
        strictly_sorted(old(v)@),
        i <= old(v)@.len(),
        forall|j: int| 0 <= j < i ==> triple_lt(#[trigger] old(v)@[j], t),
        i < old(v)@.len() ==> triple_lt(t, old(v)@[i as int]),
    ensures
        strictly_sorted(final(v)@),
        forall|x: (u64, u64, u64)| #[trigger]
            final(v)@.contains(x) <==> (old(v)@.contains(x) || x == t),
{
    let ghost s = v@;
    v.insert(i, t);
    proof {
        let new = v@;
        assert(new == s.insert(i as int, t));
        assert forall|k: int| 0 <= k < new.len() implies #[trigger] new[k] == (if k < i {
            s[k]
        } else if k == i {
            t
        } else {
            s[k - 1]
        }) by {}
        assert forall|p: int, q: int| 0 <= p < q < new.len() implies triple_lt(
            #[trigger] new[p],
            #[trigger] new[q],
        ) by {
            if p < i && q < i {
            } else if p < i && q == i {
            } else if p < i && q > i {
                if i < s.len() {
                    assert(triple_lt(s[p], s[q - 1]));
                }
            } else if p == i && q > i {
                assert(triple_lt(t, s[i as int]));
                if q - 1 > i {
                    assert(triple_lt(s[i as int], s[q - 1]));
                }
            } else {
                assert(triple_lt(s[p - 1], s[q - 1]));
            }
        }
        assert forall|x: (u64, u64, u64)| #[trigger]
            new.contains(x) <==> (s.contains(x) || x == t) by {
            if new.contains(x) {
                let k = choose|k: int| 0 <= k < new.len() && new[k] == x;
                if k < i {
                    assert(s[k] == x);
                } else if k == i {
                } else {
                    assert(s[k - 1] == x);
                }
            }
            if s.contains(x) {
                let k = choose|k: int| 0 <= k < s.len() && s[k] == x;
                if k < i {
                    assert(new[k] == x);
                } else {
                    assert(new[k + 1] == x);
                }
            }
            if x == t {
                assert(new[i as int] == x);
            }
        }
    }
}

/// Inserts a triple into a strictly sorted vector, keeping it strictly
/// sorted; a triple already present is left alone.
fn insert_triple(v: &mut Vec<(u64, u64, u64)>, t: (u64, u64, u64))
    requires
        strictly_sorted(old(v)@),
    ensures
        strictly_sorted(final(v)@),
        forall|x: (u64, u64, u64)| #[trigger]
            final(v)@.contains(x) <==> (old(v)@.contains(x) || x == t),
{
    let ghost s = v@;
    let mut i: usize = 0;
    while i < v.len()
        invariant
            0 <= i <= v.len(),
            s == v@,
            s == old(v)@,
            s.len() == v.len(),
            strictly_sorted(s),
            forall|j: int| 0 <= j < i ==> triple_lt(#[trigger] s[j], t),
        decreases v.len() - i,
    {
        if triple_eq_exec(&v[i], &t) {
            proof {
                assert(s.contains(t));
            }
            return;
        }
        if !triple_lt_exec(&v[i], &t) {
            proof {
                assert(triple_lt(t, s[i as int]));
            }
            insert_at(v, i, t);
            return;
        }
        i = i + 1;
    }
    insert_at(v, i, t);
}

/// Whether a triple passes the constraint; no constraint passes all.
pub open spec fn triple_matches(spec: Option<Spec>, t: (u64, u64, u64)) -> bool {
    match spec {
        Some(sp) => spec_fullfill(sp, t.0, t.1, t.2),
        None => true,
    }
}

/// The versions a tag listing offers under a constraint: every tag that
/// parses as a SemVer version and whose triple passes the constraint,
/// deduplicated and in increasing order.
pub fn version_find_matches(tags: &Vec<String>, spec: &Option<Spec>) -> (r: Vec<(u64, u64, u64)>)
    ensures
        strictly_sorted(r@),
        forall|t: (u64, u64, u64)| #[trigger]
            r@.contains(t) <==> ((exists|i: int|
                0 <= i < tags@.len() && semver_triple((#[trigger] tags@[i])@) == Some(t))
                && triple_matches(*spec, t)),
{
    let mut r: Vec<(u64, u64, u64)> = Vec::new();
    let mut k: usize = 0;
    while k < tags.len()
        invariant
            0 <= k <= tags.len(),
            strictly_sorted(r@),
            forall|t: (u64, u64, u64)| #[trigger]
                r@.contains(t) <==> ((exists|i: int|
                    0 <= i < k && semver_triple((#[trigger] tags@[i])@) == Some(t))
                    && triple_matches(*spec, t)),
        decreases tags.len() - k,
    {
        let ghost prev = r@;
        match parse_version(tags[k].as_str()) {
            Some(t) => {
                let keep = match spec {
                    Some(sp) => sp.fullfill(t.0, t.1, t.2),
                    None => true,
                };
                if keep {
                    insert_triple(&mut r, t);
                    proof {
                        assert(semver_triple(tags@[k as int]@) == Some(t));
                        assert forall|x: (u64, u64, u64)| #[trigger]
                            r@.contains(x) <==> ((exists|i: int|
                                0 <= i < k + 1 && semver_triple((#[trigger] tags@[i])@) == Some(x))
                                && triple_matches(*spec, x)) by {
                            if r@.contains(x) {
                                if x == t {
                                    assert(semver_triple((tags@[k as int])@) == Some(x));
                                } else {
                                    assert(prev.contains(x));
                                }
                            } else {
                                if exists|i: int|
                                    0 <= i < k + 1 && semver_triple((#[trigger] tags@[i])@)
                                        == Some(x) {
                                    let i = choose|i: int|
                                        0 <= i < k + 1 && semver_triple((#[trigger] tags@[i])@)
                                            == Some(x);
                                    if i == k {
                                        assert(x == t);
                                        assert(r@.contains(x));
                                    }
                                }
                            }
                        }
                    }
                } else {
                    proof {
                        assert(semver_triple(tags@[k as int]@) == Some(t));
                        assert(!triple_matches(*spec, t));
                        assert forall|x: (u64, u64, u64)| #[trigger]
                            r@.contains(x) <==> ((exists|i: int|
                                0 <= i < k + 1 && semver_triple((#[trigger] tags@[i])@) == Some(x))
                                && triple_matches(*spec, x)) by {
                            if !r@.contains(x) && triple_matches(*spec, x) {
                                if exists|i: int|
                                    0 <= i < k + 1 && semver_triple((#[trigger] tags@[i])@)
                                        == Some(x) {
                                    let i = choose|i: int|
                                        0 <= i < k + 1 && semver_triple((#[trigger] tags@[i])@)
                                            == Some(x);
                                    assert(i < k || x == t);
                                }
                            }
                        }
                    }
                }
            },
            None => {
                proof {
                    assert(semver_triple(tags@[k as int]@) is None);
                    assert forall|x: (u64, u64, u64)| #[trigger]
                        r@.contains(x) <==> ((exists|i: int|
                            0 <= i < k + 1 && semver_triple((#[trigger] tags@[i])@) == Some(x))
                            && triple_matches(*spec, x)) by {
                        if !r@.contains(x) {
                            if exists|i: int|
                                0 <= i < k + 1 && semver_triple((#[trigger] tags@[i])@) == Some(
                                    x,
                                ) {
                                let i = choose|i: int|
                                    0 <= i < k + 1 && semver_triple((#[trigger] tags@[i])@) == Some(
                                        x,
                                    );
                                assert(i < k);
                            }
                        }
                    }
                }
            },
        }
        k = k + 1;
    }
    r
}

} // verus!
