//! Version constraint resolution: turns user-supplied specifier strings
//! into concrete versions by matching them against the catalog, after
//! excluding versions the current target cannot run.

use vstd::prelude::*;
use crate::semver::{SemVer, ver_le, lemma_ver_le_antisymmetric};
use crate::catalog::CatalogEntry;
use crate::ranges::{range_ok, range_allows, parsed_triple, range_parses, range_matches,
    parse_version, range_screened, screen_range};

verus! {

/// The lowest version with no published 32-bit build.
pub open spec fn cutoff() -> SemVer {
    SemVer { major: 10, minor: 0, patch: 0 }
}

/// Whether a version may be offered on the current target: on 32-bit
/// x86 POSIX targets, versions at or above the cutoff have no published
/// build and are excluded from all matching.
pub open spec fn eligible(v: SemVer, x86_posix: bool) -> bool {
    !(x86_posix && ver_le(cutoff(), v))
}

/// The version a parsed triple names.
pub open spec fn triple_ver(t: (u64, u64, u64)) -> SemVer {
    SemVer { major: t.0, minor: t.1, patch: t.2 }
}

/// Whether the catalog holds this exact version.
pub open spec fn catalog_has(cat: Seq<CatalogEntry>, v: SemVer) -> bool {
    exists|i: int| 0 <= i < cat.len() && (#[trigger] cat[i]).version == v
}

/// Whether catalog position `i` is an eligible entry admitted by the
/// range specifier.
pub open spec fn range_match_at(s: Seq<char>, cat: Seq<CatalogEntry>, x86_posix: bool, i: int)
    -> bool
{
    0 <= i < cat.len() && eligible(cat[i].version, x86_posix)
    && range_allows(s, cat[i].version.major, cat[i].version.minor, cat[i].version.patch)
}

/// Whether `v` is an eligible catalog version admitted by the range
/// specifier, and the maximum such version.
pub open spec fn is_best_range_match(s: Seq<char>, cat: Seq<CatalogEntry>, x86_posix: bool,
    v: SemVer) -> bool
{
    (exists|i: int| #[trigger] range_match_at(s, cat, x86_posix, i) && cat[i].version == v)
    && (forall|i: int| #[trigger] range_match_at(s, cat, x86_posix, i)
        ==> ver_le(cat[i].version, v))
}

/// Two maximal admitted versions are the same triple.
pub proof fn lemma_best_range_match_unique(s: Seq<char>, cat: Seq<CatalogEntry>,
    x86_posix: bool, a: SemVer, b: SemVer)
    requires
        is_best_range_match(s, cat, x86_posix, a),
        is_best_range_match(s, cat, x86_posix, b),
    ensures
        a == b,
{
    lemma_ver_le_antisymmetric(a, b);
}

/// How resolution of one specifier ends.
#[derive(Clone, Copy, PartialEq, Eq, Structural, Debug)]
pub enum Resolution {
    /// The specifier names or is satisfied by this catalog version.
    Resolved(SemVer),
    /// The specifier names a version the current target cannot run.
    Ineligible,
    /// The specifier is well formed but no eligible catalog version
    /// satisfies it.
    NoMatch,
    /// The specifier parses as neither an exact version nor a range.
    Invalid,
}

/// What resolving one specifier against a catalog yields: an exact
/// specifier resolves to its own version if the catalog holds it and
/// the target may run it; a range specifier resolves to the maximum
/// eligible catalog version satisfying it; anything else — including
/// the wildcard shapes `range_screened` keeps away from the range
/// parser — is rejected as invalid.
pub open spec fn outcome_of(s: Seq<char>, cat: Seq<CatalogEntry>, x86_posix: bool)
    -> Resolution
{
    if parsed_triple(s) is Some {
        let v = triple_ver(parsed_triple(s)->0);
        if !eligible(v, x86_posix) {
            Resolution::Ineligible
        } else if catalog_has(cat, v) {
            Resolution::Resolved(v)
        } else {
            Resolution::NoMatch
        }
    } else if range_screened(s) && range_ok(s) {
        if exists|i: int| #[trigger] range_match_at(s, cat, x86_posix, i) {
            Resolution::Resolved(choose|v: SemVer| is_best_range_match(s, cat, x86_posix, v))
        } else {
            Resolution::NoMatch
        }
    } else {
        Resolution::Invalid
    }
}

/// Whether a version may be offered on the current target, decided
/// executably.
pub fn check_eligible(v: &SemVer, x86_posix: bool) -> (r: bool)
    ensures
        r == eligible(*v, x86_posix),
{
    let c = SemVer { major: 10, minor: 0, patch: 0 };
    !(x86_posix && c.le(v))
}

/// Resolves one specifier against the catalog, exactly as `outcome_of`
/// describes.
pub fn resolve_one(spec_str: &str, catalog: &Vec<CatalogEntry>, x86_posix: bool)
    -> (r: Resolution)
    ensures
        r == outcome_of(spec_str@, catalog@, x86_posix),
{
    if let Some(v) = parse_version(spec_str) {
        if !check_eligible(&v, x86_posix) {
            return Resolution::Ineligible;
        }
        let n = catalog.len();
        let mut i: usize = 0;
        while i < n
            invariant
                n == catalog@.len(),
                0 <= i <= n,
                parsed_triple(spec_str@) == Some((v.major, v.minor, v.patch)),
                triple_ver(parsed_triple(spec_str@)->0) == v,
                eligible(v, x86_posix),
                forall|j: int| 0 <= j < i ==> (#[trigger] catalog@[j]).version != v,
            decreases n - i,
        {
            if catalog[i].version.major == v.major && catalog[i].version.minor == v.minor
                && catalog[i].version.patch == v.patch
            {
                proof {
                    assert(catalog@[i as int].version == v);
                    assert(catalog_has(catalog@, v));
                }
                return Resolution::Resolved(v);
            }
            i += 1;
        }
        assert(!catalog_has(catalog@, v));
        Resolution::NoMatch
    } else if screen_range(spec_str) && range_parses(spec_str) {
        let n = catalog.len();
        let mut i: usize = 0;
        let mut best: Option<SemVer> = None;
        while i < n
            invariant
                n == catalog@.len(),
                0 <= i <= n,
                parsed_triple(spec_str@) is None,
                range_screened(spec_str@),
                range_ok(spec_str@),
                match best {
                    Option::None => forall|j: int| 0 <= j < i
                        ==> !range_match_at(spec_str@, catalog@, x86_posix, j),
                    Option::Some(b) => {
                        &&& exists|j: int| 0 <= j < i
                            && #[trigger] range_match_at(spec_str@, catalog@, x86_posix, j)
                            && catalog@[j].version == b
                        &&& forall|j: int| 0 <= j < i
                            && #[trigger] range_match_at(spec_str@, catalog@, x86_posix, j)
                            ==> ver_le(catalog@[j].version, b)
                    },
                },
            decreases n - i,
        {
            let cv = catalog[i].version;
            if check_eligible(&cv, x86_posix) && range_matches(spec_str, &cv) {
                assert(range_match_at(spec_str@, catalog@, x86_posix, i as int));
                match best {
                    Option::None => { best = Some(cv); },
                    Option::Some(b) => {
                        if b.lt(&cv) {
                            best = Some(cv);
                        }
                    },
                }
            }
            i += 1;
        }
        match best {
            Option::None => {
                assert(forall|j: int| !range_match_at(spec_str@, catalog@, x86_posix, j));
                Resolution::NoMatch
            },
            Option::Some(b) => {
                proof {
                    assert(is_best_range_match(spec_str@, catalog@, x86_posix, b));
                    let c = choose|v: SemVer| is_best_range_match(spec_str@, catalog@,
                        x86_posix, v);
                    lemma_best_range_match_unique(spec_str@, catalog@, x86_posix, b, c);
                }
                Resolution::Resolved(b)
            },
        }
    } else {
        Resolution::Invalid
    }
}

/// Why resolving a batch of specifiers failed.
#[derive(Clone, Copy, PartialEq, Eq, Structural, Debug)]
pub enum ResolveErrorKind {
    /// The specifier parses as neither an exact version nor a range.
    InvalidSpecifier,
    /// No eligible catalog version satisfies the specifier.
    NoMatch,
}

/// The first specifier of a batch that failed to resolve, by position.
#[derive(Clone, Copy, PartialEq, Eq, Structural, Debug)]
pub struct ResolveError {
    pub index: usize,
    pub kind: ResolveErrorKind,
}

/// Whether the specifier at position `i` fails resolution outright.
pub open spec fn fails_at(specs: Seq<String>, cat: Seq<CatalogEntry>, x86_posix: bool, i: int)
    -> bool
{
    0 <= i < specs.len()
    && (outcome_of(specs[i]@, cat, x86_posix) is NoMatch
        || outcome_of(specs[i]@, cat, x86_posix) is Invalid)
}

/// Whether some specifier of the batch resolves to `v`.
pub open spec fn some_spec_resolves_to(specs: Seq<String>, cat: Seq<CatalogEntry>,
    x86_posix: bool, v: SemVer) -> bool
{
    exists|k: int| 0 <= k < specs.len()
        && #[trigger] outcome_of(specs[k]@, cat, x86_posix) == Resolution::Resolved(v)
}

fn contains_ver(vs: &Vec<SemVer>, v: &SemVer) -> (r: bool)
    ensures
        r == vs@.contains(*v),
{
    let n = vs.len();
    let mut i: usize = 0;
    while i < n
        invariant
            n == vs@.len(),
            0 <= i <= n,
            forall|j: int| 0 <= j < i ==> vs@[j] != *v,
        decreases n - i,
    {
        if vs[i].major == v.major && vs[i].minor == v.minor && vs[i].patch == v.patch {
            assert(vs@[i as int] == *v);
            return true;
        }
        i += 1;
    }
    false
}

/// Resolves a whole batch of specifiers. The batch fails at the first
/// specifier that is invalid or matches nothing; ineligible requests
/// are reported by position and skipped; the rest resolve to a
/// duplicate-free set of concrete versions.
pub fn resolve_all(specs: &Vec<String>, catalog: &Vec<CatalogEntry>, x86_posix: bool)
    -> (r: Result<(Vec<SemVer>, Vec<usize>), ResolveError>)
    ensures
        match r {
            Result::Ok(out) => {
                &&& forall|i: int| !fails_at(specs@, catalog@, x86_posix, i)
                &&& forall|i: int, j: int| 0 <= i < j < out.0@.len() ==> out.0@[i] != out.0@[j]
                &&& forall|v: SemVer| #[trigger] out.0@.contains(v)
                    <==> some_spec_resolves_to(specs@, catalog@, x86_posix, v)
                &&& forall|i: int| 0 <= i < specs@.len()
                    ==> (out.1@.contains(i as usize)
                        <==> #[trigger] outcome_of(specs@[i]@, catalog@, x86_posix)
                            is Ineligible)
            },
            Result::Err(e) => {
                &&& fails_at(specs@, catalog@, x86_posix, e.index as int)
                &&& forall|j: int| 0 <= j < e.index
                    ==> !fails_at(specs@, catalog@, x86_posix, j)
                &&& e.kind == (if outcome_of(specs@[e.index as int]@, catalog@, x86_posix)
                        is Invalid { ResolveErrorKind::InvalidSpecifier }
                    else { ResolveErrorKind::NoMatch })
            },
        },
{
    let n = specs.len();
    let mut out: Vec<SemVer> = Vec::new();
    let mut skipped: Vec<usize> = Vec::new();
    let mut i: usize = 0;
    while i < n
        invariant
            n == specs@.len(),
            0 <= i <= n,
            forall|j: int| 0 <= j < i ==> !fails_at(specs@, catalog@, x86_posix, j),
            forall|a: int, b: int| 0 <= a < b < out@.len() ==> out@[a] != out@[b],
            forall|v: SemVer| #[trigger] out@.contains(v)
                <==> exists|k: int| 0 <= k < i
                    && #[trigger] outcome_of(specs@[k]@, catalog@, x86_posix)
                        == Resolution::Resolved(v),
            forall|j: int| 0 <= j < specs@.len()
                ==> (skipped@.contains(j as usize)
                    <==> (j < i
                        && #[trigger] outcome_of(specs@[j]@, catalog@, x86_posix)
                            is Ineligible)),
        decreases n - i,
    {
        broadcast use vstd::seq_lib::lemma_seq_contains_after_push;

        let outcome = resolve_one(specs[i].as_str(), catalog, x86_posix);
        proof {
            assert(outcome == outcome_of(specs@[i as int]@, catalog@, x86_posix));
        }
        match outcome {
            Resolution::Resolved(v) => {
                let ghost prev = out@;
                if !contains_ver(&out, &v) {
                    out.push(v);
                }
                proof {
                    assert(out@.contains(v));
                    assert forall|w: SemVer| #[trigger] out@.contains(w) implies
                        exists|k: int| 0 <= k < i + 1
                            && #[trigger] outcome_of(specs@[k]@, catalog@, x86_posix)
                                == Resolution::Resolved(w) by {
                        if w == v {
                            assert(outcome_of(specs@[i as int]@, catalog@, x86_posix)
                                == Resolution::Resolved(w));
                        } else {
                            assert(prev.contains(w));
                        }
                    }
                    assert forall|w: SemVer| (exists|k: int| 0 <= k < i + 1
                            && #[trigger] outcome_of(specs@[k]@, catalog@, x86_posix)
                                == Resolution::Resolved(w)) implies out@.contains(w) by {
                        let k = choose|k: int| 0 <= k < i + 1
                            && #[trigger] outcome_of(specs@[k]@, catalog@, x86_posix)
                                == Resolution::Resolved(w);
                        if k < i {
                            assert(prev.contains(w));
                        } else {
                            assert(w == v);
                        }
                    }
                }
            },
            Resolution::Ineligible => {
                let ghost prevsk = skipped@;
                skipped.push(i);
                proof {
                    assert forall|j: int| 0 <= j < specs@.len() implies
                        (skipped@.contains(j as usize)
                            <==> (j < i + 1
                                && outcome_of(specs@[j]@, catalog@, x86_posix)
                                    is Ineligible)) by {
                        assert(skipped@.contains(j as usize)
                            <==> (prevsk.contains(j as usize) || j == i));
                    }
                }
            },
            Resolution::NoMatch => {
                return Result::Err(ResolveError { index: i, kind: ResolveErrorKind::NoMatch });
            },
            Resolution::Invalid => {
                return Result::Err(ResolveError {
                    index: i,
                    kind: ResolveErrorKind::InvalidSpecifier,
                });
            },
        }
        i += 1;
    }
    Result::Ok((out, skipped))
}

} // verus!
