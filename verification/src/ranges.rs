//! Semantic-range specifiers. What a range expression means is the
//! business of the `node_semver` crate; the two trusted wrappers here
//! expose range validity and range satisfaction to the resolver as
//! functions of the specifier string and the version triple alone.

use vstd::prelude::*;
use crate::semver::SemVer;

verus! {

/// Whether `node_semver::Range::parse` accepts this specifier string.
pub uninterp spec fn range_ok(s: Seq<char>) -> bool;

/// Whether the range written in the specifier string admits the version
/// with the given major, minor and patch numbers.
pub uninterp spec fn range_allows(s: Seq<char>, major: u64, minor: u64, patch: u64) -> bool;

/// Whether `node_semver::Version::parse` accepts this string as one
/// concrete version, and which triple it reads from it.
pub uninterp spec fn parsed_triple(s: Seq<char>) -> Option<(u64, u64, u64)>;

/// A wildcard version component, as range expressions write it.
pub open spec fn wild(c: char) -> bool {
    c == 'x' || c == 'X' || c == '*'
}

/// A decimal digit.
pub open spec fn dec_digit(c: char) -> bool {
    '0' <= c <= '9'
}

/// What may stand between an exact operator and the component it
/// applies to: spaces, tabs, and the optional `v` prefix.
pub open spec fn eq_filler(c: char) -> bool {
    c == ' ' || c == '\t' || c == 'v'
}

/// What may stand between a tilde and the component it applies to: the
/// same fillers, and the optional `>` of a tilde-greater range.
pub open spec fn tilde_filler(c: char) -> bool {
    c == ' ' || c == '\t' || c == 'v' || c == '>'
}

/// Whether a wildcard follows position `from`, with nothing but filler
/// characters in between.
pub open spec fn wild_behind_filler(s: Seq<char>, from: int, tilde: bool) -> bool {
    exists|j: int| from <= j < s.len() && wild(s[j])
        && (forall|k: int| from <= k < j
            ==> if tilde { tilde_filler(s[k]) } else { eq_filler(s[k]) })
}

/// An exact operator applied to a wildcard major component: the shape
/// the range parser cannot represent.
pub open spec fn eq_wild_at(s: Seq<char>, i: int) -> bool {
    0 <= i < s.len() && s[i] == '='
    && (i == 0 || (s[i - 1] != '<' && s[i - 1] != '>'))
    && wild_behind_filler(s, i + 1, false)
}

/// A tilde applied to a wildcard major component.
pub open spec fn tilde_wild_at(s: Seq<char>, i: int) -> bool {
    0 <= i < s.len() && s[i] == '~' && wild_behind_filler(s, i + 1, true)
}

/// A `.wildcard.digit` window: with a tilde in front of it, a partial
/// with a wildcard minor but a concrete patch, which the range parser
/// cannot represent either.
pub open spec fn wild_hole_at(s: Seq<char>, j: int) -> bool {
    0 <= j && j + 3 < s.len() && s[j] == '.' && wild(s[j + 1]) && s[j + 2] == '.'
        && dec_digit(s[j + 3])
}

/// A tilde with such a window anywhere behind it.
pub open spec fn tilde_hole_at(s: Seq<char>, i: int) -> bool {
    0 <= i < s.len() && s[i] == '~'
    && (exists|j: int| i < j && #[trigger] wild_hole_at(s, j))
}

/// The specifier strings this library hands to the range parser: those
/// with none of the three comparator shapes that `node_semver`'s
/// grammar admits but its bound construction rejects by panicking (an
/// exact operator or a tilde on a wildcard major, and a tilde partial
/// with a wildcard minor but a concrete patch). Everything else —
/// every plain version, caret, hyphen, comparison and wildcard range —
/// passes the screen; a screened-out string is reported as an invalid
/// specifier without consulting the parser.
pub open spec fn range_screened(s: Seq<char>) -> bool {
    forall|i: int| 0 <= i < s.len()
        ==> !eq_wild_at(s, i) && !tilde_wild_at(s, i) && !tilde_hole_at(s, i)
}

fn wild_char(c: char) -> (r: bool)
    ensures
        r == wild(c),
{
    c == 'x' || c == 'X' || c == '*'
}

fn filler_char(c: char, tilde: bool) -> (r: bool)
    ensures
        r == if tilde { tilde_filler(c) } else { eq_filler(c) },
{
    c == ' ' || c == '\t' || c == 'v' || (tilde && c == '>')
}

fn scan_wild_behind_filler(s: &str, from: usize, tilde: bool) -> (r: bool)
    requires
        from <= s@.len(),
    ensures
        r == wild_behind_filler(s@, from as int, tilde),
{
    let n = s.unicode_len();
    let mut j = from;
    while j < n
        invariant
            n == s@.len(),
            from <= j <= n,
            forall|k: int| from <= k < j
                ==> (if tilde { tilde_filler(s@[k]) } else { eq_filler(s@[k]) })
                    && !wild(s@[k]),
        decreases n - j,
    {
        let c = s.get_char(j);
        if wild_char(c) {
            return true;
        }
        if !filler_char(c, tilde) {
            proof {
                assert forall|jj: int| from <= jj < s@.len() && wild(s@[jj])
                    implies !(forall|k: int| from <= k < jj
                        ==> if tilde { tilde_filler(s@[k]) } else { eq_filler(s@[k]) }) by {
                    if jj <= j {
                        assert(!wild(s@[jj]) || jj == j);
                        assert(jj != j);
                    } else {
                        assert(!(if tilde { tilde_filler(s@[j as int]) } else {
                            eq_filler(s@[j as int])
                        }));
                    }
                }
            }
            return false;
        }
        j += 1;
    }
    proof {
        assert forall|jj: int| from <= jj < s@.len() implies !wild(s@[jj]) by {}
    }
    false
}

fn scan_hole_after(s: &str, i: usize) -> (r: bool)
    requires
        i < s@.len(),
    ensures
        r == (exists|j: int| i < j && #[trigger] wild_hole_at(s@, j)),
{
    let n = s.unicode_len();
    if n < 4 {
        return false;
    }
    let mut j = i + 1;
    while j < n - 3
        invariant
            n == s@.len(),
            4 <= n,
            i < j,
            forall|jj: int| i < jj < j ==> !wild_hole_at(s@, jj),
        decreases n - j,
    {
        if s.get_char(j) == '.' && wild_char(s.get_char(j + 1)) && s.get_char(j + 2) == '.'
            && {
                let c = s.get_char(j + 3);
                '0' <= c && c <= '9'
            }
        {
            proof {
                assert(wild_hole_at(s@, j as int));
            }
            return true;
        }
        j += 1;
    }
    proof {
        assert forall|jj: int| i < jj implies !wild_hole_at(s@, jj) by {
            if jj < j {
            } else {
                assert(jj + 3 >= s@.len());
            }
        }
    }
    false
}

/// Decides `range_screened`: whether the string is free of the three
/// comparator shapes the range parser rejects by panicking.
pub fn screen_range(s: &str) -> (r: bool)
    ensures
        r == range_screened(s@),
{
    let n = s.unicode_len();
    let mut i: usize = 0;
    while i < n
        invariant
            n == s@.len(),
            0 <= i <= n,
            forall|ii: int| 0 <= ii < i
                ==> !eq_wild_at(s@, ii) && !tilde_wild_at(s@, ii) && !tilde_hole_at(s@, ii),
        decreases n - i,
    {
        let c = s.get_char(i);
        if c == '=' {
            let guarded = i > 0 && {
                let p = s.get_char(i - 1);
                p == '<' || p == '>'
            };
            if !guarded && scan_wild_behind_filler(s, i + 1, false) {
                proof {
                    assert(eq_wild_at(s@, i as int));
                }
                return false;
            }
        } else if c == '~' {
            if scan_wild_behind_filler(s, i + 1, true) {
                proof {
                    assert(tilde_wild_at(s@, i as int));
                }
                return false;
            }
            if scan_hole_after(s, i) {
                proof {
                    assert(tilde_hole_at(s@, i as int));
                }
                return false;
            }
        }
        i += 1;
    }
    true
}

/// Relies on node_semver::Range::parse: whether a specifier string is a
/// valid range expression depends on the string alone. The parser
/// panics (`unreachable!` arms of its exact and tilde comparators) on
/// the wildcard shapes `range_screened` excludes; on every screened
/// string it returns.
#[verifier::external_body]
pub(crate) fn range_parses(s: &str) -> (r: bool)
    requires
        range_screened(s@),
    ensures
        r == range_ok(s@),
{
    node_semver::Range::parse(s).is_ok()
}

/// Relies on node_semver::Range::satisfies: whether a version satisfies
/// a range depends on the range expression and the version triple
/// alone. Range::parse is deterministic, so under `range_ok` the parse
/// here returns the same range again and cannot fail; the screen keeps
/// out the wildcard shapes on which it would panic instead.
#[verifier::external_body]
pub(crate) fn range_matches(s: &str, v: &SemVer) -> (r: bool)
    requires
        range_screened(s@),
        range_ok(s@),
    ensures
        r == range_allows(s@, v.major, v.minor, v.patch),
{
    let range = match node_semver::Range::parse(s) {
        Ok(range) => range,
        Err(_) => return false,
    };
    range.satisfies(&node_semver::Version::new(v.major, v.minor, v.patch))
}

/// Relies on node_semver::Version::parse: which concrete version a
/// string names, if any, depends on the string alone.
#[verifier::external_body]
pub(crate) fn parse_version(s: &str) -> (r: Option<SemVer>)
    ensures
        match r {
            Some(v) => parsed_triple(s@) == Some((v.major, v.minor, v.patch)),
            None => parsed_triple(s@) is None,
        },
{
    match node_semver::Version::parse(s) {
        Ok(v) => Some(SemVer { major: v.major, minor: v.minor, patch: v.patch }),
        Err(_) => None,
    }
}

} // verus!
