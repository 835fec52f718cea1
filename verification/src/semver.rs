//! Concrete versions as numeric triples, their ordering, and their
//! canonical decimal rendering (`16.1.0`).

use vstd::prelude::*;

verus! {

/// A concrete version: major, minor and patch numbers.
#[derive(Clone, Copy, PartialEq, Eq, Structural, Debug)]
pub struct SemVer {
    pub major: u64,
    pub minor: u64,
    pub patch: u64,
}

/// Strict lexicographic order on version triples.
pub open spec fn ver_lt(a: SemVer, b: SemVer) -> bool {
    a.major < b.major
    || (a.major == b.major && a.minor < b.minor)
    || (a.major == b.major && a.minor == b.minor && a.patch < b.patch)
}

/// Non-strict order on version triples.
pub open spec fn ver_le(a: SemVer, b: SemVer) -> bool {
    ver_lt(a, b) || a == b
}

impl SemVer {
    /// Strict order on version triples, decided executably.
    pub fn lt(&self, other: &SemVer) -> (r: bool)
        ensures
            r == ver_lt(*self, *other),
    {
        self.major < other.major
        || (self.major == other.major && self.minor < other.minor)
        || (self.major == other.major && self.minor == other.minor && self.patch < other.patch)
    }

    /// Non-strict order on version triples, decided executably.
    pub fn le(&self, other: &SemVer) -> (r: bool)
        ensures
            r == ver_le(*self, *other),
    {
        self.lt(other) || (self.major == other.major && self.minor == other.minor
            && self.patch == other.patch)
    }
}

/// `ver_le` in both directions pins the two versions down to the same
/// triple.
pub proof fn lemma_ver_le_antisymmetric(a: SemVer, b: SemVer)
    requires
        ver_le(a, b),
        ver_le(b, a),
    ensures
        a == b,
{
}

/// The decimal digit character for a value below ten.
pub open spec fn digit_char(d: nat) -> char {
    if d == 0 { '0' }
    else if d == 1 { '1' }
    else if d == 2 { '2' }
    else if d == 3 { '3' }
    else if d == 4 { '4' }
    else if d == 5 { '5' }
    else if d == 6 { '6' }
    else if d == 7 { '7' }
    else if d == 8 { '8' }
    else { '9' }
}

/// The decimal rendering of a natural number, without leading zeros.
pub open spec fn dec_str(n: nat) -> Seq<char>
    decreases n,
{
    if n < 10 {
        seq![digit_char(n)]
    } else {
        dec_str(n / 10) + seq![digit_char(n % 10)]
    }
}

/// A decimal rendering is never empty and always opens with a digit.
pub proof fn lemma_dec_str_first(n: nat)
    ensures
        dec_str(n).len() >= 1,
        '0' <= dec_str(n)[0] <= '9',
    decreases n,
{
    if n < 10 {
    } else {
        lemma_dec_str_first(n / 10);
    }
}

/// The canonical rendering of a version: `major.minor.patch` in decimal.
pub open spec fn ver_str(v: SemVer) -> Seq<char> {
    dec_str(v.major as nat) + seq!['.'] + dec_str(v.minor as nat) + seq!['.']
        + dec_str(v.patch as nat)
}

fn digit_string(d: u64) -> (r: String)
    requires
        d < 10,
    ensures
        r@ == seq![digit_char(d as nat)],
{
    let s: &str = if d == 0 { "0" }
        else if d == 1 { "1" }
        else if d == 2 { "2" }
        else if d == 3 { "3" }
        else if d == 4 { "4" }
        else if d == 5 { "5" }
        else if d == 6 { "6" }
        else if d == 7 { "7" }
        else if d == 8 { "8" }
        else { "9" };
    proof {
        reveal_strlit("0");
        reveal_strlit("1");
        reveal_strlit("2");
        reveal_strlit("3");
        reveal_strlit("4");
        reveal_strlit("5");
        reveal_strlit("6");
        reveal_strlit("7");
        reveal_strlit("8");
        reveal_strlit("9");
        assert(s@ =~= seq![digit_char(d as nat)]);
    }
    s.to_owned()
}

/// Renders a number in decimal, as `dec_str` describes.
pub fn u64_to_string(n: u64) -> (r: String)
    ensures
        r@ == dec_str(n as nat),
    decreases n,
{
    if n < 10 {
        digit_string(n)
    } else {
        let q: u64 = n / 10;
        let d: u64 = n % 10;
        let mut s = u64_to_string(q);
        let ds = digit_string(d);
        s.append(ds.as_str());
        proof {
            assert(s@ =~= dec_str(n as nat));
        }
        s
    }
}

/// Renders a version as `major.minor.patch`, as `ver_str` describes.
pub fn version_string(v: &SemVer) -> (r: String)
    ensures
        r@ == ver_str(*v),
{
    let mut s = u64_to_string(v.major);
    let dot: &str = ".";
    proof {
        reveal_strlit(".");
        assert(dot@ =~= seq!['.']);
    }
    s.append(dot);
    let minor = u64_to_string(v.minor);
    s.append(minor.as_str());
    s.append(dot);
    let patch = u64_to_string(v.patch);
    s.append(patch.as_str());
    proof {
        assert(s@ =~= ver_str(*v));
    }
    s
}

} // verus!
