//! The lifecycle laws that hold across the store transitions: the
//! active-version invariant, and the activate/remove round trip.

use vstd::prelude::*;
use crate::store::{Store, Installation, has_version, name_listed};

verus! {

/// Law: whenever the active-version state points at some version, that
/// version's directory is installed. Activation, removal and install
/// recording each preserve well-formedness, so this holds after any
/// sequence of those operations.
pub proof fn lemma_active_version_installed(s: Store)
    requires
        s.wf(),
        s.active is Some,
    ensures
        has_version(s, s.active->0@),
{
}

/// Law (round trip, first half): activating an installed version
/// keeps the installed set whole, so the activated version is among
/// the names a listing returns.
pub proof fn lemma_activate_then_listed(pre: Store, post: Store, version: String)
    requires
        pre.wf(),
        has_version(pre, version@),
        post.installed == pre.installed,
        post.active == Some(version),
    ensures
        has_version(post, version@),
{
}

/// Law (round trip, second half): removing a batch that names the
/// active version leaves the active state unset and that version
/// absent from any listing.
pub proof fn lemma_remove_active_unsets(pre: Store, post: Store, versions: Seq<String>,
    version: String)
    requires
        pre.wf(),
        pre.active is Some,
        pre.active->0@ == version@,
        name_listed(versions, version@),
        forall|x: Installation| #[trigger] post.installed@.contains(x)
            <==> (pre.installed@.contains(x) && !name_listed(versions, x.version@)),
        post.active == (
            if pre.active is Some && name_listed(versions, pre.active->0@) {
                Option::<String>::None
            } else {
                pre.active
            }),
    ensures
        post.active is None,
        !has_version(post, version@),
{
    if has_version(post, version@) {
        let i = choose|i: int| 0 <= i < post.installed@.len()
            && (#[trigger] post.installed@[i]).version@ == version@;
        let x = post.installed@[i];
        assert(post.installed@.contains(x));
        assert(!name_listed(versions, x.version@));
        assert(false);
    }
}

} // verus!
