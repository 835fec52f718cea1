//! The on-disk store of installed versions, modeled as plain values:
//! the set of version-named directories (each with the binaries it
//! ships) and the active-version state. Activation and removal are
//! state transitions that also return the exact sequence of filesystem
//! actions the caller must perform, in order, to make the disk match.

use vstd::prelude::*;
use crate::ranges::{parsed_triple, parse_version};

verus! {

/// One installed version: its directory name and the binaries in its
/// binary directory.
#[derive(Debug)]
pub struct Installation {
    pub version: String,
    pub binaries: Vec<String>,
}

/// The store: every installed version, and which one (if any) the
/// active-version link or marker points to.
#[derive(Debug)]
pub struct Store {
    pub installed: Vec<Installation>,
    pub active: Option<String>,
}

/// How activation and removal touch the disk. POSIX activation works
/// over a `current` link and a per-binary link farm; Windows works over
/// a copied executable and a marker file.
#[derive(Debug, Clone, PartialEq, Eq)]
pub enum FsAction {
    /// Remove the link-farm entry with this name.
    RemoveLink(String),
    /// Remove the `current` link in the storage root.
    RemoveCurrentLink,
    /// Link the named version's binary directory as `current`.
    CreateCurrentLink(String),
    /// Link the named binary of the named version into the link farm,
    /// overwriting a stale entry.
    CreateLink(String, String),
    /// Copy the named version's runtime executable over the current
    /// executable, going through a temporary name so a failed copy
    /// leaves the previous executable in place.
    CopyExeReplace(String),
    /// Record the named version in the active-version marker file.
    WriteMarker(String),
    /// Remove the current runtime executable.
    RemoveCurrentExe,
    /// Clear the active-version marker file.
    RemoveMarker,
    /// Delete the named version's directory tree.
    RemoveVersionDir(String),
}

/// Which activation strategy the target uses.
#[derive(Clone, Copy, PartialEq, Eq, Structural, Debug)]
pub enum Platform {
    Posix,
    Windows,
}

/// Why a store operation was refused.
#[derive(Clone, Copy, PartialEq, Eq, Structural, Debug)]
pub enum StoreError {
    /// The requested version has no installed directory.
    NotInstalled,
    /// No version is installed at all.
    NothingInstalled,
}

/// Whether some installed directory is named by this version string.
pub open spec fn has_version(s: Store, v: Seq<char>) -> bool {
    exists|i: int| 0 <= i < s.installed@.len() && (#[trigger] s.installed@[i]).version@ == v
}

/// The position of the installed directory named by this version
/// string.
pub open spec fn index_of(s: Store, v: Seq<char>) -> int {
    choose|i: int| 0 <= i < s.installed@.len() && (#[trigger] s.installed@[i]).version@ == v
}

/// The binaries shipped by the installed version of this name.
pub open spec fn binaries_of(s: Store, v: Seq<char>) -> Seq<String>
    recommends
        has_version(s, v),
{
    s.installed@[index_of(s, v)].binaries@
}

impl Store {
    /// The store is well formed when installed names are unique, none
    /// of them takes the name reserved for the active-version link,
    /// and the active-version state points at an installed version.
    pub open spec fn wf(self) -> bool {
        &&& forall|i: int, j: int| 0 <= i < j < self.installed@.len()
            ==> (#[trigger] self.installed@[i]).version@
                != (#[trigger] self.installed@[j]).version@
        &&& forall|i: int| 0 <= i < self.installed@.len()
            ==> (#[trigger] self.installed@[i]).version@ != "current"@
        &&& match self.active {
            Option::Some(a) => has_version(self, a@),
            Option::None => true,
        }
    }
}

/// In a well-formed store, an installed entry is the one its name
/// indexes, so its binaries are `binaries_of` its name.
pub proof fn lemma_member_binaries(s: Store, x: Installation)
    requires
        s.wf(),
        s.installed@.contains(x),
    ensures
        has_version(s, x.version@),
        binaries_of(s, x.version@) == x.binaries@,
{
    let i = choose|i: int| 0 <= i < s.installed@.len() && s.installed@[i] == x;
    assert(s.installed@[i].version@ == x.version@);
    let j = index_of(s, x.version@);
    assert(0 <= j < s.installed@.len() && s.installed@[j].version@ == x.version@);
    if i != j {
        assert(false);
    }
}

/// The teardown actions that clear the active-version state.
pub open spec fn clear_active_actions(s: Store, platform: Platform) -> Seq<FsAction>
    recommends
        s.active is Some,
{
    match platform {
        Platform::Posix => binaries_of(s, s.active->0@).map_values(
            |b: String| FsAction::RemoveLink(b),
        ) + seq![FsAction::RemoveCurrentLink],
        Platform::Windows => seq![FsAction::RemoveCurrentExe, FsAction::RemoveMarker],
    }
}

/// The actions that activate a version: on POSIX, tear down the old
/// link farm and `current` link, then link the new version's binary
/// directory and every binary in it; on Windows, replace the current
/// executable and rewrite the marker.
pub open spec fn activation_actions(s: Store, v: String, platform: Platform) -> Seq<FsAction>
    recommends
        has_version(s, v@),
{
    match platform {
        Platform::Posix => (match s.active {
            Option::Some(_) => clear_active_actions(s, Platform::Posix),
            Option::None => seq![],
        }) + seq![FsAction::CreateCurrentLink(v)] + binaries_of(s, v@).map_values(
            |b: String| FsAction::CreateLink(b, v),
        ),
        Platform::Windows => seq![FsAction::CopyExeReplace(v), FsAction::WriteMarker(v)],
    }
}

impl Store {
    /// Finds the installed directory named by this version string.
    pub fn find_version(&self, v: &String) -> (r: Option<usize>)
        ensures
            match r {
                Option::Some(i) => 0 <= i < self.installed@.len()
                    && self.installed@[i as int].version@ == v@,
                Option::None => !has_version(*self, v@),
            },
    {
        let n = self.installed.len();
        let mut i: usize = 0;
        while i < n
            invariant
                n == self.installed@.len(),
                0 <= i <= n,
                forall|j: int| 0 <= j < i
                    ==> (#[trigger] self.installed@[j]).version@ != v@,
            decreases n - i,
        {
            if self.installed[i].version == *v {
                return Option::Some(i);
            }
            i += 1;
        }
        Option::None
    }

    /// Lists the installed version names. Refused when nothing is
    /// installed.
    pub fn list(&self) -> (r: Result<Vec<String>, StoreError>)
        ensures
            match r {
                Result::Ok(names) => {
                    &&& self.installed@.len() > 0
                    &&& names@.len() == self.installed@.len()
                    &&& forall|i: int| 0 <= i < names@.len()
                        ==> (#[trigger] names@[i])@ == self.installed@[i].version@
                },
                Result::Err(e) => self.installed@.len() == 0
                    && e == StoreError::NothingInstalled,
            },
    {
        let n = self.installed.len();
        if n == 0 {
            return Result::Err(StoreError::NothingInstalled);
        }
        let mut names: Vec<String> = Vec::new();
        let mut i: usize = 0;
        while i < n
            invariant
                n == self.installed@.len(),
                0 <= i <= n,
                names@.len() == i,
                forall|j: int| 0 <= j < i
                    ==> (#[trigger] names@[j])@ == self.installed@[j].version@,
            decreases n - i,
        {
            names.push(self.installed[i].version.clone());
            i += 1;
        }
        Result::Ok(names)
    }

    /// Activates an installed version: the store keeps the same
    /// installed set, the active-version state moves to the requested
    /// version, and the returned actions are exactly the teardown and
    /// build-up steps `activation_actions` describes. Fails, changing
    /// nothing, when the version is not installed.
    pub fn activate(&mut self, version: &String, platform: Platform)
        -> (r: Result<Vec<FsAction>, StoreError>)
        requires
            old(self).wf(),
        ensures
            (r is Ok) <==> has_version(*old(self), version@),
            match r {
                Result::Ok(plan) => {
                    &&& final(self).installed == old(self).installed
                    &&& final(self).active == Some(*version)
                    &&& final(self).wf()
                    &&& plan@ == activation_actions(*old(self), *version, platform)
                },
                Result::Err(e) => {
                    &&& *final(self) == *old(self)
                    &&& e == StoreError::NotInstalled
                },
            },
    {
        let idx = match self.find_version(version) {
            Option::Some(i) => i,
            Option::None => {
                return Result::Err(StoreError::NotInstalled);
            },
        };
        let ghost old_s = *self;
        let mut plan: Vec<FsAction> = Vec::new();
        match platform {
            Platform::Posix => {
                let mut had_active = false;
                let mut aidx: usize = 0;
                match &self.active {
                    Option::Some(a) => {
                        match self.find_version(a) {
                            Option::Some(i) => {
                                had_active = true;
                                aidx = i;
                            },
                            Option::None => {
                                proof {
                                    assert(false);
                                }
                            },
                        }
                    },
                    Option::None => {},
                }
                if had_active {
                    proof {
                        let x = old_s.installed@[aidx as int];
                        assert(old_s.installed@.contains(x));
                        lemma_member_binaries(old_s, x);
                        assert(x.binaries@ == binaries_of(old_s, old_s.active->0@));
                    }
                    let m = self.installed[aidx].binaries.len();
                    let mut k: usize = 0;
                    while k < m
                        invariant
                            *self == old_s,
                            old_s.wf(),
                            0 <= aidx < self.installed@.len(),
                            m == self.installed@[aidx as int].binaries@.len(),
                            old_s.active is Some,
                            self.installed@[aidx as int].binaries@
                                == binaries_of(old_s, old_s.active->0@),
                            0 <= k <= m,
                            plan@ == binaries_of(old_s, old_s.active->0@).take(k as int)
                                .map_values(|b: String| FsAction::RemoveLink(b)),
                        decreases m - k,
                    {
                        plan.push(FsAction::RemoveLink(self.installed[aidx].binaries[k].clone()));
                        proof {
                            assert(plan@ =~= binaries_of(old_s, old_s.active->0@)
                                .take(k as int + 1)
                                .map_values(|b: String| FsAction::RemoveLink(b)));
                        }
                        k += 1;
                    }
                    plan.push(FsAction::RemoveCurrentLink);
                    proof {
                        assert(binaries_of(old_s, old_s.active->0@).take(m as int)
                            =~= binaries_of(old_s, old_s.active->0@));
                        assert(plan@ =~= clear_active_actions(old_s, Platform::Posix));
                    }
                }
                plan.push(FsAction::CreateCurrentLink(version.clone()));
                proof {
                    let x = old_s.installed@[idx as int];
                    assert(old_s.installed@.contains(x));
                    lemma_member_binaries(old_s, x);
                    assert(x.binaries@ == binaries_of(old_s, version@));
                }
                let ghost base = plan@;
                let m = self.installed[idx].binaries.len();
                let mut k: usize = 0;
                while k < m
                    invariant
                        *self == old_s,
                        0 <= idx < self.installed@.len(),
                        m == self.installed@[idx as int].binaries@.len(),
                        self.installed@[idx as int].binaries@ == binaries_of(old_s, version@),
                        0 <= k <= m,
                        plan@ == base + binaries_of(old_s, version@).take(k as int)
                            .map_values(|b: String| FsAction::CreateLink(b, *version)),
                    decreases m - k,
                {
                    plan.push(FsAction::CreateLink(
                        self.installed[idx].binaries[k].clone(),
                        version.clone(),
                    ));
                    proof {
                        assert(plan@ =~= base + binaries_of(old_s, version@)
                            .take(k as int + 1)
                            .map_values(|b: String| FsAction::CreateLink(b, *version)));
                    }
                    k += 1;
                }
                proof {
                    assert(binaries_of(old_s, version@).take(m as int)
                        =~= binaries_of(old_s, version@));
                    assert(plan@ =~= activation_actions(old_s, *version, Platform::Posix));
                }
            },
            Platform::Windows => {
                plan.push(FsAction::CopyExeReplace(version.clone()));
                plan.push(FsAction::WriteMarker(version.clone()));
                proof {
                    assert(plan@ =~= activation_actions(old_s, *version, Platform::Windows));
                }
            },
        }
        self.active = Option::Some(version.clone());
        proof {
            assert(self.installed@[idx as int].version@ == version@);
            assert(has_version(*self, version@));
        }
        Result::Ok(plan)
    }
}

/// Why removing a batch of versions was refused before any deletion.
#[derive(Clone, Copy, PartialEq, Eq, Structural, Debug)]
pub enum RemoveErrorKind {
    /// The request does not parse as a version.
    InvalidVersion,
    /// The requested version has no installed directory.
    NotInstalled,
    /// The batch holds no request at all.
    NothingRequested,
}

/// The first removal request that failed pre-flight validation, by
/// position.
#[derive(Clone, Copy, PartialEq, Eq, Structural, Debug)]
pub struct RemoveError {
    pub index: usize,
    pub kind: RemoveErrorKind,
}

/// Whether some requested string names this version.
pub open spec fn name_listed(versions: Seq<String>, n: Seq<char>) -> bool {
    exists|i: int| 0 <= i < versions.len() && (#[trigger] versions[i])@ == n
}

/// Whether pre-flight validation rejects the request at position `i`:
/// it is malformed, or names nothing installed.
pub open spec fn remove_rejects_at(s: Store, versions: Seq<String>, i: int) -> bool {
    0 <= i < versions.len()
    && (parsed_triple(versions[i]@) is None || !has_version(s, versions[i]@))
}

/// Whether processing position `j` is the step that clears the active
/// state: the request names the active version and no earlier request
/// did.
pub open spec fn clears_active_at(s: Store, versions: Seq<String>, j: int) -> bool {
    &&& s.active is Some
    &&& 0 <= j < versions.len()
    &&& versions[j]@ == s.active->0@
    &&& forall|k: int| 0 <= k < j ==> (#[trigger] versions[k])@ != s.active->0@
}

/// The actions taken for the request at position `j`: clear the active
/// state first if this request names the (still) active version, then
/// delete the version directory.
pub open spec fn removal_step_actions(s: Store, versions: Seq<String>, platform: Platform,
    j: int) -> Seq<FsAction>
{
    (if clears_active_at(s, versions, j) {
        clear_active_actions(s, platform)
    } else {
        seq![]
    }) + seq![FsAction::RemoveVersionDir(versions[j])]
}

/// The actions taken for the first `n` requests, in request order.
pub open spec fn removal_actions_upto(s: Store, versions: Seq<String>, platform: Platform,
    n: int) -> Seq<FsAction>
    decreases n,
{
    if n <= 0 {
        seq![]
    } else {
        removal_actions_upto(s, versions, platform, n - 1)
            + removal_step_actions(s, versions, platform, n - 1)
    }
}

/// The actions that remove a whole batch of versions.
pub open spec fn removal_actions(s: Store, versions: Seq<String>, platform: Platform)
    -> Seq<FsAction>
{
    removal_actions_upto(s, versions, platform, versions.len() as int)
}

impl Store {
    /// Removes a batch of versions. The whole batch is validated
    /// before anything is deleted: the first malformed or
    /// not-installed request refuses the batch and changes nothing.
    /// Otherwise every listed version leaves the store; if the active
    /// version is among them, the active state is cleared before its
    /// directory goes, exactly as `removal_actions` describes.
    pub fn remove_all(&mut self, versions: &Vec<String>, platform: Platform)
        -> (r: Result<Vec<FsAction>, RemoveError>)
        requires
            old(self).wf(),
        ensures
            (r is Err) <==> (exists|i: int| remove_rejects_at(*old(self), versions@, i)),
            match r {
                Result::Err(e) => {
                    &&& *final(self) == *old(self)
                    &&& remove_rejects_at(*old(self), versions@, e.index as int)
                    &&& forall|j: int| 0 <= j < e.index
                        ==> !remove_rejects_at(*old(self), versions@, j)
                    &&& e.kind == (if parsed_triple(versions@[e.index as int]@) is None {
                            RemoveErrorKind::InvalidVersion
                        } else {
                            RemoveErrorKind::NotInstalled
                        })
                },
                Result::Ok(plan) => {
                    &&& forall|x: Installation| #[trigger] final(self).installed@.contains(x)
                        <==> (old(self).installed@.contains(x)
                            && !name_listed(versions@, x.version@))
                    &&& final(self).active == (
                        if old(self).active is Some
                            && name_listed(versions@, old(self).active->0@) {
                            Option::<String>::None
                        } else {
                            old(self).active
                        })
                    &&& final(self).wf()
                    &&& plan@ == removal_actions(*old(self), versions@, platform)
                },
            },
    {
        let n = versions.len();
        let mut i: usize = 0;
        while i < n
            invariant
                n == versions@.len(),
                0 <= i <= n,
                *self == *old(self),
                old(self).wf(),
                forall|j: int| 0 <= j < i ==> !remove_rejects_at(*old(self), versions@, j),
            decreases n - i,
        {
            match parse_version(versions[i].as_str()) {
                Option::None => {
                    proof {
                        assert(remove_rejects_at(*old(self), versions@, i as int));
                    }
                    return Result::Err(RemoveError {
                        index: i,
                        kind: RemoveErrorKind::InvalidVersion,
                    });
                },
                Option::Some(_) => {},
            }
            match self.find_version(&versions[i]) {
                Option::None => {
                    proof {
                        assert(!has_version(*old(self), versions@[i as int]@));
                        assert(remove_rejects_at(*old(self), versions@, i as int));
                    }
                    return Result::Err(RemoveError {
                        index: i,
                        kind: RemoveErrorKind::NotInstalled,
                    });
                },
                Option::Some(ix) => {
                    proof {
                        assert(self.installed@[ix as int].version@ == versions@[i as int]@);
                        assert(has_version(*self, versions@[i as int]@));
                    }
                },
            }
            i += 1;
        }

        let ghost old_s = *old(self);
        let mut plan: Vec<FsAction> = Vec::new();
        let mut i: usize = 0;
        while i < n
            invariant
                n == versions@.len(),
                0 <= i <= n,
                old_s == *old(self),
                old_s.wf(),
                self.wf(),
                forall|j: int| 0 <= j < n ==> !remove_rejects_at(old_s, versions@, j),
                forall|x: Installation| #[trigger] self.installed@.contains(x)
                    <==> (old_s.installed@.contains(x)
                        && !name_listed(versions@.take(i as int), x.version@)),
                self.active == (
                    if old_s.active is Some
                        && name_listed(versions@.take(i as int), old_s.active->0@) {
                        Option::<String>::None
                    } else {
                        old_s.active
                    }),
                plan@ == removal_actions_upto(old_s, versions@, platform, i as int),
            decreases n - i,
        {
            proof {
                assert(forall|k: int| 0 <= k < i
                    ==> (#[trigger] versions@.take(i as int)[k]) == versions@[k]);
            }
            let v = &versions[i];
            let ghost iter_active = self.active;
            let is_active = match &self.active {
                Option::Some(a) => *a == *v,
                Option::None => false,
            };
            proof {
                match iter_active {
                    Option::Some(a) => {
                        assert(is_active == (a@ == versions@[i as int]@));
                    },
                    Option::None => {
                        assert(!is_active);
                    },
                }
            }
            let ghost base = plan@;
            if is_active {
                proof {
                    assert(old_s.active is Some && self.active == old_s.active);
                    assert(clears_active_at(old_s, versions@, i as int)) by {
                        assert(!name_listed(versions@.take(i as int), old_s.active->0@));
                        assert forall|k: int| 0 <= k < i
                            implies (#[trigger] versions@[k])@ != old_s.active->0@ by {
                            if versions@[k]@ == old_s.active->0@ {
                                assert(versions@.take(i as int)[k]@ == old_s.active->0@);
                            }
                        }
                    }
                }
                match platform {
                    Platform::Posix => {
                        let aidx = match self.find_version(v) {
                            Option::Some(ix) => ix,
                            Option::None => {
                                proof {
                                    let w = old_s.installed@[index_of(old_s, v@)];
                                    assert(has_version(old_s, v@));
                                    assert(old_s.installed@.contains(w));
                                    assert(self.installed@.contains(w));
                                    assert(false);
                                }
                                0
                            },
                        };
                        proof {
                            let y = self.installed@[aidx as int];
                            assert(self.installed@.contains(y));
                            assert(old_s.installed@.contains(y));
                            lemma_member_binaries(old_s, y);
                            assert(y.binaries@ == binaries_of(old_s, old_s.active->0@));
                        }
                        let m = self.installed[aidx].binaries.len();
                        let mut k: usize = 0;
                        while k < m
                            invariant
                                0 <= aidx < self.installed@.len(),
                                m == self.installed@[aidx as int].binaries@.len(),
                                old_s.active is Some,
                                self.installed@[aidx as int].binaries@
                                    == binaries_of(old_s, old_s.active->0@),
                                0 <= k <= m,
                                plan@ == base + binaries_of(old_s, old_s.active->0@)
                                    .take(k as int)
                                    .map_values(|b: String| FsAction::RemoveLink(b)),
                            decreases m - k,
                        {
                            plan.push(FsAction::RemoveLink(
                                self.installed[aidx].binaries[k].clone(),
                            ));
                            proof {
                                assert(plan@ =~= base
                                    + binaries_of(old_s, old_s.active->0@)
                                        .take(k as int + 1)
                                        .map_values(|b: String| FsAction::RemoveLink(b)));
                            }
                            k += 1;
                        }
                        plan.push(FsAction::RemoveCurrentLink);
                        proof {
                            assert(binaries_of(old_s, old_s.active->0@).take(m as int)
                                =~= binaries_of(old_s, old_s.active->0@));
                            assert(plan@ =~= base
                                + clear_active_actions(old_s, Platform::Posix));
                        }
                    },
                    Platform::Windows => {
                        plan.push(FsAction::RemoveCurrentExe);
                        plan.push(FsAction::RemoveMarker);
                        proof {
                            assert(plan@ =~= base
                                + clear_active_actions(old_s, Platform::Windows));
                        }
                    },
                }
                self.active = Option::None;
            } else {
                proof {
                    assert(!clears_active_at(old_s, versions@, i as int)) by {
                        if clears_active_at(old_s, versions@, i as int) {
                            assert(!name_listed(versions@.take(i as int),
                                old_s.active->0@));
                            assert(self.active == old_s.active);
                        }
                    }
                }
            }
            let ghost mid = plan@;
            plan.push(FsAction::RemoveVersionDir(v.clone()));
            proof {
                assert(plan@ =~= mid + seq![FsAction::RemoveVersionDir(versions@[i as int])]);
                assert(plan@ =~= removal_actions_upto(old_s, versions@, platform,
                    i as int + 1));
            }
            let ghost pre = self.installed@;
            match self.find_version(v) {
                Option::Some(idx) => {
                    proof {
                        assert(pre[idx as int].version@ == v@);
                    }
                    self.installed.remove(idx);
                    proof {
                        assert forall|x: Installation| #[trigger] self.installed@.contains(x)
                            implies (pre.contains(x) && x.version@ != v@) by {
                            let c = choose|c: int| 0 <= c < self.installed@.len()
                                && self.installed@[c] == x;
                            if c < idx {
                                assert(pre[c] == x);
                                assert(x.version@ != v@);
                            } else {
                                assert(pre[c + 1] == x);
                                assert(x.version@ != v@);
                            }
                        }
                        assert forall|x: Installation| pre.contains(x) && x.version@ != v@
                            implies #[trigger] self.installed@.contains(x) by {
                            let c = choose|c: int| 0 <= c < pre.len() && pre[c] == x;
                            if c < idx {
                                assert(self.installed@[c] == x);
                            } else {
                                assert(c > idx);
                                assert(self.installed@[c - 1] == x);
                            }
                        }
                    }
                },
                Option::None => {
                    proof {
                        assert forall|x: Installation| #[trigger] self.installed@.contains(x)
                            implies x.version@ != v@ by {
                            if x.version@ == v@ {
                                let c = choose|c: int| 0 <= c < self.installed@.len()
                                    && self.installed@[c] == x;
                                assert(self.installed@[c].version@ == v@);
                            }
                        }
                    }
                },
            }
            proof {
                assert(versions@.take(i as int + 1)
                    =~= versions@.take(i as int).push(versions@[i as int]));
                assert forall|x: Installation| #[trigger] self.installed@.contains(x)
                    <==> (old_s.installed@.contains(x)
                        && !name_listed(versions@.take(i as int + 1), x.version@)) by {
                    broadcast use vstd::seq_lib::lemma_seq_contains_after_push;
                    if self.installed@.contains(x) {
                        assert(pre.contains(x) || self.installed@ == pre);
                        assert(old_s.installed@.contains(x));
                        assert(x.version@ != v@);
                        assert(!name_listed(versions@.take(i as int), x.version@));
                        assert(!name_listed(versions@.take(i as int + 1), x.version@)) by {
                            if name_listed(versions@.take(i as int + 1), x.version@) {
                                let c = choose|c: int| 0 <= c
                                    < versions@.take(i as int + 1).len()
                                    && (#[trigger] versions@.take(i as int + 1)[c])@
                                        == x.version@;
                                if c < i {
                                    assert(versions@.take(i as int)[c]@ == x.version@);
                                } else {
                                    assert(versions@[i as int]@ == x.version@);
                                }
                            }
                        }
                    } else {
                        if old_s.installed@.contains(x)
                            && !name_listed(versions@.take(i as int + 1), x.version@) {
                            assert(versions@.take(i as int + 1)[i as int]@ == v@);
                            assert(!name_listed(versions@.take(i as int), x.version@)) by {
                                if name_listed(versions@.take(i as int), x.version@) {
                                    let c = choose|c: int| 0 <= c
                                        < versions@.take(i as int).len()
                                        && (#[trigger] versions@.take(i as int)[c])@
                                            == x.version@;
                                    assert(versions@.take(i as int + 1)[c]@
                                        == x.version@);
                                }
                            }
                            assert(pre.contains(x));
                            assert(x.version@ != v@);
                            assert(self.installed@.contains(x));
                        }
                    }
                }
                assert(self.wf()) by {
                    assert forall|a: int, b: int| 0 <= a < b < self.installed@.len()
                        implies (#[trigger] self.installed@[a]).version@
                            != (#[trigger] self.installed@[b]).version@ by {
                        let xa = self.installed@[a];
                        let xb = self.installed@[b];
                        assert(self.installed@.contains(xa));
                        assert(self.installed@.contains(xb));
                        assert(pre.contains(xa) && pre.contains(xb));
                        if xa.version@ == xb.version@ {
                            let ca = choose|c: int| 0 <= c < pre.len() && pre[c] == xa;
                            let cb = choose|c: int| 0 <= c < pre.len() && pre[c] == xb;
                            assert(pre[ca].version@ == pre[cb].version@);
                            assert(ca == cb);
                            assert(xa == xb);
                            assert(false);
                        }
                    }
                    assert forall|c: int| 0 <= c < self.installed@.len()
                        implies (#[trigger] self.installed@[c]).version@ != "current"@ by {
                        let x = self.installed@[c];
                        assert(self.installed@.contains(x));
                        assert(pre.contains(x));
                    }
                    match self.active {
                        Option::Some(a) => {
                            assert(self.active == old_s.active);
                            assert(!name_listed(versions@.take(i as int + 1), a@));
                            let w = old_s.installed@[index_of(old_s, a@)];
                            assert(has_version(old_s, a@));
                            assert(old_s.installed@.contains(w));
                            assert(self.installed@.contains(w));
                        },
                        Option::None => {},
                    }
                }
                assert(self.active == (
                    if old_s.active is Some
                        && name_listed(versions@.take(i as int + 1), old_s.active->0@) {
                        Option::<String>::None
                    } else {
                        old_s.active
                    })) by {
                    if old_s.active is Some {
                        let a = old_s.active->0;
                        if is_active {
                            assert(iter_active == old_s.active);
                            assert(versions@.take(i as int + 1)[i as int]@ == a@);
                            assert(name_listed(versions@.take(i as int + 1), a@));
                            assert(self.active is None);
                        } else if iter_active is None {
                            assert(name_listed(versions@.take(i as int), a@));
                            let c = choose|c: int| 0 <= c < versions@.take(i as int).len()
                                && (#[trigger] versions@.take(i as int)[c])@ == a@;
                            assert(versions@.take(i as int + 1)[c]@ == a@);
                            assert(name_listed(versions@.take(i as int + 1), a@));
                        } else {
                            assert(!name_listed(versions@.take(i as int + 1), a@)) by {
                                if name_listed(versions@.take(i as int + 1), a@) {
                                    let c = choose|c: int| 0 <= c
                                        < versions@.take(i as int + 1).len()
                                        && (#[trigger] versions@.take(i as int + 1)[c])@
                                            == a@;
                                    if c < i {
                                        assert(versions@.take(i as int)[c]@ == a@);
                                    } else {
                                        assert(versions@[i as int]@ == a@);
                                    }
                                }
                            }
                        }
                    }
                }
            }
            i += 1;
        }
        proof {
            assert(versions@.take(n as int) =~= versions@);
            assert(forall|j: int| !remove_rejects_at(*old(self), versions@, j));
        }
        Result::Ok(plan)
    }
}

} // verus!
