//! The version-management commands: list, switch, install and remove,
//! each a thin, fully specified entry point over the resolver, the
//! install planner and the store transitions.

use vstd::prelude::*;
use crate::catalog::{CatalogEntry, Os, Arch};
use crate::install::{InstallUnit, InstallStep, plan_install, artifact_url_spec,
    artifact_archive_spec, artifact_tarball_spec, artifact_base_spec};
use crate::resolver::{resolve_all, ResolveError, ResolveErrorKind, fails_at,
    some_spec_resolves_to, outcome_of};
use crate::semver::{SemVer, ver_str};
use crate::store::{Store, StoreError, FsAction, Platform, RemoveError, RemoveErrorKind,
    has_version, activation_actions, removal_actions, remove_rejects_at, name_listed,
    Installation};
use crate::ranges::parsed_triple;

verus! {

/// Enumerate the installed versions.
pub struct NodeList {}

/// Switch the active version.
pub struct NodeUse {
    /// The version to switch to.
    pub version: String,
}

/// Install one or more versions.
pub struct NodeInstall {
    /// The specifiers to resolve and install.
    pub versions: Vec<String>,
}

/// Remove one or more installed versions.
pub struct NodeRemove {
    /// The versions to remove.
    pub versions: Vec<String>,
}

/// The subcommands of version management.
pub enum NodeCommand {
    Use(NodeUse),
    Install(NodeInstall),
    Remove(NodeRemove),
    List(NodeList),
}

/// The version-management command: one subcommand to dispatch.
pub struct Node {
    pub cmd: NodeCommand,
}

/// What listing returns: every installed name in store order, or a
/// refusal when nothing is installed.
pub open spec fn list_post(s: Store, r: Result<Vec<String>, StoreError>) -> bool {
    match r {
        Result::Ok(names) => {
            &&& s.installed@.len() > 0
            &&& names@.len() == s.installed@.len()
            &&& forall|i: int| 0 <= i < names@.len()
                ==> (#[trigger] names@[i])@ == s.installed@[i].version@
        },
        Result::Err(e) => s.installed@.len() == 0 && e == StoreError::NothingInstalled,
    }
}

/// What switching leaves behind: the activation transition and its
/// action plan on success, an untouched store on refusal.
pub open spec fn use_post(pre: Store, post: Store, version: String, platform: Platform,
    r: Result<Vec<FsAction>, StoreError>) -> bool
{
    &&& ((r is Ok) <==> has_version(pre, version@))
    &&& match r {
        Result::Ok(plan) => {
            &&& post.installed == pre.installed
            &&& post.active == Some(version)
            &&& post.wf()
            &&& plan@ == activation_actions(pre, version, platform)
        },
        Result::Err(e) => post == pre && e == StoreError::NotInstalled,
    }
}

/// What removal leaves behind: an empty batch is refused outright; a
/// batch with a malformed or not-installed request is refused at its
/// first such position before anything is deleted; otherwise every
/// listed version leaves the store, the active state is cleared if its
/// version was listed, and the action plan is exactly the removal
/// sequence.
pub open spec fn remove_post(pre: Store, post: Store, versions: Seq<String>,
    platform: Platform, r: Result<Vec<FsAction>, RemoveError>) -> bool
{
    if versions.len() == 0 {
        &&& r == Result::<Vec<FsAction>, RemoveError>::Err(RemoveError {
            index: 0,
            kind: RemoveErrorKind::NothingRequested,
        })
        &&& post == pre
    } else {
        &&& ((r is Err) <==> (exists|i: int| remove_rejects_at(pre, versions, i)))
        &&& match r {
            Result::Err(e) => {
                &&& post == pre
                &&& remove_rejects_at(pre, versions, e.index as int)
                &&& forall|j: int| 0 <= j < e.index ==> !remove_rejects_at(pre, versions, j)
                &&& e.kind == (if parsed_triple(versions[e.index as int]@) is None {
                        RemoveErrorKind::InvalidVersion
                    } else {
                        RemoveErrorKind::NotInstalled
                    })
            },
            Result::Ok(plan) => {
                &&& forall|x: Installation| #[trigger] post.installed@.contains(x)
                    <==> (pre.installed@.contains(x) && !name_listed(versions, x.version@))
                &&& post.active == (
                    if pre.active is Some && name_listed(versions, pre.active->0@) {
                        Option::<String>::None
                    } else {
                        pre.active
                    })
                &&& post.wf()
                &&& plan@ == removal_actions(pre, versions, platform)
            },
        }
    }
}

/// Why the install command was refused.
#[derive(Clone, Copy, PartialEq, Eq, Structural, Debug)]
pub enum InstallCmdError {
    /// No specifier was given at all.
    NothingRequested,
    /// A specifier failed to resolve.
    Resolve(ResolveError),
}

/// What install planning returns: an empty request is refused; a
/// specifier that is invalid or matches nothing refuses the batch at
/// its first such position; otherwise one planned unit per distinct
/// resolved version, ineligible requests reported by position.
pub open spec fn install_post(store: Store, cat: Seq<CatalogEntry>, specs: Seq<String>,
    x86_posix: bool, os: Os, arch: Arch, mirror: Seq<char>,
    r: Result<(Vec<InstallUnit>, Vec<usize>), InstallCmdError>) -> bool
{
    if specs.len() == 0 {
        r == Result::<(Vec<InstallUnit>, Vec<usize>), InstallCmdError>::Err(
            InstallCmdError::NothingRequested)
    } else {
        match r {
            Result::Err(e) => match e {
                InstallCmdError::NothingRequested => false,
                InstallCmdError::Resolve(re) => {
                    &&& fails_at(specs, cat, x86_posix, re.index as int)
                    &&& forall|j: int| 0 <= j < re.index ==> !fails_at(specs, cat, x86_posix, j)
                    &&& re.kind == (if outcome_of(specs[re.index as int]@, cat, x86_posix)
                            is Invalid { ResolveErrorKind::InvalidSpecifier }
                        else { ResolveErrorKind::NoMatch })
                },
            },
            Result::Ok(out) => {
                &&& forall|i: int| !fails_at(specs, cat, x86_posix, i)
                &&& forall|i: int, j: int| 0 <= i < j < out.0@.len()
                    ==> (#[trigger] out.0@[i]).version != (#[trigger] out.0@[j]).version
                &&& forall|v: SemVer| some_spec_resolves_to(specs, cat, x86_posix, v)
                    <==> (exists|i: int| 0 <= i < out.0@.len()
                        && (#[trigger] out.0@[i]).version == v)
                &&& forall|i: int| 0 <= i < out.0@.len() ==> {
                    &&& ((#[trigger] out.0@[i]).step is AlreadyInstalled
                        <==> has_version(store, ver_str(out.0@[i].version)))
                    &&& match out.0@[i].step {
                        InstallStep::AlreadyInstalled => true,
                        InstallStep::Download { url, archive, tarball, extract_dir } => {
                            &&& url@ == artifact_url_spec(mirror, out.0@[i].version, os, arch)
                            &&& archive@ == artifact_archive_spec(out.0@[i].version, os, arch)
                            &&& tarball@ == artifact_tarball_spec(out.0@[i].version, os, arch)
                            &&& extract_dir@ == artifact_base_spec(out.0@[i].version, os, arch)
                        },
                    }
                }
                &&& forall|i: int| 0 <= i < specs.len()
                    ==> (out.1@.contains(i as usize)
                        <==> #[trigger] outcome_of(specs[i]@, cat, x86_posix) is Ineligible)
            },
        }
    }
}

impl NodeList {
    /// Lists the installed versions, as `list_post` describes.
    pub fn exec(&self, store: &Store) -> (r: Result<Vec<String>, StoreError>)
        ensures
            list_post(*store, r),
    {
        store.list()
    }
}

impl NodeUse {
    /// Switches the active version, as `use_post` describes.
    pub fn exec(&self, store: &mut Store, platform: Platform)
        -> (r: Result<Vec<FsAction>, StoreError>)
        requires
            old(store).wf(),
        ensures
            use_post(*old(store), *final(store), self.version, platform, r),
    {
        store.activate(&self.version, platform)
    }
}

impl NodeRemove {
    /// Removes the requested versions, as `remove_post` describes.
    pub fn exec(&self, store: &mut Store, platform: Platform)
        -> (r: Result<Vec<FsAction>, RemoveError>)
        requires
            old(store).wf(),
        ensures
            remove_post(*old(store), *final(store), self.versions@, platform, r),
    {
        if self.versions.len() == 0 {
            return Result::Err(RemoveError {
                index: 0,
                kind: RemoveErrorKind::NothingRequested,
            });
        }
        store.remove_all(&self.versions, platform)
    }
}

impl NodeInstall {
    /// Resolves the requested specifiers and plans their install, as
    /// `install_post` describes.
    pub fn exec(&self, catalog: &Vec<CatalogEntry>, store: &Store, x86_posix: bool, os: Os,
        arch: Arch, mirror: &str)
        -> (r: Result<(Vec<InstallUnit>, Vec<usize>), InstallCmdError>)
        ensures
            install_post(*store, catalog@, self.versions@, x86_posix, os, arch, mirror@, r),
    {
        if self.versions.len() == 0 {
            return Result::Err(InstallCmdError::NothingRequested);
        }
        let (resolved, skipped) = match resolve_all(&self.versions, catalog, x86_posix) {
            Result::Ok(out) => out,
            Result::Err(e) => {
                return Result::Err(InstallCmdError::Resolve(e));
            },
        };
        let units = plan_install(store, &resolved, os, arch, mirror);
        proof {
            assert forall|v: SemVer|
                some_spec_resolves_to(self.versions@, catalog@, x86_posix, v)
                implies (exists|i: int| 0 <= i < units@.len()
                    && (#[trigger] units@[i]).version == v) by {
                assert(resolved@.contains(v));
                let i = choose|i: int| 0 <= i < resolved@.len() && resolved@[i] == v;
                assert(units@[i].version == v);
            }
            assert forall|i: int| 0 <= i < units@.len()
                implies some_spec_resolves_to(self.versions@, catalog@, x86_posix,
                    (#[trigger] units@[i]).version) by {
                assert(resolved@[i] == units@[i].version);
                assert(resolved@.contains(resolved@[i]));
            }
        }
        Result::Ok((units, skipped))
    }
}

/// How a dispatched command reports back.
pub enum CommandOutcome {
    Listed(Result<Vec<String>, StoreError>),
    Switched(Result<Vec<FsAction>, StoreError>),
    Planned(Result<(Vec<InstallUnit>, Vec<usize>), InstallCmdError>),
    Removed(Result<Vec<FsAction>, RemoveError>),
}

impl Node {
    /// Dispatches to the chosen subcommand; each arm's result is what
    /// that subcommand's own contract describes.
    pub fn exec(&self, store: &mut Store, catalog: &Vec<CatalogEntry>, platform: Platform,
        x86_posix: bool, os: Os, arch: Arch, mirror: &str) -> (r: CommandOutcome)
        requires
            old(store).wf(),
        ensures
            match self.cmd {
                NodeCommand::List(_) => {
                    &&& *final(store) == *old(store)
                    &&& r matches CommandOutcome::Listed(lr) && list_post(*old(store), lr)
                },
                NodeCommand::Use(u) => r matches CommandOutcome::Switched(ur)
                    && use_post(*old(store), *final(store), u.version, platform, ur),
                NodeCommand::Install(ins) => {
                    &&& *final(store) == *old(store)
                    &&& r matches CommandOutcome::Planned(pr)
                        && install_post(*old(store), catalog@, ins.versions@, x86_posix, os,
                            arch, mirror@, pr)
                },
                NodeCommand::Remove(rm) => r matches CommandOutcome::Removed(rr)
                    && remove_post(*old(store), *final(store), rm.versions@, platform, rr),
            },
    {
        match &self.cmd {
            NodeCommand::List(c) => CommandOutcome::Listed(c.exec(store)),
            NodeCommand::Use(c) => CommandOutcome::Switched(c.exec(store, platform)),
            NodeCommand::Install(c) => CommandOutcome::Planned(
                c.exec(catalog, store, x86_posix, os, arch, mirror)),
            NodeCommand::Remove(c) => CommandOutcome::Removed(c.exec(store, platform)),
        }
    }
}

} // verus!
