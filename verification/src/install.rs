//! Install planning and accounting. For every resolved version this
//! builds the artifact names the mirror serves, short-circuits versions
//! that are already installed, unpacks the downloaded archive's outer
//! compression, and records per-version completions in the store. Each
//! version's unit of work is independent: one unit's failure leaves
//! every other unit's record intact.

use vstd::prelude::*;
use crate::semver::{SemVer, ver_str, version_string};
use crate::catalog::{Os, Arch, os_label_spec, arch_label_spec};
use crate::store::{Store, Installation, has_version, binaries_of, lemma_member_binaries};

verus! {

/// The base name of a release artifact: `node-v<version>-<os>-<arch>`.
pub open spec fn artifact_base_spec(v: SemVer, os: Os, arch: Arch) -> Seq<char> {
    "node-v"@ + ver_str(v) + "-"@ + os_label_spec(os) + "-"@ + arch_label_spec(arch)
}

/// The archive the mirror serves: the base name plus `.tar.xz`.
pub open spec fn artifact_archive_spec(v: SemVer, os: Os, arch: Arch) -> Seq<char> {
    artifact_base_spec(v, os, arch) + ".tar.xz"@
}

/// The tarball inside the archive: the base name plus `.tar`.
pub open spec fn artifact_tarball_spec(v: SemVer, os: Os, arch: Arch) -> Seq<char> {
    artifact_base_spec(v, os, arch) + ".tar"@
}

/// The download address: `<mirror>/v<version>/<archive>`.
pub open spec fn artifact_url_spec(mirror: Seq<char>, v: SemVer, os: Os, arch: Arch)
    -> Seq<char>
{
    mirror + "/v"@ + ver_str(v) + "/"@ + artifact_archive_spec(v, os, arch)
}

/// Builds the artifact base name, as `artifact_base_spec` describes.
pub fn artifact_base(v: &SemVer, os: Os, arch: Arch) -> (r: String)
    ensures
        r@ == artifact_base_spec(*v, os, arch),
{
    let prefix: &str = "node-v";
    let dash: &str = "-";
    let mut s = prefix.to_owned();
    let ver = version_string(v);
    s.append(ver.as_str());
    s.append(dash);
    s.append(os.label());
    s.append(dash);
    s.append(arch.label());
    proof {
        assert(s@ =~= artifact_base_spec(*v, os, arch));
    }
    s
}

/// Builds the archive name, as `artifact_archive_spec` describes.
pub fn artifact_archive_name(v: &SemVer, os: Os, arch: Arch) -> (r: String)
    ensures
        r@ == artifact_archive_spec(*v, os, arch),
{
    let mut s = artifact_base(v, os, arch);
    s.append(".tar.xz");
    proof {
        assert(s@ =~= artifact_archive_spec(*v, os, arch));
    }
    s
}

/// Builds the tarball name, as `artifact_tarball_spec` describes.
pub fn artifact_tarball_name(v: &SemVer, os: Os, arch: Arch) -> (r: String)
    ensures
        r@ == artifact_tarball_spec(*v, os, arch),
{
    let mut s = artifact_base(v, os, arch);
    s.append(".tar");
    proof {
        assert(s@ =~= artifact_tarball_spec(*v, os, arch));
    }
    s
}

/// Builds the download address, as `artifact_url_spec` describes.
pub fn artifact_url(mirror: &str, v: &SemVer, os: Os, arch: Arch) -> (r: String)
    ensures
        r@ == artifact_url_spec(mirror@, *v, os, arch),
{
    let mut s = mirror.to_owned();
    s.append("/v");
    let ver = version_string(v);
    s.append(ver.as_str());
    s.append("/");
    let archive = artifact_archive_name(v, os, arch);
    s.append(archive.as_str());
    proof {
        assert(s@ =~= artifact_url_spec(mirror@, *v, os, arch));
    }
    s
}

/// What one version's install unit has to do.
#[derive(Debug)]
pub enum InstallStep {
    /// The version's directory already exists: nothing to fetch, and
    /// nothing of that directory is touched.
    AlreadyInstalled,
    /// Fetch the archive from `url`, unpack it through the named
    /// tarball, and rename the extracted directory (the archive's base
    /// name) to the version's own name.
    Download { url: String, archive: String, tarball: String, extract_dir: String },
}

/// One version's planned unit of work.
#[derive(Debug)]
pub struct InstallUnit {
    pub version: SemVer,
    pub step: InstallStep,
}

/// Plans the install of every resolved version: already-installed
/// versions are reported as such and fetch nothing; each of the others
/// gets the artifact names and address the mirror serves for it.
pub fn plan_install(store: &Store, versions: &Vec<SemVer>, os: Os, arch: Arch, mirror: &str)
    -> (r: Vec<InstallUnit>)
    ensures
        r@.len() == versions@.len(),
        forall|i: int| 0 <= i < r@.len() ==> {
            &&& (#[trigger] r@[i]).version == versions@[i]
            &&& (r@[i].step is AlreadyInstalled
                <==> has_version(*store, ver_str(versions@[i])))
            &&& match r@[i].step {
                InstallStep::AlreadyInstalled => true,
                InstallStep::Download { url, archive, tarball, extract_dir } => {
                    &&& url@ == artifact_url_spec(mirror@, versions@[i], os, arch)
                    &&& archive@ == artifact_archive_spec(versions@[i], os, arch)
                    &&& tarball@ == artifact_tarball_spec(versions@[i], os, arch)
                    &&& extract_dir@ == artifact_base_spec(versions@[i], os, arch)
                },
            }
        },
{
    let n = versions.len();
    let mut r: Vec<InstallUnit> = Vec::new();
    let mut i: usize = 0;
    while i < n
        invariant
            n == versions@.len(),
            0 <= i <= n,
            r@.len() == i,
            forall|j: int| 0 <= j < i ==> {
                &&& (#[trigger] r@[j]).version == versions@[j]
                &&& (r@[j].step is AlreadyInstalled
                    <==> has_version(*store, ver_str(versions@[j])))
                &&& match r@[j].step {
                    InstallStep::AlreadyInstalled => true,
                    InstallStep::Download { url, archive, tarball, extract_dir } => {
                        &&& url@ == artifact_url_spec(mirror@, versions@[j], os, arch)
                        &&& archive@ == artifact_archive_spec(versions@[j], os, arch)
                        &&& tarball@ == artifact_tarball_spec(versions@[j], os, arch)
                        &&& extract_dir@ == artifact_base_spec(versions@[j], os, arch)
                    },
                }
            },
        decreases n - i,
    {
        let v = versions[i];
        let name = version_string(&v);
        let step = match store.find_version(&name) {
            Option::Some(ix) => {
                proof {
                    assert(store.installed@[ix as int].version@ == ver_str(v));
                    assert(has_version(*store, ver_str(v)));
                }
                InstallStep::AlreadyInstalled
            },
            Option::None => InstallStep::Download {
                url: artifact_url(mirror, &v, os, arch),
                archive: artifact_archive_name(&v, os, arch),
                tarball: artifact_tarball_name(&v, os, arch),
                extract_dir: artifact_base(&v, os, arch),
            },
        };
        r.push(InstallUnit { version: v, step });
        i += 1;
    }
    r
}

/// Why one version's install unit failed.
#[derive(Clone, Copy, PartialEq, Eq, Structural, Debug)]
pub enum InstallUnitError {
    /// The archive's bytes do not decode as an xz stream.
    ExtractFailed,
}

/// What the xz-compressed bytes decode to, if they decode at all.
pub uninterp spec fn xz_decoded(data: Seq<u8>) -> Option<Seq<u8>>;

/// Relies on lzma::decompress (crate rust-lzma): whether an xz stream
/// decodes, and to which bytes, depends on the input bytes alone.
#[verifier::external_body]
fn xz_decompress(data: &Vec<u8>) -> (r: Option<Vec<u8>>)
    ensures
        match r {
            Option::Some(out) => xz_decoded(data@) == Some(out@),
            Option::None => xz_decoded(data@) is None,
        },
{
    match lzma::decompress(data.as_slice()) {
        Ok(out) => Some(out),
        Err(_) => None,
    }
}

/// Decompresses a downloaded archive into the tarball bytes it wraps,
/// reporting a per-unit extraction error on bytes that do not decode.
pub fn unpack_archive(data: &Vec<u8>) -> (r: Result<Vec<u8>, InstallUnitError>)
    ensures
        match r {
            Result::Ok(out) => xz_decoded(data@) == Some(out@),
            Result::Err(e) => xz_decoded(data@) is None
                && e == InstallUnitError::ExtractFailed,
        },
{
    match xz_decompress(data) {
        Option::Some(out) => Result::Ok(out),
        Option::None => Result::Err(InstallUnitError::ExtractFailed),
    }
}

/// How one version's concurrent install unit ended.
#[derive(Clone, Copy, PartialEq, Eq, Structural, Debug)]
pub enum UnitOutcome {
    /// The version's directory now exists in full.
    Completed,
    /// The unit failed; nothing of that version exists.
    Failed,
}

/// The report one install unit hands back: its version, how it ended,
/// and (when completed) the binaries the unpacked directory ships.
#[derive(Debug)]
pub struct UnitReport {
    pub version: SemVer,
    pub outcome: UnitOutcome,
    pub binaries: Vec<String>,
}

/// A version's rendered name never takes the name reserved for the
/// active-version link.
pub proof fn lemma_ver_str_not_current(v: SemVer)
    ensures
        ver_str(v) != "current"@,
{
    reveal_strlit("current");
    crate::semver::lemma_dec_str_first(v.major as nat);
    if ver_str(v) == "current"@ {
        assert(ver_str(v)[0] == crate::semver::dec_str(v.major as nat)[0]);
        assert(false);
    }
}

/// A version that is installed stays installed when another is
/// recorded: `has_version` survives any growth of the installed set.
pub proof fn lemma_has_version_monotone(s1: Store, s2: Store, v: Seq<char>)
    requires
        has_version(s1, v),
        forall|x: Installation| s1.installed@.contains(x) ==> s2.installed@.contains(x),
    ensures
        has_version(s2, v),
{
    let i = choose|i: int| 0 <= i < s1.installed@.len()
        && (#[trigger] s1.installed@[i]).version@ == v;
    let x = s1.installed@[i];
    assert(s1.installed@.contains(x));
    assert(s2.installed@.contains(x));
    let j = choose|j: int| 0 <= j < s2.installed@.len() && s2.installed@[j] == x;
    assert(s2.installed@[j].version@ == v);
}

/// Records one completed install unit: the version's directory now
/// counts as installed. A version that already has a directory is left
/// exactly as it was; nothing else changes either way.
pub fn record_install(store: &mut Store, version: &SemVer, binaries: Vec<String>) -> (r: bool)
    requires
        old(store).wf(),
    ensures
        final(store).wf(),
        final(store).active == old(store).active,
        r == !has_version(*old(store), ver_str(*version)),
        !r ==> *final(store) == *old(store),
        has_version(*final(store), ver_str(*version)),
        r ==> binaries_of(*final(store), ver_str(*version)) == binaries@,
        forall|x: Installation| old(store).installed@.contains(x)
            ==> final(store).installed@.contains(x),
        forall|x: Installation| #[trigger] final(store).installed@.contains(x)
            ==> old(store).installed@.contains(x)
                || (x.version@ == ver_str(*version) && x.binaries@ == binaries@),
{
    let name = version_string(version);
    match store.find_version(&name) {
        Option::Some(ix) => {
            proof {
                assert(store.installed@[ix as int].version@ == ver_str(*version));
                assert(has_version(*store, ver_str(*version)));
            }
            false
        },
        Option::None => {
            let ghost pre = *store;
            store.installed.push(Installation { version: name, binaries });
            proof {
                broadcast use vstd::seq_lib::lemma_seq_contains_after_push;
                let ghost last = pre.installed@.len() as int;
                assert(store.installed@[last].version@ == ver_str(*version));
                assert(has_version(*store, ver_str(*version)));
                assert forall|a: int, b: int| 0 <= a < b < store.installed@.len()
                    implies (#[trigger] store.installed@[a]).version@
                        != (#[trigger] store.installed@[b]).version@ by {
                    if b < last {
                    } else {
                        assert(store.installed@[a] == pre.installed@[a]);
                        assert(pre.installed@[a].version@ != ver_str(*version));
                    }
                }
                lemma_ver_str_not_current(*version);
                assert forall|c: int| 0 <= c < store.installed@.len()
                    implies (#[trigger] store.installed@[c]).version@ != "current"@ by {
                    if c < last {
                        assert(store.installed@[c] == pre.installed@[c]);
                    }
                }
                match store.active {
                    Option::Some(ref a) => {
                        assert(has_version(pre, a@));
                        lemma_has_version_monotone(pre, *store, a@);
                    },
                    Option::None => {},
                }
                lemma_member_binaries(*store, store.installed@[last]);
            }
            true
        },
    }
}

/// Records every completed unit of a concurrent install batch, in
/// report order. One unit's failure never touches what another unit
/// completed: every version already installed stays installed, every
/// completed unit's version is installed afterwards, whatever the
/// other units did, and nothing enters the store but what some
/// completed report carries.
pub fn record_results(store: &mut Store, reports: &Vec<UnitReport>)
    requires
        old(store).wf(),
    ensures
        final(store).wf(),
        final(store).active == old(store).active,
        forall|x: Installation| old(store).installed@.contains(x)
            ==> final(store).installed@.contains(x),
        forall|j: int| 0 <= j < reports@.len()
            && (#[trigger] reports@[j]).outcome is Completed
            ==> has_version(*final(store), ver_str(reports@[j].version)),
        forall|x: Installation| #[trigger] final(store).installed@.contains(x)
            ==> old(store).installed@.contains(x)
                || (exists|j: int| 0 <= j < reports@.len()
                    && (#[trigger] reports@[j]).outcome is Completed
                    && x.version@ == ver_str(reports@[j].version)
                    && x.binaries@ == reports@[j].binaries@),
{
    let n = reports.len();
    let mut i: usize = 0;
    while i < n
        invariant
            n == reports@.len(),
            0 <= i <= n,
            store.wf(),
            store.active == old(store).active,
            forall|x: Installation| old(store).installed@.contains(x)
                ==> store.installed@.contains(x),
            forall|j: int| 0 <= j < i && (#[trigger] reports@[j]).outcome is Completed
                ==> has_version(*store, ver_str(reports@[j].version)),
            forall|x: Installation| #[trigger] store.installed@.contains(x)
                ==> old(store).installed@.contains(x)
                    || (exists|j: int| 0 <= j < i
                        && (#[trigger] reports@[j]).outcome is Completed
                        && x.version@ == ver_str(reports@[j].version)
                        && x.binaries@ == reports@[j].binaries@),
        decreases n - i,
    {
        let ghost mid = *store;
        match reports[i].outcome {
            UnitOutcome::Completed => {
                let bins = clone_names(&reports[i].binaries);
                record_install(store, &reports[i].version, bins);
            },
            UnitOutcome::Failed => {},
        }
        proof {
            assert forall|j: int| 0 <= j < i + 1
                && (#[trigger] reports@[j]).outcome is Completed
                implies has_version(*store, ver_str(reports@[j].version)) by {
                if j < i {
                    lemma_has_version_monotone(mid, *store, ver_str(reports@[j].version));
                }
            }
            assert forall|x: Installation| #[trigger] store.installed@.contains(x)
                implies old(store).installed@.contains(x)
                    || (exists|j: int| 0 <= j < i + 1
                        && (#[trigger] reports@[j]).outcome is Completed
                        && x.version@ == ver_str(reports@[j].version)
                        && x.binaries@ == reports@[j].binaries@) by {
                if mid.installed@.contains(x) {
                    if !old(store).installed@.contains(x) {
                        let j = choose|j: int| 0 <= j < i
                            && (#[trigger] reports@[j]).outcome is Completed
                            && x.version@ == ver_str(reports@[j].version)
                            && x.binaries@ == reports@[j].binaries@;
                        assert(0 <= j < i + 1 && reports@[j].outcome is Completed
                            && x.version@ == ver_str(reports@[j].version)
                            && x.binaries@ == reports@[j].binaries@);
                    }
                } else {
                    assert(reports@[i as int].outcome is Completed
                        && x.version@ == ver_str(reports@[i as int].version)
                        && x.binaries@ == reports@[i as int].binaries@);
                }
            }
        }
        i += 1;
    }
}

/// Copies a list of names.
fn clone_names(names: &Vec<String>) -> (r: Vec<String>)
    ensures
        r@ == names@,
{
    let n = names.len();
    let mut r: Vec<String> = Vec::new();
    let mut i: usize = 0;
    while i < n
        invariant
            n == names@.len(),
            0 <= i <= n,
            r@ == names@.take(i as int),
        decreases n - i,
    {
        r.push(names[i].clone());
        proof {
            assert(r@ =~= names@.take(i as int + 1));
        }
        i += 1;
    }
    proof {
        assert(names@.take(n as int) =~= names@);
    }
    r
}

} // verus!
