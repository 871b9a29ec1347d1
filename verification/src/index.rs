//! The version index: deployments of published package versions, version
//! resolution against requirements, and publishing.
//!
//! Two backends share one contract: the primary, locally writable index,
//! and a read-only mirror of a remote index. Publishing is only legal
//! against the primary index.

use vstd::prelude::*;

use crate::checksum::Checksum;
use crate::errors::Error;
use crate::model::{clone_string, RpPackage};
use crate::version::{Version, VersionReq};

verus! {

/// A published (version, checksum) record of a package.
#[derive(Debug)]
pub struct Deployment {
    pub version: Version,
    pub object: Checksum,
}

/// The view of a deployment.
pub struct DeploymentView {
    pub version: Version,
    pub object: Seq<u8>,
}

impl View for Deployment {
    type V = DeploymentView;

    open spec fn view(&self) -> DeploymentView {
        DeploymentView { version: self.version, object: self.object@ }
    }
}

impl DeepView for Deployment {
    type V = DeploymentView;

    open spec fn deep_view(&self) -> DeploymentView {
        self.view()
    }
}

impl Clone for Deployment {
    /// Cloning keeps the record.
    fn clone(&self) -> (r: Deployment)
        ensures
            r@ == self@,
    {
        Deployment { version: self.version, object: self.object.clone() }
    }
}

impl Deployment {
    pub fn new(version: Version, object: Checksum) -> (r: Deployment)
        ensures
            r@.version == version,
            r@.object == object@,
    {
        Deployment { version, object }
    }
}

/// Configuration for index backends: the root path for local checkouts of
/// remote repositories.
#[derive(Debug)]
pub struct IndexConfig {
    pub repos: Option<String>,
}

/// One record of an index: the package it belongs to and its deployment.
pub struct IndexEntryView {
    pub package: Seq<Seq<char>>,
    pub deployment: DeploymentView,
}

/// The deployments recorded for a package, in record order.
pub open spec fn spec_all_deployments(entries: Seq<IndexEntryView>, package: Seq<Seq<char>>) -> Seq<
    DeploymentView,
>
    decreases entries.len(),
{
    if entries.len() == 0 {
        Seq::empty()
    } else {
        let rest = spec_all_deployments(entries.subrange(1, entries.len() as int), package);
        if entries[0].package == package {
            seq![entries[0].deployment] + rest
        } else {
            rest
        }
    }
}

/// The deployments recorded for a package whose version meets the
/// requirement (or all of them, without a requirement), in record order.
pub open spec fn spec_resolve(
    entries: Seq<IndexEntryView>,
    package: Seq<Seq<char>>,
    req: Option<VersionReq>,
) -> Seq<DeploymentView>
    decreases entries.len(),
{
    if entries.len() == 0 {
        Seq::empty()
    } else {
        let rest = spec_resolve(entries.subrange(1, entries.len() as int), package, req);
        if entries[0].package == package && (match req {
            Some(req) => req.spec_matches(entries[0].deployment.version),
            None => true,
        }) {
            seq![entries[0].deployment] + rest
        } else {
            rest
        }
    }
}

/// The deployments recorded for a package at one exact version.
pub open spec fn spec_deployments_at(
    entries: Seq<IndexEntryView>,
    package: Seq<Seq<char>>,
    version: Version,
) -> Seq<DeploymentView> {
    spec_resolve(entries, package, Some(VersionReq::Exact(version)))
}

/// What recording a deployment does to the index: nothing when the same
/// checksum is already recorded at that version; an overwrite of the
/// version's records when forced; a new record when the version is new;
/// and no result when the version exists with different content and force
/// is not set.
pub open spec fn spec_put_version(
    entries: Seq<IndexEntryView>,
    checksum: Seq<u8>,
    package: Seq<Seq<char>>,
    version: Version,
    force: bool,
) -> Option<Seq<IndexEntryView>> {
    let existing = spec_deployments_at(entries, package, version);
    if existing.len() == 0 {
        Some(
            entries.push(
                IndexEntryView {
                    package,
                    deployment: DeploymentView { version, object: checksum },
                },
            ),
        )
    } else if forall|i: int| 0 <= i < existing.len() ==> existing[i].object == checksum {
        Some(entries)
    } else if force {
        Some(
            Seq::new(
                entries.len(),
                |i: int|
                    if entries[i].package == package && entries[i].deployment.version == version {
                        IndexEntryView {
                            package: entries[i].package,
                            deployment: DeploymentView { version, object: checksum },
                        }
                    } else {
                        entries[i]
                    },
            ),
        )
    } else {
        None
    }
}

/// The common contract of version indexes.
pub trait Index: Sized {
    /// The records the index holds, in record order.
    spec fn entries(&self) -> Seq<IndexEntryView>;

    /// Whether publishing against this index is legal.
    spec fn publishable(&self) -> bool;

    /// The URL the index was opened from, named when publishing is refused.
    spec fn url_text(&self) -> Seq<char>;

    /// Every deployment of the package whose version meets the requirement;
    /// empty when none match.
    fn resolve(&self, package: &RpPackage, version_req: Option<&VersionReq>) -> (r: Vec<
        Deployment,
    >)
        ensures
            r.deep_view() == spec_resolve(
                self.entries(),
                package@,
                match version_req {
                    Some(req) => Some(*req),
                    None => None,
                },
            ),
    ;

    /// Every known deployment of the package.
    fn all(&self, package: &RpPackage) -> (r: Vec<Deployment>)
        ensures
            r.deep_view() == spec_all_deployments(self.entries(), package@),
    ;

    /// The deployments of the package at one exact version.
    fn get_deployments(&self, package: &RpPackage, version: &Version) -> (r: Vec<Deployment>)
        ensures
            r.deep_view() == spec_deployments_at(self.entries(), package@, *version),
    ;

    /// Record a deployment. Publishing against a read-only mirror fails; a
    /// version already recorded with different content fails unless forced,
    /// in which case its records are overwritten.
    fn put_version(
        &mut self,
        checksum: &Checksum,
        package: &RpPackage,
        version: &Version,
        force: bool,
    ) -> (r: Result<(), Error>)
        ensures
            !old(self).publishable() ==> (r matches Err(e) && (e matches Error::NoPublishIndex(u)
                && u@ == old(self).url_text()) && final(self).entries() == old(self).entries()),
            old(self).publishable() ==> match spec_put_version(
                old(self).entries(),
                checksum@,
                package@,
                *version,
                force,
            ) {
                Some(updated) => r is Ok && final(self).entries() == updated,
                None => r matches Err(e) && e is ChecksumMismatch && final(self).entries() == old(
                    self,
                ).entries(),
            },
            final(self).publishable() == old(self).publishable(),
            final(self).url_text() == old(self).url_text(),
    ;
}

/// The primary, locally writable index. Its records live in memory; loading
/// them from and saving them to the local index checkout is the caller's
/// concern.
pub struct LocalIndex {
    pub records: Vec<(RpPackage, Deployment)>,
}

impl LocalIndex {
    /// An index with no records.
    pub fn new() -> (r: LocalIndex)
        ensures
            r.entries() == Seq::<IndexEntryView>::empty(),
    {
        let r = LocalIndex { records: Vec::new() };
        proof {
            assert(r.entries() =~= Seq::<IndexEntryView>::empty());
        }
        r
    }

    /// An index over already-loaded records.
    pub fn from_records(records: Vec<(RpPackage, Deployment)>) -> (r: LocalIndex)
        ensures
            r.records == records,
    {
        LocalIndex { records }
    }
}

/// The record views of a local index.
pub open spec fn spec_local_entries(records: Seq<(RpPackage, Deployment)>) -> Seq<IndexEntryView> {
    Seq::new(
        records.len(),
        |i: int| IndexEntryView { package: records[i].0@, deployment: records[i].1@ },
    )
}

impl Index for LocalIndex {
    open spec fn entries(&self) -> Seq<IndexEntryView> {
        spec_local_entries(self.records@)
    }

    open spec fn publishable(&self) -> bool {
        true
    }

    open spec fn url_text(&self) -> Seq<char> {
        Seq::empty()
    }

    #[verifier::loop_isolation(false)]
    fn resolve(&self, package: &RpPackage, version_req: Option<&VersionReq>) -> (r: Vec<
        Deployment,
    >) {
        let ghost all = self.entries();
        let ghost req = match version_req {
            Some(req) => Some(*req),
            None => None::<VersionReq>,
        };
        let mut out: Vec<Deployment> = Vec::new();
        proof {
            assert(all.skip(0) =~= all);
        }
        let mut i: usize = 0;
        while i < self.records.len()
            invariant
                i <= self.records@.len(),
                all.len() == self.records@.len(),
                spec_resolve(all, package@, req) =~= out.deep_view() + spec_resolve(
                    all.skip(i as int),
                    package@,
                    req,
                ),
            decreases self.records@.len() - i,
        {
            let ghost suffix = all.skip(i as int);
            proof {
                assert(suffix[0] == all[i as int]);
                assert(suffix.subrange(1, suffix.len() as int) =~= all.skip(i + 1));
            }
            let (candidate, deployment) = &self.records[i];
            let package_matches = candidate.eq_package(package);
            let version_ok = match version_req {
                Some(req) => req.matches(&deployment.version),
                None => true,
            };
            if package_matches && version_ok {
                let ghost pre = out.deep_view();
                out.push(deployment.clone());
                proof {
                    assert(out.deep_view() =~= pre.push(deployment@));
                    let rest = spec_resolve(all.skip(i + 1), package@, req);
                    assert(pre.push(deployment@) + rest =~= pre + (seq![deployment@] + rest));
                }
            }
            i = i + 1;
        }
        proof {
            assert(all.skip(all.len() as int) =~= Seq::<IndexEntryView>::empty());
            assert(out.deep_view() + Seq::<DeploymentView>::empty() =~= out.deep_view());
        }
        out
    }

    fn all(&self, package: &RpPackage) -> (r: Vec<Deployment>) {
        let r = self.resolve(package, None);
        proof {
            lemma_resolve_none_is_all(self.entries(), package@);
        }
        r
    }

    fn get_deployments(&self, package: &RpPackage, version: &Version) -> (r: Vec<Deployment>) {
        let req = VersionReq::Exact(*version);
        self.resolve(package, Some(&req))
    }

    #[verifier::loop_isolation(false)]
    fn put_version(
        &mut self,
        checksum: &Checksum,
        package: &RpPackage,
        version: &Version,
        force: bool,
    ) -> (r: Result<(), Error>) {
        let existing = self.get_deployments(package, version);
        if existing.len() == 0 {
            let ghost pre = self.entries();
            let record = (package.duplicate(), Deployment::new(*version, checksum.clone()));
            self.records.push(record);
            proof {
                assert(self.entries() =~= pre.push(
                    IndexEntryView {
                        package: package@,
                        deployment: DeploymentView { version: *version, object: checksum@ },
                    },
                ));
            }
            return Ok(());
        }
        let mut same = true;
        let mut i: usize = 0;
        while i < existing.len()
            invariant
                i <= existing@.len(),
                same == (forall|j: int|
                    0 <= j < i ==> existing.deep_view()[j].object == checksum@),
            decreases existing@.len() - i,
        {
            if !existing[i].object.eq_checksum(checksum) {
                proof {
                    assert(existing.deep_view()[i as int].object != checksum@);
                }
                same = false;
            }
            i = i + 1;
        }
        if same {
            return Ok(());
        }
        if !force {
            let ghost ex = spec_deployments_at(self.entries(), package@, *version);
            let mismatch = Error::ChecksumMismatch(
                crate::model::clone_bytes(existing[0].object.as_bytes()),
                crate::model::clone_bytes(checksum.as_bytes()),
            );
            return Err(mismatch);
        }
        // overwrite every record of this version with the new checksum
        let ghost pre = self.entries();
        let ghost target = spec_put_version(pre, checksum@, package@, *version, force).unwrap();
        let mut updated: Vec<(RpPackage, Deployment)> = Vec::new();
        let total = self.records.len();
        proof {
            assert(target.len() == pre.len());
            assert(spec_local_entries(updated@) =~= target.take(0));
        }
        let mut i: usize = 0;
        while i < total
            invariant
                i <= total,
                total == self.records@.len(),
                pre == self.entries(),
                target == spec_put_version(pre, checksum@, package@, *version, force).unwrap(),
                target.len() == pre.len(),
                updated@.len() == i,
                spec_local_entries(updated@) =~= target.take(i as int),
            decreases total - i,
        {
            let (candidate, deployment) = &self.records[i];
            let package_matches = candidate.eq_package(package);
            let version_matches = deployment.version.major == version.major
                && deployment.version.minor == version.minor && deployment.version.patch
                == version.patch;
            let ghost before = updated@;
            proof {
                assert(self.entries()[i as int] == pre[i as int]);
            }
            if package_matches && version_matches {
                updated.push((package.duplicate(), Deployment::new(*version, checksum.clone())));
                proof {
                    assert(target[i as int] == IndexEntryView {
                        package: pre[i as int].package,
                        deployment: DeploymentView { version: *version, object: checksum@ },
                    });
                }
            } else {
                updated.push((candidate.duplicate(), deployment.clone()));
                proof {
                    assert(target[i as int] == pre[i as int]);
                }
            }
            proof {
                assert(spec_local_entries(updated@) =~= spec_local_entries(before).push(
                    spec_local_entries(updated@)[i as int],
                ));
                assert(target.take(i + 1) =~= target.take(i as int).push(target[i as int]));
                assert(spec_local_entries(updated@)[i as int] == target[i as int]);
                assert(spec_local_entries(updated@) =~= target.take(i + 1));
            }
            i = i + 1;
        }
        self.records = updated;
        proof {
            assert(target.take(target.len() as int) =~= target);
            assert(self.entries() =~= target);
        }
        Ok(())
    }
}

/// Resolution distributes over appending a record.
pub proof fn lemma_resolve_push(
    entries: Seq<IndexEntryView>,
    entry: IndexEntryView,
    package: Seq<Seq<char>>,
    req: Option<VersionReq>,
)
    ensures
        spec_resolve(entries.push(entry), package, req) == if entry.package == package && (
        match req {
            Some(req) => req.spec_matches(entry.deployment.version),
            None => true,
        }) {
            spec_resolve(entries, package, req).push(entry.deployment)
        } else {
            spec_resolve(entries, package, req)
        },
    decreases entries.len(),
{
    let pushed = entries.push(entry);
    if entries.len() == 0 {
        assert(pushed.subrange(1, pushed.len() as int) =~= Seq::<IndexEntryView>::empty());
        assert(pushed[0] == entry);
        assert(spec_resolve(Seq::<IndexEntryView>::empty(), package, req)
            == Seq::<DeploymentView>::empty());
        assert(entries =~= Seq::<IndexEntryView>::empty());
        if entry.package == package && (match req {
            Some(req) => req.spec_matches(entry.deployment.version),
            None => true,
        }) {
            assert(seq![entry.deployment] + Seq::<DeploymentView>::empty() =~= spec_resolve(
                entries,
                package,
                req,
            ).push(entry.deployment));
        }
    } else {
        lemma_resolve_push(entries.subrange(1, entries.len() as int), entry, package, req);
        assert(pushed.subrange(1, pushed.len() as int) =~= entries.subrange(
            1,
            entries.len() as int,
        ).push(entry));
        assert(pushed[0] == entries[0]);
        if entries[0].package == package && (match req {
            Some(req) => req.spec_matches(entries[0].deployment.version),
            None => true,
        }) {
            if entry.package == package && (match req {
                Some(req) => req.spec_matches(entry.deployment.version),
                None => true,
            }) {
                assert(seq![entries[0].deployment] + spec_resolve(
                    entries.subrange(1, entries.len() as int),
                    package,
                    req,
                ).push(entry.deployment) =~= spec_resolve(entries, package, req).push(
                    entry.deployment,
                ));
            }
        }
    }
}

/// Recording a deployment is idempotent: once a version is recorded with a
/// checksum, recording the same checksum again, even without force, leaves
/// the index as it is.
pub proof fn lemma_put_version_idempotent(
    entries: Seq<IndexEntryView>,
    checksum: Seq<u8>,
    package: Seq<Seq<char>>,
    version: Version,
    force: bool,
)
    requires
        spec_put_version(entries, checksum, package, version, force) is Some,
    ensures
        spec_put_version(
            spec_put_version(entries, checksum, package, version, force).unwrap(),
            checksum,
            package,
            version,
            false,
        ) == spec_put_version(entries, checksum, package, version, force),
{
    let updated = spec_put_version(entries, checksum, package, version, force).unwrap();
    let existing = spec_deployments_at(entries, package, version);
    let entry = IndexEntryView {
        package,
        deployment: DeploymentView { version, object: checksum },
    };
    if existing.len() == 0 {
        lemma_resolve_push(entries, entry, package, Some(VersionReq::Exact(version)));
        assert(spec_deployments_at(updated, package, version) =~= existing.push(entry.deployment));
        let after = spec_deployments_at(updated, package, version);
        assert(after.len() == 1);
        assert forall|i: int| 0 <= i < after.len() implies after[i].object == checksum by {
            assert(after[0] == entry.deployment);
        }
    } else if forall|i: int| 0 <= i < existing.len() ==> existing[i].object == checksum {
    } else {
        lemma_resolve_overwrite(entries, checksum, package, version);
        assert(spec_deployments_at(updated, package, version).len() == existing.len());
    }
}

/// After a forced overwrite, the version's deployments all carry the new
/// checksum.
proof fn lemma_resolve_overwrite(
    entries: Seq<IndexEntryView>,
    checksum: Seq<u8>,
    package: Seq<Seq<char>>,
    version: Version,
)
    ensures
        ({
            let overwritten = Seq::new(
                entries.len(),
                |i: int|
                    if entries[i].package == package && entries[i].deployment.version == version {
                        IndexEntryView {
                            package: entries[i].package,
                            deployment: DeploymentView { version, object: checksum },
                        }
                    } else {
                        entries[i]
                    },
            );
            &&& spec_deployments_at(overwritten, package, version).len() == spec_deployments_at(
                entries,
                package,
                version,
            ).len()
            &&& forall|j: int|
                0 <= j < spec_deployments_at(overwritten, package, version).len()
                    ==> #[trigger] spec_deployments_at(overwritten, package, version)[j].object
                    == checksum
        }),
    decreases entries.len(),
{
    let overwritten = Seq::new(
        entries.len(),
        |i: int|
            if entries[i].package == package && entries[i].deployment.version == version {
                IndexEntryView {
                    package: entries[i].package,
                    deployment: DeploymentView { version, object: checksum },
                }
            } else {
                entries[i]
            },
    );
    if entries.len() > 0 {
        let tail = entries.subrange(1, entries.len() as int);
        lemma_resolve_overwrite(tail, checksum, package, version);
        let tail_overwritten = Seq::new(
            tail.len(),
            |i: int|
                if tail[i].package == package && tail[i].deployment.version == version {
                    IndexEntryView {
                        package: tail[i].package,
                        deployment: DeploymentView { version, object: checksum },
                    }
                } else {
                    tail[i]
                },
        );
        assert(overwritten.subrange(1, overwritten.len() as int) =~= tail_overwritten);
        assert(spec_deployments_at(overwritten, package, version) == (
        if overwritten[0].package == package && overwritten[0].deployment.version == version {
            seq![overwritten[0].deployment] + spec_deployments_at(
                tail_overwritten,
                package,
                version,
            )
        } else {
            spec_deployments_at(tail_overwritten, package, version)
        }));
    }
}

/// Resolving without a requirement returns every deployment.
pub proof fn lemma_resolve_none_is_all(entries: Seq<IndexEntryView>, package: Seq<Seq<char>>)
    ensures
        spec_resolve(entries, package, None) == spec_all_deployments(entries, package),
    decreases entries.len(),
{
    if entries.len() > 0 {
        lemma_resolve_none_is_all(entries.subrange(1, entries.len() as int), package);
    }
}

/// A read-only mirror of a remote index: resolution delegates to the local
/// view of the checkout, and publishing is refused, naming the mirror's
/// URL.
pub struct GitIndex {
    pub url: String,
    pub inner: LocalIndex,
}

impl GitIndex {
    /// A mirror over an already-checked-out local view.
    pub fn new(url: String, inner: LocalIndex) -> (r: GitIndex)
        ensures
            r.entries() == inner.entries(),
            !r.publishable(),
            r.url_text() == url@,
    {
        GitIndex { url, inner }
    }
}

impl Index for GitIndex {
    open spec fn entries(&self) -> Seq<IndexEntryView> {
        self.inner.entries()
    }

    open spec fn publishable(&self) -> bool {
        false
    }

    open spec fn url_text(&self) -> Seq<char> {
        self.url@
    }

    fn resolve(&self, package: &RpPackage, version_req: Option<&VersionReq>) -> (r: Vec<
        Deployment,
    >) {
        self.inner.resolve(package, version_req)
    }

    fn all(&self, package: &RpPackage) -> (r: Vec<Deployment>) {
        self.inner.all(package)
    }

    fn get_deployments(&self, package: &RpPackage, version: &Version) -> (r: Vec<Deployment>) {
        self.inner.get_deployments(package, version)
    }

    fn put_version(
        &mut self,
        _checksum: &Checksum,
        _package: &RpPackage,
        _version: &Version,
        _force: bool,
    ) -> (r: Result<(), Error>) {
        Err(Error::NoPublishIndex(clone_string(&self.url)))
    }
}

} // verus!
