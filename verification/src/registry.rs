//! Release metadata from the package registry.
//!
//! The registry serves, per package, a JSON document whose `releases` field
//! maps each release-version string to an ordered list of downloadable
//! artifacts.  The network round trip and the JSON decoding happen outside
//! this crate; what arrives here are plain values.  This module builds the
//! request URL, owns the typed catalog with its unique-key invariant, and
//! decides from the response status and the decoding outcome whether the
//! fetch succeeded.

use vstd::prelude::*;
use crate::error::SubstrateError;

verus! {

/// One downloadable distribution of a package version, as the registry
/// describes it.  `requires_python` is absent for many artifacts;
/// `python_version` may be a coarse tag such as `"py3"` rather than a
/// specific interpreter version.
#[derive(Clone, Debug)]
pub struct ReleaseArtifact {
    /// Whether a detached signature was uploaded alongside the artifact.
    pub has_sig: bool,
    /// Content checksum: a fast hash used for integrity-adjacent
    /// bookkeeping, not for security-critical verification.
    pub md5_digest: String,
    /// The artifact kind, e.g. source vs. built distribution.
    pub packagetype: String,
    /// The interpreter-version tag the artifact targets.
    pub python_version: String,
    /// An optional version-constraint expression on the required
    /// interpreter.
    pub requires_python: Option<String>,
    /// The download location.
    pub url: String,
}

impl ReleaseArtifact {
    /// Builds an artifact record from its fields.
    pub fn new(
        has_sig: bool,
        md5_digest: String,
        packagetype: String,
        python_version: String,
        requires_python: Option<String>,
        url: String,
    ) -> (r: ReleaseArtifact)
        ensures
            r == (ReleaseArtifact {
                has_sig,
                md5_digest,
                packagetype,
                python_version,
                requires_python,
                url,
            }),
    {
        ReleaseArtifact { has_sig, md5_digest, packagetype, python_version, requires_python, url }
    }
}

/// A mapping from release-version string to the ordered artifacts of that
/// release.  Keys are unique; the artifact order per version is the order
/// the registry supplied.  Constructed fresh per registry call and owned by
/// the caller that issued the fetch.
pub struct ReleaseCatalog {
    entries: Vec<(String, Vec<ReleaseArtifact>)>,
}

impl ReleaseCatalog {
    /// The entries, in insertion order.
    pub closed spec fn entry_seq(self) -> Seq<(String, Vec<ReleaseArtifact>)> {
        self.entries@
    }

    /// How many release versions the catalog holds.
    pub open spec fn spec_len(self) -> nat {
        self.entry_seq().len()
    }

    /// The unique-key invariant: no two entries share a version string.
    pub open spec fn wf(self) -> bool {
        forall|a: int, b: int|
            0 <= a < b < self.entry_seq().len() ==> self.entry_seq()[a].0@
                != self.entry_seq()[b].0@
    }

    /// Whether some entry carries the version string `v`.
    pub open spec fn spec_contains(self, v: Seq<char>) -> bool {
        exists|k: int| 0 <= k < self.entry_seq().len() && self.entry_seq()[k].0@ == v
    }

    /// An empty catalog.
    pub fn new() -> (r: ReleaseCatalog)
        ensures
            r.wf(),
            r.spec_len() == 0,
    {
        ReleaseCatalog { entries: Vec::new() }
    }

    /// How many release versions the catalog holds.
    pub fn len(&self) -> (r: usize)
        ensures
            r == self.spec_len(),
    {
        self.entries.len()
    }

    /// Reports whether the catalog already holds the version.
    pub fn contains_version(&self, version: &String) -> (r: bool)
        ensures
            r == self.spec_contains(version@),
    {
        let n: usize = self.entries.len();
        let mut k: usize = 0;
        while k < n
            invariant
                n == self.entry_seq().len(),
                k <= n,
                forall|j: int| 0 <= j < k ==> self.entry_seq()[j].0@ != version@,
            decreases n - k,
        {
            if self.entries[k].0 == *version {
                return true;
            }
            k += 1;
        }
        false
    }

    /// Adds a version with its artifacts.  A version already present is
    /// left untouched and the call reports `false`; otherwise the entry is
    /// appended and the call reports `true`.
    pub fn insert(&mut self, version: String, artifacts: Vec<ReleaseArtifact>) -> (added: bool)
        requires
            old(self).wf(),
        ensures
            final(self).wf(),
            added == !old(self).spec_contains(version@),
            added ==> final(self).entry_seq() == old(self).entry_seq().push(
                (version, artifacts),
            ),
            !added ==> *final(self) == *old(self),
    {
        if self.contains_version(&version) {
            false
        } else {
            self.entries.push((version, artifacts));
            proof {
                let os = old(self).entry_seq();
                let ns = self.entry_seq();
                assert forall|a: int, b: int|
                    0 <= a < b < ns.len() implies ns[a].0@ != ns[b].0@ by {
                    if b == os.len() {
                        assert(ns[a] == os[a]);
                        if os[a].0@ == ns[b].0@ {
                            assert(old(self).spec_contains(ns[b].0@));
                        }
                    }
                }
            }
            true
        }
    }

    /// Looks a version up.  Returns the artifacts stored for it, in their
    /// registry-supplied order, exactly when the catalog holds the version.
    pub fn get(&self, version: &String) -> (r: Option<&Vec<ReleaseArtifact>>)
        ensures
            r is Some <==> self.spec_contains(version@),
            r matches Some(a) ==> exists|k: int|
                0 <= k < self.entry_seq().len() && self.entry_seq()[k].0@ == version@
                    && a == self.entry_seq()[k].1,
    {
        let n: usize = self.entries.len();
        let mut k: usize = 0;
        while k < n
            invariant
                n == self.entry_seq().len(),
                k <= n,
                forall|j: int| 0 <= j < k ==> self.entry_seq()[j].0@ != version@,
            decreases n - k,
        {
            if self.entries[k].0 == *version {
                return Some(&self.entries[k].1);
            }
            k += 1;
        }
        None
    }
}

/// Whether some entry of `s` carries the version string `v`.
pub open spec fn key_in(s: Seq<(String, Vec<ReleaseArtifact>)>, v: Seq<char>) -> bool {
    exists|k: int| 0 <= k < s.len() && s[k].0@ == v
}

/// `s` with every entry dropped whose version string already occurred
/// earlier: the first occurrence of each version wins, and the relative
/// order of the kept entries is the order of `s`.
pub open spec fn spec_first_occurrences(s: Seq<(String, Vec<ReleaseArtifact>)>) -> Seq<
    (String, Vec<ReleaseArtifact>),
>
    decreases s.len(),
{
    if s.len() == 0 {
        Seq::empty()
    } else if key_in(s.drop_last(), s.last().0@) {
        spec_first_occurrences(s.drop_last())
    } else {
        spec_first_occurrences(s.drop_last()).push(s.last())
    }
}

/// Dropping later duplicates loses no version and invents none: the
/// deduplicated sequence carries exactly the version strings of its
/// input.
pub proof fn lemma_first_occurrences_keys(s: Seq<(String, Vec<ReleaseArtifact>)>, v: Seq<char>)
    ensures
        key_in(spec_first_occurrences(s), v) == key_in(s, v),
    decreases s.len(),
{
    if s.len() > 0 {
        let t = s.drop_last();
        let e = s.last();
        lemma_first_occurrences_keys(t, v);
        let f = spec_first_occurrences(s);
        let rf = spec_first_occurrences(t);
        if key_in(s, v) {
            let k: int = choose|k: int| 0 <= k < s.len() && s[k].0@ == v;
            if k < s.len() - 1 {
                assert(t[k] == s[k]);
                assert(key_in(t, v));
            } else {
                assert(v == e.0@);
                if !key_in(t, e.0@) {
                    assert(f[rf.len() as int] == e);
                    assert(key_in(f, v));
                }
            }
        }
        if key_in(t, v) {
            let k: int = choose|k: int| 0 <= k < t.len() && t[k].0@ == v;
            assert(s[k] == t[k]);
            assert(key_in(s, v));
        }
        if !key_in(t, e.0@) && key_in(rf, v) {
            let k: int = choose|k: int| 0 <= k < rf.len() && rf[k].0@ == v;
            assert(f[k] == rf[k]);
            assert(key_in(f, v));
        }
        if !key_in(t, e.0@) && key_in(f, v) {
            let k: int = choose|k: int| 0 <= k < f.len() && f[k].0@ == v;
            if k < rf.len() {
                assert(rf[k] == f[k]);
                assert(key_in(rf, v));
            } else {
                assert(f[k] == e);
                assert(key_in(s, v));
            }
        }
    }
}

/// Builds a catalog from decoded registry entries, in their given order.
/// The registry's response object cannot repeat a version key, but nothing
/// upstream is trusted for that here: a version that does repeat keeps its
/// first entry and the later ones are dropped.
pub fn catalog_from_entries(entries: Vec<(String, Vec<ReleaseArtifact>)>) -> (r: ReleaseCatalog)
    ensures
        r.wf(),
        r.entry_seq() == spec_first_occurrences(entries@),
{
    let ghost orig = entries@;
    let mut rest = entries;
    let mut catalog = ReleaseCatalog::new();
    proof {
        assert(orig.subrange(0, 0) =~= Seq::<(String, Vec<ReleaseArtifact>)>::empty());
        assert(orig.subrange(0, orig.len() as int) =~= orig);
    }
    let mut j: usize = 0;
    let n: usize = rest.len();
    while j < n
        invariant
            n == orig.len(),
            j <= n,
            rest@ == orig.subrange(j as int, n as int),
            catalog.wf(),
            catalog.entry_seq() == spec_first_occurrences(orig.subrange(0, j as int)),
        decreases n - j,
    {
        let e = rest.remove(0);
        proof {
            assert(e == orig[j as int]);
            assert(rest@ =~= orig.subrange(j as int + 1, n as int));
            let done = orig.subrange(0, j as int);
            let done2 = orig.subrange(0, j as int + 1);
            assert(done2.drop_last() =~= done);
            assert(done2.last() == orig[j as int]);
            lemma_first_occurrences_keys(done, orig[j as int].0@);
        }
        let (version, artifacts) = e;
        catalog.insert(version, artifacts);
        j += 1;
    }
    catalog
}

/// The request URL for a package's release metadata: the registry's JSON
/// endpoint for that package name.
pub fn registry_url(name: &str) -> (r: String)
    ensures
        r@ == "https://pypi.org/pypi/"@ + name@ + "/json"@,
{
    let mut url = String::from_str("https://pypi.org/pypi/");
    url.append(name);
    url.append("/json");
    url
}

/// Decides the outcome of a registry fetch from the response status and
/// the decoding result.  Success is owed exactly when the status is in the
/// 2xx range and the body decoded into a catalog; every other case — and a
/// transport failure, which never reaches this point — is the one opaque
/// "failed to obtain release data" signal, never a panic and never a
/// silently empty catalog.
pub fn response_outcome(status: u16, decoded: Option<ReleaseCatalog>) -> (r: Result<
    ReleaseCatalog,
    SubstrateError,
>)
    ensures
        r is Ok <==> (200 <= status < 300 && decoded is Some),
        (200 <= status < 300 && decoded is Some) ==> (r matches Ok(c) && decoded matches Some(d)
            && c == d),
        !(200 <= status < 300 && decoded is Some) ==> (r matches Err(e) && e
            == SubstrateError::RegistryFetchFailed),
{
    if 200 <= status && status < 300 {
        match decoded {
            Some(c) => Ok(c),
            None => Err(SubstrateError::RegistryFetchFailed),
        }
    } else {
        Err(SubstrateError::RegistryFetchFailed)
    }
}

} // verus!
