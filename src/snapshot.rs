//! Snapshots of a resolved dependency set: which source directory each
//! compatibility bucket resolved to.
use vstd::prelude::*;
use crate::version::{decimal, semver_parse, u64_text, Version, VersionModel};

verus! {

/// The compatibility bucket of a version: its major number when that is at
/// least 1, otherwise `0.minor`.
pub open spec fn compat_text(v: VersionModel) -> Seq<char> {
    if v.major == 0 {
        seq!['0', '.'] + decimal(v.minor)
    } else {
        decimal(v.major)
    }
}

/// The bucket key `name:compat` of a package version.
pub open spec fn bucket_spec(name: Seq<char>, v: VersionModel) -> Seq<char> {
    name + seq![':'] + compat_text(v)
}

/// The bucket key of the package `name` at version `v`.
pub fn bucket_key(name: &str, v: &Version) -> (r: String)
    ensures
        r@ == bucket_spec(name@, v@),
{
    let mut r = String::from_str(name);
    r.append(":");
    if v.major == 0 {
        r.append("0.");
        let minor = u64_text(v.minor);
        r.append(minor.as_str());
        proof { reveal_strlit("0."); }
    } else {
        let major = u64_text(v.major);
        r.append(major.as_str());
    }
    proof {
        reveal_strlit(":");
        assert(r@ =~= bucket_spec(name@, v@));
    }
    r
}

/// Two pre-1.0 versions with the same minor number share a bucket, and so
/// do two versions from 1.0 on with the same major number.
pub proof fn lemma_compatible_versions_share_bucket(
    name: Seq<char>,
    v: VersionModel,
    w: VersionModel,
)
    requires
        (v.major == 0 && w.major == 0 && v.minor == w.minor) || (v.major >= 1 && v.major
            == w.major),
    ensures
        bucket_spec(name, v) == bucket_spec(name, w),
{
}

/// One bucket of a snapshot and the source directory it resolved to.
#[derive(Debug)]
pub struct SnapshotEntry {
    pub bucket: String,
    pub dir: String,
}

/// `entries[j]` is the entry of bucket `k`.
pub open spec fn entry_at(entries: Seq<SnapshotEntry>, k: Seq<char>, j: int) -> bool {
    0 <= j < entries.len() && entries[j].bucket@ == k
}

/// No two entries share a bucket.
pub open spec fn distinct_buckets(entries: Seq<SnapshotEntry>) -> bool {
    forall|i: int, j: int|
        0 <= i < entries.len() && 0 <= j < entries.len() && i != j ==> entries[i].bucket@
            != entries[j].bucket@
}

/// The mapping from bucket to source directory that `entries` hold.
pub open spec fn entries_map(entries: Seq<SnapshotEntry>) -> Map<Seq<char>, Seq<char>> {
    Map::new(
        |k: Seq<char>| exists|j: int| entry_at(entries, k, j),
        |k: Seq<char>| entries[choose|j: int| entry_at(entries, k, j)].dir@,
    )
}

/// With distinct buckets, each entry is what the mapping holds for its bucket.
pub proof fn lemma_entry_in_map(entries: Seq<SnapshotEntry>, j: int)
    requires
        distinct_buckets(entries),
        0 <= j < entries.len(),
    ensures
        entries_map(entries).contains_key(entries[j].bucket@),
        entries_map(entries)[entries[j].bucket@] == entries[j].dir@,
{
    let k = entries[j].bucket@;
    assert(entry_at(entries, k, j));
    let c = choose|c: int| entry_at(entries, k, c);
    assert(c == j);
}

/// A mapping from compatibility bucket to the source directory that the
/// bucket resolved to.
#[derive(Debug)]
pub struct Snapshot {
    entries: Vec<SnapshotEntry>,
}

impl View for Snapshot {
    type V = Map<Seq<char>, Seq<char>>;

    closed spec fn view(&self) -> Map<Seq<char>, Seq<char>> {
        entries_map(self.entries@)
    }
}

impl Snapshot {
    /// Each bucket has one entry.
    pub closed spec fn wf(&self) -> bool {
        distinct_buckets(self.entries@)
    }

    /// The snapshot with no bucket.
    pub fn new() -> (r: Snapshot)
        ensures
            r.wf(),
            r@ == Map::<Seq<char>, Seq<char>>::empty(),
    {
        let r = Snapshot { entries: Vec::new() };
        assert(r@ =~= Map::<Seq<char>, Seq<char>>::empty());
        r
    }

    /// The number of buckets.
    pub fn len(&self) -> (r: usize)
        requires
            self.wf(),
        ensures
            r == self@.dom().len(),
    {
        proof { self.lemma_dom_len(); }
        self.entries.len()
    }

    proof fn lemma_dom_len(&self)
        requires
            self.wf(),
        ensures
            self@.dom().len() == self.entries@.len(),
            self@.dom().finite(),
    {
        let es = self.entries@;
        let keys = es.map_values(|e: SnapshotEntry| e.bucket@);
        assert(keys.no_duplicates()) by {
            assert forall|i: int, j: int| 0 <= i < keys.len() && 0 <= j < keys.len() && i != j
                implies keys[i] != keys[j] by {}
        }
        assert(self@.dom() =~= keys.to_set()) by {
            assert forall|k: Seq<char>| self@.dom().contains(k) implies keys.to_set().contains(k) by {
                let j = choose|j: int| entry_at(es, k, j);
                assert(keys[j] == k);
            }
            assert forall|k: Seq<char>| keys.to_set().contains(k) implies self@.dom().contains(k) by {
                let j = choose|j: int| 0 <= j < keys.len() && keys[j] == k;
                assert(entry_at(es, k, j));
            }
        }
        keys.unique_seq_to_set();
    }

    /// The position of the entry of `bucket`, if the snapshot has one.
    fn find(&self, bucket: &String) -> (r: Option<usize>)
        requires
            self.wf(),
        ensures
            match r {
                Some(j) => entry_at(self.entries@, bucket@, j as int),
                None => !self@.contains_key(bucket@),
            },
    {
        let mut j: usize = 0;
        while j < self.entries.len()
            invariant
                j <= self.entries@.len(),
                forall|i: int| 0 <= i < j ==> self.entries@[i].bucket@ != bucket@,
            decreases self.entries@.len() - j,
        {
            if self.entries[j].bucket == *bucket {
                return Some(j);
            }
            j = j + 1;
        }
        None
    }

    /// The source directory of `bucket`, if the snapshot has that bucket.
    pub fn get(&self, bucket: &String) -> (r: Option<&String>)
        requires
            self.wf(),
        ensures
            match r {
                Some(d) => self@.contains_key(bucket@) && self@[bucket@] == d@,
                None => !self@.contains_key(bucket@),
            },
    {
        match self.find(bucket) {
            Some(j) => {
                proof { lemma_entry_in_map(self.entries@, j as int); }
                Some(&self.entries[j].dir)
            },
            None => None,
        }
    }

    /// Maps `bucket` to `dir`, replacing what it mapped to before.
    pub fn insert(&mut self, bucket: String, dir: String)
        requires
            old(self).wf(),
        ensures
            final(self).wf(),
            final(self)@ == old(self)@.insert(bucket@, dir@),
    {
        let ghost k = bucket@;
        let ghost d = dir@;
        let ghost before = self.entries@;
        match self.find(&bucket) {
            Some(j) => {
                self.entries.set(j, SnapshotEntry { bucket, dir });
                let ghost es = self.entries@;
                assert forall|k2: Seq<char>| #![auto]
                    self@.contains_key(k2) == old(self)@.insert(k, d).contains_key(k2) by {
                    if exists|i: int| entry_at(before, k2, i) {
                        let i = choose|i: int| entry_at(before, k2, i);
                        assert(entry_at(es, k2, i) || k2 == k);
                    }
                    if exists|i: int| entry_at(es, k2, i) {
                        let i = choose|i: int| entry_at(es, k2, i);
                        assert(entry_at(before, k2, i) || k2 == k);
                    }
                    if k2 == k {
                        assert(entry_at(es, k2, j as int));
                    }
                }
                assert forall|k2: Seq<char>| #![auto] self@.contains_key(k2) implies self@[k2]
                    == old(self)@.insert(k, d)[k2] by {
                    let i = choose|i: int| entry_at(es, k2, i);
                    lemma_entry_in_map(es, i);
                    if k2 != k {
                        lemma_entry_in_map(before, i);
                    }
                }
                assert(self@ =~= old(self)@.insert(k, d));
            },
            None => {
                self.entries.push(SnapshotEntry { bucket, dir });
                let ghost es = self.entries@;
                let ghost n = before.len() as int;
                assert forall|i: int| 0 <= i < n implies before[i].bucket@ != k by {
                    assert(entry_at(before, before[i].bucket@, i));
                }
                assert forall|k2: Seq<char>| #![auto]
                    self@.contains_key(k2) == old(self)@.insert(k, d).contains_key(k2) by {
                    if exists|i: int| entry_at(before, k2, i) {
                        let i = choose|i: int| entry_at(before, k2, i);
                        assert(entry_at(es, k2, i));
                    }
                    if exists|i: int| entry_at(es, k2, i) {
                        let i = choose|i: int| entry_at(es, k2, i);
                        assert(entry_at(before, k2, i) || k2 == k);
                    }
                    if k2 == k {
                        assert(entry_at(es, k2, n));
                    }
                }
                assert forall|k2: Seq<char>| #![auto] self@.contains_key(k2) implies self@[k2]
                    == old(self)@.insert(k, d)[k2] by {
                    let i = choose|i: int| entry_at(es, k2, i);
                    lemma_entry_in_map(es, i);
                    if k2 != k {
                        lemma_entry_in_map(before, i);
                    }
                }
                assert(self@ =~= old(self)@.insert(k, d));
            },
        }
    }
}

/// One package of a resolved dependency set, as the resolver reports it.
#[derive(Debug)]
pub struct ResolvedPackage {
    pub name: String,
    pub version: String,
    /// The resolver's opaque identity string; it names the package's origin.
    pub id: String,
    pub manifest_path: String,
}

/// The mathematical value of a `ResolvedPackage`.
pub struct ResolvedModel {
    pub name: Seq<char>,
    pub version: Seq<char>,
    pub id: Seq<char>,
    pub manifest_path: Seq<char>,
}

impl View for ResolvedPackage {
    type V = ResolvedModel;

    open spec fn view(&self) -> ResolvedModel {
        ResolvedModel {
            name: self.name@,
            version: self.version@,
            id: self.id@,
            manifest_path: self.manifest_path@,
        }
    }
}

/// `p` occurs in `s` as a contiguous part.
pub open spec fn is_infix(p: Seq<char>, s: Seq<char>) -> bool {
    exists|i: int| 0 <= i && i + p.len() <= s.len() && #[trigger] s.subrange(i, i + p.len()) == p
}

/// Whether `p` occurs in `s`.
fn str_contains(s: &str, p: &str) -> (r: bool)
    ensures
        r == is_infix(p@, s@),
{
    let n = s.unicode_len();
    let m = p.unicode_len();
    if m > n {
        return false;
    }
    if m == 0 {
        assert(s@.subrange(0, 0 + p@.len() as int) =~= p@);
        return true;
    }
    let mut i: usize = 0;
    while i <= n - m
        invariant
            n == s@.len(),
            m == p@.len(),
            0 < m <= n,
            i <= n - m + 1,
            forall|k: int| 0 <= k < i ==> #[trigger] s@.subrange(k, k + m) != p@,
        decreases n - m + 1 - i,
    {
        let mut j: usize = 0;
        let mut same = true;
        while j < m && same
            invariant
                n == s@.len(),
                m == p@.len(),
                i + m <= n,
                j <= m,
                same ==> forall|l: int| 0 <= l < j ==> s@[i + l] == p@[l],
                !same ==> s@.subrange(i as int, i + m) != p@,
            decreases m - j + (if same { 1int } else { 0int }),
        {
            if s.get_char(i + j) != p.get_char(j) {
                assert(s@.subrange(i as int, i + m)[j as int] != p@[j as int]);
                same = false;
            } else {
                j = j + 1;
            }
        }
        if same {
            assert(s@.subrange(i as int, i + m) =~= p@);
            return true;
        }
        i = i + 1;
    }
    false
}

/// The directory that holds a path, where the path has one.
pub uninterp spec fn path_parent(p: Seq<char>) -> Option<Seq<char>>;

/// Relies on `std::path::Path::parent`: the path without its final
/// component, or `None` where it ends in a root or is empty. A parent of a
/// UTF-8 path is a prefix of it, so the conversion back loses nothing.
#[verifier::external_body]
fn parent_of(p: &str) -> (r: Option<String>)
    ensures
        match r {
            Some(d) => path_parent(p@) == Some(d@),
            None => path_parent(p@) is None,
        },
        p@.len() == 0 ==> r is None,
{
    match std::path::Path::new(p).parent() {
        Some(d) => Some(d.to_string_lossy().into_owned()),
        None => None,
    }
}

/// The source directory of a package: the directory of its manifest file.
pub fn package_dir(manifest_path: &str) -> (r: Option<String>)
    ensures
        match r {
            Some(d) => path_parent(manifest_path@) == Some(d@),
            None => path_parent(manifest_path@) is None,
        },
{
    parent_of(manifest_path)
}

/// The registry's index marker in a resolver identity string.
pub open spec fn registry_marker() -> Seq<char> {
    "crates.io-index"@
}

/// A package comes from the public registry: its identity names the
/// registry's index.
pub open spec fn is_registry(p: ResolvedModel) -> bool {
    is_infix(registry_marker(), p.id)
}

/// Whether `p` comes from the public registry.
pub fn is_registry_package(p: &ResolvedPackage) -> (r: bool)
    ensures
        r == is_registry(p@),
{
    str_contains(p.id.as_str(), "crates.io-index")
}

/// Why a resolved set yields no snapshot, on the level of values.
pub enum SnapshotFault {
    BadVersion(Seq<char>),
    NoSourceDir(Seq<char>),
}

/// Why a resolved set yields no snapshot.
#[derive(Debug)]
pub enum SnapshotError {
    /// A registry package whose version is not a semantic version.
    InvalidVersion { package: String, reason: String },
    /// A registry package whose manifest path has no directory.
    NoSourceDir { package: String },
}

impl SnapshotError {
    pub open spec fn fault(&self) -> SnapshotFault {
        match self {
            SnapshotError::InvalidVersion { package, .. } => SnapshotFault::BadVersion(package@),
            SnapshotError::NoSourceDir { package } => SnapshotFault::NoSourceDir(package@),
        }
    }
}

/// The snapshot of a resolved set, in order: packages not from the registry
/// are skipped; each other one maps its bucket to its source directory, a
/// later package of the same bucket replacing an earlier one. The first
/// registry package without a version or a directory makes it fail.
pub open spec fn extract_spec(pkgs: Seq<ResolvedModel>) -> Result<
    Map<Seq<char>, Seq<char>>,
    SnapshotFault,
>
    decreases pkgs.len(),
{
    if pkgs.len() == 0 {
        Ok(Map::empty())
    } else {
        match extract_spec(pkgs.drop_last()) {
            Err(f) => Err(f),
            Ok(m) => {
                let p = pkgs.last();
                if !is_registry(p) {
                    Ok(m)
                } else {
                    match semver_parse(p.version) {
                        None => Err(SnapshotFault::BadVersion(p.name)),
                        Some(v) => match path_parent(p.manifest_path) {
                            None => Err(SnapshotFault::NoSourceDir(p.name)),
                            Some(d) => Ok(m.insert(bucket_spec(p.name, v), d)),
                        },
                    }
                }
            },
        }
    }
}

/// The names of the packages of `pkgs` not from the registry, in order.
pub open spec fn skipped_spec(pkgs: Seq<ResolvedModel>) -> Seq<Seq<char>>
    decreases pkgs.len(),
{
    if pkgs.len() == 0 {
        Seq::empty()
    } else if is_registry(pkgs.last()) {
        skipped_spec(pkgs.drop_last())
    } else {
        skipped_spec(pkgs.drop_last()).push(pkgs.last().name)
    }
}

/// The models of a sequence of resolved packages.
pub open spec fn models(pkgs: Seq<ResolvedPackage>) -> Seq<ResolvedModel> {
    pkgs.map_values(|p: ResolvedPackage| p@)
}

/// The models of a sequence of strings.
pub open spec fn texts(v: Seq<String>) -> Seq<Seq<char>> {
    v.map_values(|s: String| s@)
}

/// A snapshot together with the names of the packages it left out because
/// they do not come from the registry.
#[derive(Debug)]
pub struct Extracted {
    pub snapshot: Snapshot,
    pub skipped: Vec<String>,
}

/// Builds the snapshot of a resolved package set.
pub fn extract_snapshot(pkgs: &Vec<ResolvedPackage>) -> (r: Result<Extracted, SnapshotError>)
    ensures
        match r {
            Ok(x) => {
                &&& x.snapshot.wf()
                &&& extract_spec(models(pkgs@)) == Ok::<_, SnapshotFault>(x.snapshot@)
                &&& texts(x.skipped@) == skipped_spec(models(pkgs@))
            },
            Err(e) => extract_spec(models(pkgs@)) == Err::<Map<Seq<char>, Seq<char>>, _>(
                e.fault(),
            ),
        },
{
    let mut snapshot = Snapshot::new();
    let mut skipped: Vec<String> = Vec::new();
    let mut i: usize = 0;
    while i < pkgs.len()
        invariant
            i <= pkgs@.len(),
            snapshot.wf(),
            extract_spec(models(pkgs@).take(i as int)) == Ok::<_, SnapshotFault>(snapshot@),
            texts(skipped@) == skipped_spec(models(pkgs@).take(i as int)),
        decreases pkgs@.len() - i,
    {
        let p = &pkgs[i];
        let ghost prefix = models(pkgs@).take(i as int + 1);
        assert(prefix.drop_last() =~= models(pkgs@).take(i as int));
        assert(prefix.last() == p@);
        if !is_registry_package(p) {
            skipped.push(p.name.clone());
            assert(texts(skipped@) =~= skipped_spec(prefix));
        } else {
            let v = match Version::parse(p.version.as_str()) {
                Ok(v) => v,
                Err(reason) => {
                    proof { lemma_fault_persists(models(pkgs@), i as int + 1); }
                    return Err(
                        SnapshotError::InvalidVersion { package: p.name.clone(), reason },
                    );
                },
            };
            let dir = match package_dir(p.manifest_path.as_str()) {
                Some(d) => d,
                None => {
                    proof { lemma_fault_persists(models(pkgs@), i as int + 1); }
                    return Err(SnapshotError::NoSourceDir { package: p.name.clone() });
                },
            };
            let bucket = bucket_key(p.name.as_str(), &v);
            snapshot.insert(bucket, dir);
        }
        i = i + 1;
    }
    assert(models(pkgs@).take(i as int) =~= models(pkgs@));
    Ok(Extracted { snapshot, skipped })
}

/// Bucket `k` was dropped: it is in `b` and not in `a`.
pub open spec fn removed(b: Map<Seq<char>, Seq<char>>, a: Map<Seq<char>, Seq<char>>, k: Seq<char>) -> bool {
    b.contains_key(k) && !a.contains_key(k)
}

/// Bucket `k` is new: it is in `a` and not in `b`.
pub open spec fn added(b: Map<Seq<char>, Seq<char>>, a: Map<Seq<char>, Seq<char>>, k: Seq<char>) -> bool {
    !b.contains_key(k) && a.contains_key(k)
}

/// Bucket `k` is in both and resolved to different directories.
pub open spec fn changed(b: Map<Seq<char>, Seq<char>>, a: Map<Seq<char>, Seq<char>>, k: Seq<char>) -> bool {
    b.contains_key(k) && a.contains_key(k) && b[k] != a[k]
}

/// What a map holds for `k`, if anything.
pub open spec fn lookup(m: Map<Seq<char>, Seq<char>>, k: Seq<char>) -> Option<Seq<char>> {
    if m.contains_key(k) { Some(m[k]) } else { None }
}

/// The difference of two snapshots: each bucket that was removed, added or
/// changed, with its directory before and after.
pub open spec fn diff_spec(b: Map<Seq<char>, Seq<char>>, a: Map<Seq<char>, Seq<char>>) -> Map<
    Seq<char>,
    (Option<Seq<char>>, Option<Seq<char>>),
> {
    Map::new(
        |k: Seq<char>| removed(b, a, k) || added(b, a, k) || changed(b, a, k),
        |k: Seq<char>| (lookup(b, k), lookup(a, k)),
    )
}

/// One bucket that differs between two snapshots.
#[derive(Debug)]
pub struct PackageDiff {
    pub name: String,
    pub before: Option<String>,
    pub after: Option<String>,
}

/// The model of an optional directory.
pub open spec fn opt_text(o: Option<String>) -> Option<Seq<char>> {
    match o {
        Some(s) => Some(s@),
        None => None,
    }
}

/// `e` is the entry that `d` holds for its bucket.
pub open spec fn entry_agrees(
    d: Map<Seq<char>, (Option<Seq<char>>, Option<Seq<char>>)>,
    e: PackageDiff,
) -> bool {
    d.contains_key(e.name@) && d[e.name@] == (opt_text(e.before), opt_text(e.after))
}

/// `r` lists the difference `d` exactly: one entry per bucket, in some order.
pub open spec fn lists_diff(
    r: Seq<PackageDiff>,
    d: Map<Seq<char>, (Option<Seq<char>>, Option<Seq<char>>)>,
) -> bool {
    &&& forall|j: int| 0 <= j < r.len() ==> entry_agrees(d, #[trigger] r[j])
    &&& forall|i: int, j: int|
        0 <= i < r.len() && 0 <= j < r.len() && i != j ==> r[i].name@ != r[j].name@
    &&& forall|k: Seq<char>| #[trigger] d.contains_key(k) ==> exists|j: int| 0 <= j < r.len() && r[j].name@ == k
}

/// The positions in `r` of the buckets in `pos` are right.
pub open spec fn positions(r: Seq<PackageDiff>, pos: Map<Seq<char>, int>) -> bool {
    &&& forall|j: int| 0 <= j < r.len() ==> pos.contains_key(#[trigger] r[j].name@) && pos[r[j].name@] == j
    &&& forall|k: Seq<char>| #[trigger] pos.contains_key(k) ==> 0 <= pos[k] < r.len() && r[pos[k]].name@ == k
}

proof fn lemma_push_position(r: Seq<PackageDiff>, pos: Map<Seq<char>, int>, e: PackageDiff)
    requires
        positions(r, pos),
        !pos.contains_key(e.name@),
    ensures
        positions(r.push(e), pos.insert(e.name@, r.len() as int)),
{
    let r2 = r.push(e);
    let p2 = pos.insert(e.name@, r.len() as int);
    assert forall|j: int| 0 <= j < r2.len() implies p2.contains_key(#[trigger] r2[j].name@) && p2[r2[j].name@] == j by {
        if j < r.len() {
            assert(r2[j] == r[j]);
        }
    }
}

/// Lists the buckets that differ between `before` and `after`.
pub fn diff_snapshots(before: &Snapshot, after: &Snapshot) -> (r: Vec<PackageDiff>)
    requires
        before.wf(),
        after.wf(),
    ensures
        lists_diff(r@, diff_spec(before@, after@)),
{
    let ghost b = before@;
    let ghost a = after@;
    let ghost d = diff_spec(b, a);
    let ghost be = before.entries@;
    let ghost ae = after.entries@;
    let mut res: Vec<PackageDiff> = Vec::new();
    let ghost mut pos: Map<Seq<char>, int> = Map::empty();

    let mut i: usize = 0;
    while i < before.entries.len()
        invariant
            before.wf(),
            after.wf(),
            b == before@,
            a == after@,
            d == diff_spec(b, a),
            be == before.entries@,
            i <= be.len(),
            forall|j: int| 0 <= j < res@.len() ==> entry_agrees(d, #[trigger] res@[j]),
            positions(res@, pos),
            forall|k: Seq<char>| #[trigger] pos.contains_key(k) ==> removed(b, a, k) && forall|i2: int|
                i <= i2 < be.len() ==> be[i2].bucket@ != k,
            forall|i1: int| 0 <= i1 < i && removed(b, a, #[trigger] be[i1].bucket@) ==> pos.contains_key(be[i1].bucket@),
        decreases be.len() - i,
    {
        let e = &before.entries[i];
        proof { lemma_entry_in_map(be, i as int); }
        if after.get(&e.bucket).is_none() {
            let item = PackageDiff { name: e.bucket.clone(), before: Some(e.dir.clone()), after: None };
            proof {
                lemma_push_position(res@, pos, item);
                pos = pos.insert(item.name@, res@.len() as int);
            }
            res.push(item);
        }
        i = i + 1;
    }

    let mut i: usize = 0;
    while i < after.entries.len()
        invariant
            before.wf(),
            after.wf(),
            b == before@,
            a == after@,
            d == diff_spec(b, a),
            ae == after.entries@,
            i <= ae.len(),
            forall|j: int| 0 <= j < res@.len() ==> entry_agrees(d, #[trigger] res@[j]),
            positions(res@, pos),
            forall|k: Seq<char>| #[trigger] pos.contains_key(k) ==> removed(b, a, k) || (added(b, a, k) && forall|i2: int|
                i <= i2 < ae.len() ==> ae[i2].bucket@ != k),
            forall|k: Seq<char>| removed(b, a, k) ==> #[trigger] pos.contains_key(k),
            forall|i1: int| 0 <= i1 < i && added(b, a, #[trigger] ae[i1].bucket@) ==> pos.contains_key(ae[i1].bucket@),
        decreases ae.len() - i,
    {
        let e = &after.entries[i];
        proof { lemma_entry_in_map(ae, i as int); }
        if before.get(&e.bucket).is_none() {
            let item = PackageDiff { name: e.bucket.clone(), before: None, after: Some(e.dir.clone()) };
            proof {
                lemma_push_position(res@, pos, item);
                pos = pos.insert(item.name@, res@.len() as int);
            }
            res.push(item);
        }
        i = i + 1;
    }

    let mut i: usize = 0;
    while i < before.entries.len()
        invariant
            before.wf(),
            after.wf(),
            b == before@,
            a == after@,
            d == diff_spec(b, a),
            be == before.entries@,
            i <= be.len(),
            forall|j: int| 0 <= j < res@.len() ==> entry_agrees(d, #[trigger] res@[j]),
            positions(res@, pos),
            forall|k: Seq<char>| #[trigger] pos.contains_key(k) ==> removed(b, a, k) || added(b, a, k) || (changed(b, a, k) && forall|i2: int|
                i <= i2 < be.len() ==> be[i2].bucket@ != k),
            forall|k: Seq<char>| removed(b, a, k) || added(b, a, k) ==> #[trigger] pos.contains_key(k),
            forall|i1: int| 0 <= i1 < i && changed(b, a, #[trigger] be[i1].bucket@) ==> pos.contains_key(be[i1].bucket@),
        decreases be.len() - i,
    {
        let e = &before.entries[i];
        proof { lemma_entry_in_map(be, i as int); }
        match after.get(&e.bucket) {
            Some(after_dir) => {
                if *after_dir != e.dir {
                    let item = PackageDiff {
                        name: e.bucket.clone(),
                        before: Some(e.dir.clone()),
                        after: Some(after_dir.clone()),
                    };
                    proof {
                        lemma_push_position(res@, pos, item);
                        pos = pos.insert(item.name@, res@.len() as int);
                    }
                    res.push(item);
                }
            },
            None => {},
        }
        i = i + 1;
    }
    proof {
        assert forall|k: Seq<char>| #[trigger] d.contains_key(k) implies exists|j: int| 0 <= j < res@.len() && res@[j].name@ == k by {
            if changed(b, a, k) {
                let i1 = choose|i1: int| entry_at(be, k, i1);
                assert(changed(b, a, be[i1].bucket@));
            }
            assert(pos.contains_key(k));
            assert(res@[pos[k]].name@ == k);
        }
    }
    res
}

/// A snapshot compared with itself has no difference, so the listing of
/// that difference is empty.
pub proof fn lemma_diff_of_identical_is_empty(s: Map<Seq<char>, Seq<char>>)
    ensures
        diff_spec(s, s) == Map::<Seq<char>, (Option<Seq<char>>, Option<Seq<char>>)>::empty(),
        forall|r: Seq<PackageDiff>| lists_diff(r, diff_spec(s, s)) ==> r.len() == 0,
{
    assert(diff_spec(s, s) =~= Map::<Seq<char>, (Option<Seq<char>>, Option<Seq<char>>)>::empty());
    assert forall|r: Seq<PackageDiff>| lists_diff(r, diff_spec(s, s)) implies r.len() == 0 by {
        if r.len() > 0 {
            assert(entry_agrees(diff_spec(s, s), r[0]));
        }
    }
}

/// Where `after` is `before` without bucket `k`, the difference is exactly
/// one removed entry, for `k`, with its old directory.
pub proof fn lemma_diff_of_one_removed(
    before: Map<Seq<char>, Seq<char>>,
    after: Map<Seq<char>, Seq<char>>,
    k: Seq<char>,
)
    requires
        before.contains_key(k),
        after == before.remove(k),
    ensures
        diff_spec(before, after) == map![k => (Some(before[k]), None::<Seq<char>>)],
        forall|r: Seq<PackageDiff>| lists_diff(r, diff_spec(before, after)) ==> {
            &&& r.len() == 1
            &&& r[0].name@ == k
            &&& opt_text(r[0].before) == Some(before[k])
            &&& r[0].after is None
        },
{
    let d = diff_spec(before, after);
    assert(d =~= map![k => (Some(before[k]), None::<Seq<char>>)]);
    assert forall|r: Seq<PackageDiff>| lists_diff(r, d) implies {
        &&& r.len() == 1
        &&& r[0].name@ == k
        &&& opt_text(r[0].before) == Some(before[k])
        &&& r[0].after is None
    } by {
        assert(d.contains_key(k));
        let j = choose|j: int| 0 <= j < r.len() && r[j].name@ == k;
        assert(entry_agrees(d, r[j]));
        if r.len() > 1 {
            let other = if j == 0 { 1int } else { 0int };
            assert(entry_agrees(d, r[other]));
        }
        assert(entry_agrees(d, r[0]));
    }
}

/// Once a prefix of a resolved set fails, the whole set fails the same way.
proof fn lemma_fault_persists(pkgs: Seq<ResolvedModel>, n: int)
    requires
        0 <= n <= pkgs.len(),
        extract_spec(pkgs.take(n)) is Err,
    ensures
        extract_spec(pkgs) == extract_spec(pkgs.take(n)),
    decreases pkgs.len() - n,
{
    if n < pkgs.len() {
        assert(pkgs.take(n + 1).drop_last() =~= pkgs.take(n));
        lemma_fault_persists(pkgs, n + 1);
    } else {
        assert(pkgs.take(n) =~= pkgs);
    }
}

} // verus!
