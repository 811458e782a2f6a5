use vstd::prelude::*;

use vstd::multiset::Multiset;

use crate::digest::hmac_key;
use crate::digest::hmac_sha1;
use crate::digest::hmac_sha1_of;
use crate::digest::md5_digest;
use crate::digest::md5_of;
use crate::digest::spec_hmac_key;
use crate::model::Archive;
use crate::model::FileEntryV;
use crate::model::PackageType;
use crate::model::PackageV;

verus! {

/// Compares two byte vectors.
pub fn bytes_eq(a: &Vec<u8>, b: &Vec<u8>) -> (r: bool)
    ensures
        r == (a@ == b@),
{
    if a.len() != b.len() {
        return false;
    }
    let n = a.len();
    let mut i: usize = 0;
    while i < n
        invariant
            i <= n,
            n == a@.len(),
            n == b@.len(),
            forall|j: int| 0 <= j < i ==> a@[j] == b@[j],
        decreases n - i,
    {
        if a[i] != b[i] {
            return false;
        }
        i = i + 1;
    }
    proof {
        assert(a@ =~= b@);
    }
    true
}

/// Whether a file entry's stored digests both match the bytes the entry
/// points at, which must lie inside the stream.
pub open spec fn entry_passes(data: Seq<u8>, p: PackageV, e: FileEntryV) -> bool {
    &&& Archive::spec_entry_in_bounds(data, p, e)
    &&& md5_of(Archive::spec_entry_data(data, p, e)) == e.md5
    &&& hmac_sha1_of(spec_hmac_key(), Archive::spec_entry_data(data, p, e)) == e.hmac
}

/// How one file failed verification.  An unreadable data range is kept
/// apart from a digest mismatch.
#[derive(Debug, Clone, Copy, PartialEq, Eq, Structural)]
pub enum FailureKind {
    /// The entry's byte range runs past the end of the stream.
    Unreadable,
    /// At least one digest differs; each flag tells whether that digest
    /// matched.
    Mismatch { md5_ok: bool, hmac_ok: bool },
}

/// Mathematical shape of one verification failure.
pub struct FailureV {
    pub package: Seq<u8>,
    pub file: Seq<u8>,
    pub kind: FailureKind,
}

/// One failing file, named together with its package.
#[derive(Debug, Clone, PartialEq, Eq)]
pub struct Failure {
    pub package: Vec<u8>,
    pub file: Vec<u8>,
    pub kind: FailureKind,
}

impl View for Failure {
    type V = FailureV;

    open spec fn view(&self) -> FailureV {
        FailureV { package: self.package@, file: self.file@, kind: self.kind }
    }
}

pub open spec fn failure_views(fs: Seq<Failure>) -> Seq<FailureV> {
    fs.map_values(|f: Failure| f@)
}

/// How the entry fails, if it does.
pub open spec fn spec_entry_fail_kind(data: Seq<u8>, p: PackageV, e: FileEntryV) -> Option<
    FailureKind,
> {
    if !Archive::spec_entry_in_bounds(data, p, e) {
        Some(FailureKind::Unreadable)
    } else {
        let md5_ok = md5_of(Archive::spec_entry_data(data, p, e)) == e.md5;
        let hmac_ok = hmac_sha1_of(spec_hmac_key(), Archive::spec_entry_data(data, p, e))
            == e.hmac;
        if md5_ok && hmac_ok {
            None
        } else {
            Some(FailureKind::Mismatch { md5_ok, hmac_ok })
        }
    }
}

pub open spec fn fail_of(p: PackageV, e: FileEntryV, k: FailureKind) -> FailureV {
    FailureV { package: p.name, file: e.name, kind: k }
}

/// The failures among the entries of `p` from index `i` on, in manifest
/// order.
pub open spec fn entry_fails(data: Seq<u8>, p: PackageV, i: int) -> Seq<FailureV>
    decreases p.files.len() - i when 0 <= i <= p.files.len()
{
    if i >= p.files.len() {
        Seq::empty()
    } else {
        let rest = entry_fails(data, p, i + 1);
        match spec_entry_fail_kind(data, p, p.files[i]) {
            Some(k) => seq![fail_of(p, p.files[i], k)] + rest,
            None => rest,
        }
    }
}

/// The failures of all packages from index `k` on, package by package.
pub open spec fn pkg_fails(data: Seq<u8>, ps: Seq<PackageV>, k: int) -> Seq<FailureV>
    decreases ps.len() - k when 0 <= k <= ps.len()
{
    if k >= ps.len() {
        Seq::empty()
    } else {
        entry_fails(data, ps[k], 0) + pkg_fails(data, ps, k + 1)
    }
}

/// Every file of every package passes both digest checks.
pub open spec fn all_entries_pass(data: Seq<u8>, ps: Seq<PackageV>) -> bool {
    forall|k: int, j: int|
        0 <= k < ps.len() && 0 <= j < ps[k].files.len() ==> #[trigger] entry_passes(
            data,
            ps[k],
            ps[k].files[j],
        )
}


/// Round-trip: in an archive that passed bulk verification, the digests
/// of the bytes a file entry reads back equal the entry's stored MD5 and
/// HMAC digests.
pub proof fn lemma_round_trip(data: Seq<u8>, ps: Seq<PackageV>, k: int, j: int)
    requires
        all_entries_pass(data, ps),
        0 <= k < ps.len(),
        0 <= j < ps[k].files.len(),
    ensures
        md5_of(Archive::spec_entry_data(data, ps[k], ps[k].files[j])) == ps[k].files[j].md5,
        hmac_sha1_of(spec_hmac_key(), Archive::spec_entry_data(data, ps[k], ps[k].files[j]))
            == ps[k].files[j].hmac,
{
    assert(entry_passes(data, ps[k], ps[k].files[j]));
}

proof fn lemma_entry_fails_empty(data: Seq<u8>, p: PackageV, i: int)
    requires
        0 <= i <= p.files.len(),
        entry_fails(data, p, i) == Seq::<FailureV>::empty(),
    ensures
        forall|j: int| i <= j < p.files.len() ==> #[trigger] entry_passes(data, p, p.files[j]),
    decreases p.files.len() - i,
{
    if i < p.files.len() {
        match spec_entry_fail_kind(data, p, p.files[i]) {
            Some(k) => {
                assert(entry_fails(data, p, i).len() > 0);
            },
            None => {
                assert(entry_passes(data, p, p.files[i]));
            },
        }
        lemma_entry_fails_empty(data, p, i + 1);
    }
}

proof fn lemma_pkg_fails_empty(data: Seq<u8>, ps: Seq<PackageV>, k: int)
    requires
        0 <= k <= ps.len(),
        pkg_fails(data, ps, k) == Seq::<FailureV>::empty(),
    ensures
        forall|k2: int, j: int|
            k <= k2 < ps.len() && 0 <= j < ps[k2].files.len() ==> #[trigger] entry_passes(
                data,
                ps[k2],
                ps[k2].files[j],
            ),
    decreases ps.len() - k,
{
    if k < ps.len() {
        assert(pkg_fails(data, ps, k) == entry_fails(data, ps[k], 0) + pkg_fails(
            data,
            ps,
            k + 1,
        ));
        assert(entry_fails(data, ps[k], 0).len() == 0);
        assert(entry_fails(data, ps[k], 0) =~= Seq::<FailureV>::empty());
        lemma_entry_fails_empty(data, ps[k], 0);
        assert(pkg_fails(data, ps, k + 1) =~= Seq::<FailureV>::empty());
        lemma_pkg_fails_empty(data, ps, k + 1);
    }
}

/// Checks one entry, returning how it fails if it does.
fn check_entry(a: &Archive, key: &Vec<u8>, pi: usize, fi: usize) -> (r: Option<FailureKind>)
    requires
        key@ == spec_hmac_key(),
        pi < a.spec_packages().len(),
        fi < a.spec_packages()[pi as int].files.len(),
    ensures
        r == spec_entry_fail_kind(
            a.spec_data(),
            a.spec_packages()[pi as int],
            a.spec_packages()[pi as int].files[fi as int],
        ),
{
    let bytes = match a.read_entry(pi, fi) {
        Ok(b) => b,
        Err(_) => {
            return Some(FailureKind::Unreadable);
        },
    };
    let m = md5_digest(&bytes);
    let h = hmac_sha1(key, &bytes);
    let e = &a.packages[pi].files[fi];
    proof {
        assert(a.spec_packages()[pi as int].files[fi as int]
            == a.packages@[pi as int].files@[fi as int]@);
    }
    let md5_ok = bytes_eq(&m, &e.md5);
    let hmac_ok = bytes_eq(&h, &e.hmac);
    if md5_ok && hmac_ok {
        None
    } else {
        Some(FailureKind::Mismatch { md5_ok, hmac_ok })
    }
}

/// Bulk integrity verification, which extraction requires to pass first:
/// every file of every package is examined, nothing short-circuits, and
/// the failures are collected in manifest order.  On success every stored
/// digest is the digest of the entry's bytes.
#[verifier::loop_isolation(false)]
#[verifier::rlimit(100)]
pub fn verify_all(a: &Archive) -> (r: Result<(), Vec<Failure>>)
    ensures
        match r {
            Ok(()) => {
                &&& pkg_fails(a.spec_data(), a.spec_packages(), 0) == Seq::<FailureV>::empty()
                &&& all_entries_pass(a.spec_data(), a.spec_packages())
            },
            Err(fs) => {
                &&& failure_views(fs@) == pkg_fails(a.spec_data(), a.spec_packages(), 0)
                &&& fs@.len() > 0
            },
        },
{
    let ghost data = a.spec_data();
    let ghost ps = a.spec_packages();
    let key = hmac_key();
    let mut failures: Vec<Failure> = Vec::new();
    let mut k: usize = 0;
    proof {
        assert(failure_views(failures@) =~= Seq::<FailureV>::empty());
    }
    while k < a.packages.len()
        invariant
            k <= a.packages.len(),
            key@ == spec_hmac_key(),
            failure_views(failures@) + pkg_fails(data, ps, k as int) == pkg_fails(data, ps, 0),
        decreases a.packages.len() - k,
    {
        let mut i: usize = 0;
        let n = a.packages[k].files.len();
        proof {
            assert(ps[k as int] == a.packages@[k as int]@);
        }
        while i < n
            invariant
                k < a.packages.len(),
                i <= n,
                n == ps[k as int].files.len(),
                key@ == spec_hmac_key(),
                failure_views(failures@) + entry_fails(data, ps[k as int], i as int) + pkg_fails(
                    data,
                    ps,
                    k + 1,
                ) == pkg_fails(data, ps, 0),
            decreases n - i,
        {
            let kind = check_entry(a, &key, k, i);
            match kind {
                None => {
                    proof {
                        assert(entry_fails(data, ps[k as int], i as int) == entry_fails(
                            data,
                            ps[k as int],
                            i + 1,
                        ));
                    }
                },
                Some(kd) => {
                    let pname = a.packages[k].name.clone();
                    let fname = a.packages[k].files[i].name.clone();
                    let f = Failure { package: pname, file: fname, kind: kd };
                    proof {
                        let fv = fail_of(ps[k as int], ps[k as int].files[i as int], kd);
                        assert(ps[k as int].files[i as int]
                            == a.packages@[k as int].files@[i as int]@);
                        assert(f@ == fv);
                        assert(entry_fails(data, ps[k as int], i as int) == seq![fv]
                            + entry_fails(data, ps[k as int], i + 1));
                        assert(failure_views(failures@.push(f)) =~= failure_views(failures@)
                            .push(fv));
                        assert(failure_views(failures@.push(f)) + entry_fails(
                            data,
                            ps[k as int],
                            i + 1,
                        ) =~= failure_views(failures@) + entry_fails(data, ps[k as int], i as int));
                    }
                    failures.push(f);
                },
            }
            i = i + 1;
        }
        proof {
            assert(entry_fails(data, ps[k as int], n as int) =~= Seq::<FailureV>::empty());
            assert(failure_views(failures@) + entry_fails(data, ps[k as int], n as int)
                =~= failure_views(failures@));
        }
        k = k + 1;
    }
    proof {
        assert(pkg_fails(data, ps, a.packages@.len() as int) =~= Seq::<FailureV>::empty());
        assert(failure_views(failures@) + pkg_fails(data, ps, a.packages@.len() as int)
            =~= failure_views(failures@));
    }
    if failures.len() == 0 {
        proof {
            assert(failure_views(failures@) =~= Seq::<FailureV>::empty());
            lemma_pkg_fails_empty(data, ps, 0);
        }
        Ok(())
    } else {
        Err(failures)
    }
}


// ------------------------------------------------------------------
// The human-facing report.
// ------------------------------------------------------------------

/// Byte-wise lexicographic order.
pub open spec fn lex_le(a: Seq<u8>, b: Seq<u8>) -> bool
    decreases a.len(),
{
    if a.len() == 0 {
        true
    } else if b.len() == 0 {
        false
    } else if a[0] < b[0] {
        true
    } else if a[0] > b[0] {
        false
    } else {
        lex_le(a.skip(1), b.skip(1))
    }
}

/// The order is total.
pub proof fn lemma_lex_total(a: Seq<u8>, b: Seq<u8>)
    ensures
        lex_le(a, b) || lex_le(b, a),
    decreases a.len(),
{
    if a.len() > 0 && b.len() > 0 && a[0] == b[0] {
        lemma_lex_total(a.skip(1), b.skip(1));
    }
}

/// The order is transitive.
pub proof fn lemma_lex_trans(a: Seq<u8>, b: Seq<u8>, c: Seq<u8>)
    requires
        lex_le(a, b),
        lex_le(b, c),
    ensures
        lex_le(a, c),
    decreases a.len(),
{
    if a.len() > 0 && b.len() > 0 && c.len() > 0 && a[0] == b[0] && b[0] == c[0] {
        lemma_lex_trans(a.skip(1), b.skip(1), c.skip(1));
    }
}

/// Compares two names in lexicographic order.
pub fn lex_le_bytes(a: &Vec<u8>, b: &Vec<u8>) -> (r: bool)
    ensures
        r == lex_le(a@, b@),
{
    let an = a.len();
    let bn = b.len();
    let mut i: usize = 0;
    proof {
        assert(a@.skip(0) =~= a@);
        assert(b@.skip(0) =~= b@);
    }
    loop
        invariant
            i <= an,
            i <= bn,
            an == a@.len(),
            bn == b@.len(),
            lex_le(a@, b@) == lex_le(a@.skip(i as int), b@.skip(i as int)),
            lex_le(b@, a@) == lex_le(b@.skip(i as int), a@.skip(i as int)),
        decreases an - i,
    {
        proof {
            assert(a@.skip(i as int).len() == an - i);
            assert(b@.skip(i as int).len() == bn - i);
        }
        if i >= an {
            return true;
        }
        if i >= bn {
            return false;
        }
        let x = a[i];
        let y = b[i];
        proof {
            assert(a@.skip(i as int)[0] == a@[i as int]);
            assert(b@.skip(i as int)[0] == b@[i as int]);
        }
        if x < y {
            return true;
        }
        if x > y {
            return false;
        }
        proof {
            assert(a@.skip(i as int).skip(1) =~= a@.skip(i + 1));
            assert(b@.skip(i as int).skip(1) =~= b@.skip(i + 1));
        }
        i = i + 1;
    }
}

/// Mathematical shape of one report row.
pub struct ReportRowV {
    pub name: Seq<u8>,
    pub mode: u16,
    pub file_size: u64,
    pub readable: bool,
    pub md5_ok: bool,
    pub hmac_ok: bool,
}

/// One row of the per-package report: the file's name, permission mode,
/// size, and a pass mark for each of the two digests.
#[derive(Debug, Clone, PartialEq, Eq)]
pub struct ReportRow {
    pub name: Vec<u8>,
    pub mode: u16,
    pub file_size: u64,
    /// Whether the entry's byte range could be read at all.
    pub readable: bool,
    pub md5_ok: bool,
    pub hmac_ok: bool,
}

impl View for ReportRow {
    type V = ReportRowV;

    open spec fn view(&self) -> ReportRowV {
        ReportRowV {
            name: self.name@,
            mode: self.mode,
            file_size: self.file_size,
            readable: self.readable,
            md5_ok: self.md5_ok,
            hmac_ok: self.hmac_ok,
        }
    }
}

pub open spec fn row_views(rs: Seq<ReportRow>) -> Seq<ReportRowV> {
    rs.map_values(|r: ReportRow| r@)
}

/// The row that reports one entry.
pub open spec fn row_of(data: Seq<u8>, p: PackageV, e: FileEntryV) -> ReportRowV {
    ReportRowV {
        name: e.name,
        mode: e.mode,
        file_size: e.file_size,
        readable: Archive::spec_entry_in_bounds(data, p, e),
        md5_ok: Archive::spec_entry_in_bounds(data, p, e) && md5_of(
            Archive::spec_entry_data(data, p, e),
        ) == e.md5,
        hmac_ok: Archive::spec_entry_in_bounds(data, p, e) && hmac_sha1_of(
            spec_hmac_key(),
            Archive::spec_entry_data(data, p, e),
        ) == e.hmac,
    }
}

/// The rows of one package, in manifest order.
pub open spec fn spec_rows(data: Seq<u8>, p: PackageV) -> Seq<ReportRowV> {
    Seq::new(p.files.len(), |i: int| row_of(data, p, p.files[i]))
}

/// Rows sorted by name.
pub open spec fn rows_sorted(rs: Seq<ReportRowV>) -> bool {
    forall|i: int, j: int| 0 <= i < j < rs.len() ==> #[trigger] lex_le(rs[i].name, rs[j].name)
}

proof fn lemma_insert_to_multiset(s: Seq<ReportRowV>, j: int, x: ReportRowV)
    requires
        0 <= j <= s.len(),
    ensures
        s.insert(j, x).to_multiset() == s.to_multiset().insert(x),
{
    broadcast use vstd::seq_lib::group_seq_properties;

    let left = s.subrange(0, j);
    let right = s.subrange(j, s.len() as int);
    assert(s.insert(j, x) == left.push(x) + right);
    vstd::seq_lib::lemma_multiset_commutative(left.push(x), right);
    vstd::seq_lib::lemma_multiset_commutative(left, right);
    left.to_multiset_ensures();
    assert(left.push(x).to_multiset() =~= left.to_multiset().insert(x));
    assert(left + right =~= s);
    assert(s.insert(j, x).to_multiset() =~= s.to_multiset().insert(x));
}

/// First index whose row's name does not come before `x`'s.
fn insert_point(out: &Vec<ReportRow>, x: &ReportRow) -> (j: usize)
    ensures
        j <= out@.len(),
        forall|j2: int| 0 <= j2 < j ==> lex_le(#[trigger] row_views(out@)[j2].name, x@.name),
        j < out@.len() ==> !lex_le(row_views(out@)[j as int].name, x@.name),
{
    let n = out.len();
    let mut j: usize = 0;
    loop
        invariant
            j <= n,
            n == out@.len(),
            forall|j2: int| 0 <= j2 < j ==> lex_le(#[trigger] row_views(out@)[j2].name, x@.name),
        decreases n - j,
    {
        if j >= n {
            return j;
        }
        if !lex_le_bytes(&out[j].name, &x.name) {
            return j;
        }
        j = j + 1;
    }
}

/// Inserts one row into a name-sorted list, keeping it sorted.
#[verifier::loop_isolation(false)]
#[verifier::rlimit(60)]
fn insert_row(out: &mut Vec<ReportRow>, x: ReportRow)
    requires
        rows_sorted(row_views(old(out)@)),
    ensures
        rows_sorted(row_views(final(out)@)),
        row_views(final(out)@).to_multiset() == row_views(old(out)@).to_multiset().insert(x@),
{
    let j = insert_point(out, &x);
    proof {
        if j < out@.len() {
            lemma_lex_total(out@[j as int]@.name, x@.name);
        }
        let rs = row_views(out@);
        let rs2 = row_views(out@.insert(j as int, x));
        out@.insert_ensures(j as int, x);
        rs.insert_ensures(j as int, x@);
        assert(rs2 =~= rs.insert(j as int, x@));
        assert forall|i1: int, i2: int| 0 <= i1 < i2 < rs2.len() implies #[trigger] lex_le(
            rs2[i1].name,
            rs2[i2].name,
        ) by {
            if i1 < j && i2 < j {
            } else if i1 < j && i2 == j {
                assert(lex_le(rs[i1].name, x@.name));
            } else if i1 < j && i2 > j {
                assert(lex_le(rs[i1].name, rs[i2 - 1].name));
            } else if i1 == j {
                assert(lex_le(x@.name, rs[j as int].name));
                if i2 - 1 > j {
                    lemma_lex_trans(x@.name, rs[j as int].name, rs[i2 - 1].name);
                }
            } else {
                assert(lex_le(rs[i1 - 1].name, rs[i2 - 1].name));
            }
        }
        lemma_insert_to_multiset(rs, j as int, x@);
    }
    out.insert(j, x);
}

/// Sorts a package's rows by file name.  The result holds exactly the
/// same rows.
#[verifier::loop_isolation(false)]
#[verifier::rlimit(60)]
pub fn sort_rows(rows: Vec<ReportRow>) -> (r: Vec<ReportRow>)
    ensures
        rows_sorted(row_views(r@)),
        row_views(r@).to_multiset() == row_views(rows@).to_multiset(),
{
    let mut rest = rows;
    let ghost orig = row_views(rest@);
    let mut out: Vec<ReportRow> = Vec::new();
    proof {
        let e = row_views(out@);
        e.to_multiset_ensures();
        assert(e =~= Seq::<ReportRowV>::empty());
        assert(e.to_multiset() =~= Multiset::<ReportRowV>::empty());
        assert(e.to_multiset().add(row_views(rest@).to_multiset()) =~= row_views(
            rest@,
        ).to_multiset());
    }
    while rest.len() > 0
        invariant
            rows_sorted(row_views(out@)),
            row_views(out@).to_multiset().add(row_views(rest@).to_multiset())
                == orig.to_multiset(),
        decreases rest@.len(),
    {
        let ghost pre_vec = rest@;
        let ghost pre = row_views(rest@);
        let x = rest.remove(0);
        proof {
            pre_vec.remove_ensures(0);
            pre.remove_ensures(0);
            assert(row_views(rest@) =~= pre.remove(0));
            pre.to_multiset_ensures();
            assert(pre.remove(0).to_multiset() =~= pre.to_multiset().remove(pre[0]));
            assert(pre.contains(pre[0]));
        }
        let ghost out_pre = row_views(out@);
        insert_row(&mut out, x);
        proof {
            assert(row_views(out@).to_multiset().add(row_views(rest@).to_multiset())
                =~= out_pre.to_multiset().add(pre.to_multiset()));
        }
    }
    proof {
        row_views(rest@).to_multiset_ensures();
        assert(row_views(rest@) =~= Seq::<ReportRowV>::empty());
        assert(row_views(rest@).to_multiset() =~= Multiset::<ReportRowV>::empty());
        assert(row_views(out@).to_multiset().add(row_views(rest@).to_multiset())
            =~= row_views(out@).to_multiset());
    }
    out
}

/// Mathematical shape of a package report.
pub struct PackageReportV {
    pub name: Seq<u8>,
    pub major_version: u8,
    pub minor_version: u8,
    pub patch_version: u8,
    pub package_type: PackageType,
    pub rows: Seq<ReportRowV>,
}

/// The report of one package: its header line and a row per file, sorted
/// by file name.
#[derive(Debug, Clone, PartialEq, Eq)]
pub struct PackageReport {
    pub name: Vec<u8>,
    pub major_version: u8,
    pub minor_version: u8,
    pub patch_version: u8,
    pub package_type: PackageType,
    pub rows: Vec<ReportRow>,
}

impl View for PackageReport {
    type V = PackageReportV;

    open spec fn view(&self) -> PackageReportV {
        PackageReportV {
            name: self.name@,
            major_version: self.major_version,
            minor_version: self.minor_version,
            patch_version: self.patch_version,
            package_type: self.package_type,
            rows: row_views(self.rows@),
        }
    }
}

/// The report of package `p` is correct: header copied from the package,
/// rows sorted by name and holding exactly one row per file entry.
pub open spec fn report_ok(data: Seq<u8>, p: PackageV, r: PackageReportV) -> bool {
    &&& r.name == p.name
    &&& r.major_version == p.major_version
    &&& r.minor_version == p.minor_version
    &&& r.patch_version == p.patch_version
    &&& r.package_type == p.package_type
    &&& rows_sorted(r.rows)
    &&& r.rows.to_multiset() == spec_rows(data, p).to_multiset()
}

/// The reporting check: computes both digests of every file and returns,
/// per package, a table of name, mode, size and a pass mark per digest,
/// sorted by file name.  It is a diagnostic pass, not a gate: a failing
/// file only shows as a failed mark.
#[verifier::loop_isolation(false)]
#[verifier::rlimit(100)]
pub fn verify(a: &Archive) -> (r: Vec<PackageReport>)
    ensures
        r@.len() == a.spec_packages().len(),
        forall|k: int| 0 <= k < r@.len() ==> report_ok(
            a.spec_data(),
            a.spec_packages()[k],
            #[trigger] r@[k]@,
        ),
{
    let ghost data = a.spec_data();
    let ghost ps = a.spec_packages();
    let key = hmac_key();
    let mut reports: Vec<PackageReport> = Vec::new();
    let mut k: usize = 0;
    while k < a.packages.len()
        invariant
            k <= a.packages.len(),
            key@ == spec_hmac_key(),
            reports@.len() == k,
            forall|k2: int| 0 <= k2 < k ==> report_ok(data, ps[k2], #[trigger] reports@[k2]@),
        decreases a.packages.len() - k,
    {
        proof {
            assert(ps[k as int] == a.packages@[k as int]@);
        }
        let n = a.packages[k].files.len();
        let mut rows: Vec<ReportRow> = Vec::new();
        let mut i: usize = 0;
        while i < n
            invariant
                k < a.packages.len(),
                i <= n,
                n == ps[k as int].files.len(),
                key@ == spec_hmac_key(),
                row_views(rows@) =~= spec_rows(data, ps[k as int]).subrange(0, i as int),
            decreases n - i,
        {
            proof {
                assert(ps[k as int].files[i as int]
                    == a.packages@[k as int].files@[i as int]@);
            }
            let kind = check_entry(a, &key, k, i);
            let e = &a.packages[k].files[i];
            let row = match kind {
                None => ReportRow {
                    name: e.name.clone(),
                    mode: e.mode,
                    file_size: e.file_size,
                    readable: true,
                    md5_ok: true,
                    hmac_ok: true,
                },
                Some(FailureKind::Unreadable) => ReportRow {
                    name: e.name.clone(),
                    mode: e.mode,
                    file_size: e.file_size,
                    readable: false,
                    md5_ok: false,
                    hmac_ok: false,
                },
                Some(FailureKind::Mismatch { md5_ok, hmac_ok }) => ReportRow {
                    name: e.name.clone(),
                    mode: e.mode,
                    file_size: e.file_size,
                    readable: true,
                    md5_ok,
                    hmac_ok,
                },
            };
            proof {
                assert(row@ == row_of(data, ps[k as int], ps[k as int].files[i as int]));
                assert(row_views(rows@.push(row)) =~= row_views(rows@).push(row@));
                assert(spec_rows(data, ps[k as int]).subrange(0, i + 1) =~= spec_rows(
                    data,
                    ps[k as int],
                ).subrange(0, i as int).push(
                    spec_rows(data, ps[k as int])[i as int],
                ));
            }
            rows.push(row);
            i = i + 1;
        }
        proof {
            assert(spec_rows(data, ps[k as int]).subrange(0, n as int) =~= spec_rows(
                data,
                ps[k as int],
            ));
        }
        let sorted = sort_rows(rows);
        let p = &a.packages[k];
        let report = PackageReport {
            name: p.name.clone(),
            major_version: p.major_version,
            minor_version: p.minor_version,
            patch_version: p.patch_version,
            package_type: p.package_type,
            rows: sorted,
        };
        reports.push(report);
        k = k + 1;
    }
    reports
}

} // verus!
