use vstd::prelude::*;

use crate::fs::FileSystem;
use crate::fs::FsError;
use crate::fs::WriteRecordV;
use crate::fs::WriteResult;
use crate::model::Archive;
use crate::model::FileEntryV;
use crate::model::PackageV;
use crate::verify::Failure;
use crate::verify::all_entries_pass;
use crate::verify::entry_passes;
use crate::verify::failure_views;
use crate::verify::pkg_fails;
use crate::verify::verify_all;

verus! {

/// Why extraction stopped.
#[derive(Debug)]
pub enum ExtractError {
    /// The bulk integrity check failed; every failing file is listed.
    Verification(Vec<Failure>),
    /// A manifest file name is an absolute path; the package's name and
    /// the file's name follow.  Nothing is written for an archive with
    /// such a name.
    AbsolutePath(Vec<u8>, Vec<u8>),
    /// The sink failed while writing.
    Sink(FsError),
}

/// What one written file is reported as.
#[derive(Debug, Clone, PartialEq, Eq)]
pub struct ExtractOutcome {
    pub file: Vec<u8>,
    pub result: WriteResult,
}

/// A file name that is an absolute path, which extraction refuses.
pub open spec fn entry_absolute(e: FileEntryV) -> bool {
    e.name.len() > 0 && e.name[0] == 0x2F
}

/// Whether any file of any package has an absolute name.
pub open spec fn any_absolute(ps: Seq<PackageV>) -> bool {
    exists|k: int, j: int|
        0 <= k < ps.len() && 0 <= j < ps[k].files.len() && entry_absolute(
            #[trigger] ps[k].files[j],
        )
}

/// The destination path of one file: `<to>/<package-name>/<file-name>`.
pub open spec fn spec_dest_path(to: Seq<u8>, pname: Seq<u8>, fname: Seq<u8>) -> Seq<u8> {
    to + seq![0x2Fu8] + pname + seq![0x2Fu8] + fname
}

/// Joins the destination root, a package name and a file name.
pub fn dest_path(to: &Vec<u8>, pname: &Vec<u8>, fname: &Vec<u8>) -> (r: Vec<u8>)
    ensures
        r@ == spec_dest_path(to@, pname@, fname@),
{
    let mut out: Vec<u8> = Vec::new();
    out.extend_from_slice(to.as_slice());
    out.push(0x2F);
    out.extend_from_slice(pname.as_slice());
    out.push(0x2F);
    out.extend_from_slice(fname.as_slice());
    proof {
        assert(out@ =~= spec_dest_path(to@, pname@, fname@));
    }
    out
}

/// The write that extracts entry `e` of package `p`.
pub open spec fn write_of(data: Seq<u8>, to: Seq<u8>, p: PackageV, e: FileEntryV) -> WriteRecordV {
    WriteRecordV {
        path: spec_dest_path(to, p.name, e.name),
        data: Archive::spec_entry_data(data, p, e),
        mode: e.mode,
    }
}

/// The writes that extract package `p`, from entry `i` on.
pub open spec fn plan_entries(data: Seq<u8>, to: Seq<u8>, p: PackageV, i: int) -> Seq<WriteRecordV>
    decreases p.files.len() - i when 0 <= i <= p.files.len()
{
    if i >= p.files.len() {
        Seq::empty()
    } else {
        seq![write_of(data, to, p, p.files[i])] + plan_entries(data, to, p, i + 1)
    }
}

/// The writes that extract all packages from index `k` on.
pub open spec fn plan_packages(data: Seq<u8>, to: Seq<u8>, ps: Seq<PackageV>, k: int) -> Seq<
    WriteRecordV,
>
    decreases ps.len() - k when 0 <= k <= ps.len()
{
    if k >= ps.len() {
        Seq::empty()
    } else {
        plan_entries(data, to, ps[k], 0) + plan_packages(data, to, ps, k + 1)
    }
}

/// The file names of a list of outcomes, in order.
pub open spec fn outcome_files(outs: Seq<ExtractOutcome>) -> Seq<Seq<u8>> {
    outs.map_values(|o: ExtractOutcome| o.file@)
}

/// The file names that extracting package `p` reports, from entry `i` on.
pub open spec fn name_plan_entries(p: PackageV, i: int) -> Seq<Seq<u8>>
    decreases p.files.len() - i when 0 <= i <= p.files.len()
{
    if i >= p.files.len() {
        Seq::empty()
    } else {
        seq![p.files[i].name] + name_plan_entries(p, i + 1)
    }
}

/// The file names that extracting all packages from index `k` on reports.
pub open spec fn name_plan_packages(ps: Seq<PackageV>, k: int) -> Seq<Seq<u8>>
    decreases ps.len() - k when 0 <= k <= ps.len()
{
    if k >= ps.len() {
        Seq::empty()
    } else {
        name_plan_entries(ps[k], 0) + name_plan_packages(ps, k + 1)
    }
}

/// The pair names one manifest entry whose file name is an absolute path:
/// what the rejection error carries.
pub open spec fn names_absolute_entry(ps: Seq<PackageV>, package: Seq<u8>, file: Seq<u8>) -> bool {
    exists|k: int, j: int|
        0 <= k < ps.len() && 0 <= j < ps[k].files.len() && (#[trigger] ps[k].files[j]).name
            == file && ps[k].name == package && entry_absolute(ps[k].files[j])
}

/// The log grew by exactly some prefix of the plan: what holds of the
/// sink after a write failed partway.
pub open spec fn wrote_plan_prefix(
    before: Seq<WriteRecordV>,
    after: Seq<WriteRecordV>,
    plan: Seq<WriteRecordV>,
) -> bool {
    exists|n: int| 0 <= n <= plan.len() && after == before + #[trigger] plan.subrange(0, n)
}

/// The extraction pipeline.  The caller clears the destination directory
/// first; extraction then runs the bulk integrity check and refuses to
/// write anything for an archive that fails it, refuses any manifest file
/// name that is an absolute path before a single byte is written, and
/// only then writes every file of every package through the sink, each
/// under `<to>/<package-name>/<file-name>` with its manifest mode.
#[verifier::loop_isolation(false)]
#[verifier::rlimit(100)]
pub fn extract<F: FileSystem>(a: &Archive, to: &Vec<u8>, fs: &mut F) -> (r: Result<
    Vec<ExtractOutcome>,
    ExtractError,
>)
    requires
        a.wf(),
    ensures
        match r {
            Ok(outs) => {
                &&& all_entries_pass(a.spec_data(), a.spec_packages())
                &&& !any_absolute(a.spec_packages())
                &&& final(fs).writes() == old(fs).writes() + plan_packages(
                    a.spec_data(),
                    to@,
                    a.spec_packages(),
                    0,
                )
                &&& outs@.len() == plan_packages(a.spec_data(), to@, a.spec_packages(), 0).len()
                &&& outcome_files(outs@) == name_plan_packages(a.spec_packages(), 0)
            },
            Err(ExtractError::Verification(fails)) => {
                &&& failure_views(fails@) == pkg_fails(a.spec_data(), a.spec_packages(), 0)
                &&& fails@.len() > 0
                &&& final(fs).writes() == old(fs).writes()
            },
            Err(ExtractError::AbsolutePath(package, file)) => {
                &&& all_entries_pass(a.spec_data(), a.spec_packages())
                &&& any_absolute(a.spec_packages())
                &&& names_absolute_entry(a.spec_packages(), package@, file@)
                &&& final(fs).writes() == old(fs).writes()
            },
            Err(ExtractError::Sink(_)) => {
                &&& all_entries_pass(a.spec_data(), a.spec_packages())
                &&& !any_absolute(a.spec_packages())
                &&& plan_packages(a.spec_data(), to@, a.spec_packages(), 0).len() > 0
                &&& wrote_plan_prefix(
                    old(fs).writes(),
                    final(fs).writes(),
                    plan_packages(a.spec_data(), to@, a.spec_packages(), 0),
                )
            },
        },
{
    let ghost data = a.spec_data();
    let ghost ps = a.spec_packages();
    match verify_all(a) {
        Ok(()) => {},
        Err(fails) => {
            return Err(ExtractError::Verification(fails));
        },
    }
    // Safety gate: reject every absolute file name before any write.
    let mut k: usize = 0;
    while k < a.packages.len()
        invariant
            k <= a.packages.len(),
            forall|k2: int, j: int|
                0 <= k2 < k && 0 <= j < ps[k2].files.len() ==> !entry_absolute(
                    #[trigger] ps[k2].files[j],
                ),
        decreases a.packages.len() - k,
    {
        proof {
            assert(ps[k as int] == a.packages@[k as int]@);
        }
        let n = a.packages[k].files.len();
        let mut j: usize = 0;
        while j < n
            invariant
                k < a.packages.len(),
                j <= n,
                n == ps[k as int].files.len(),
                forall|j2: int| 0 <= j2 < j ==> !entry_absolute(
                    #[trigger] ps[k as int].files[j2],
                ),
            decreases n - j,
        {
            proof {
                assert(ps[k as int].files[j as int] == a.packages@[k as int].files@[j as int]@);
            }
            let e = &a.packages[k].files[j];
            if e.name.len() > 0 && e.name[0] == 0x2F {
                let package = a.packages[k].name.clone();
                let file = e.name.clone();
                proof {
                    assert(entry_absolute(ps[k as int].files[j as int]));
                    assert(ps[k as int].files[j as int].name == file@);
                    assert(ps[k as int].name == package@);
                    assert(names_absolute_entry(ps, package@, file@));
                }
                return Err(ExtractError::AbsolutePath(package, file));
            }
            j = j + 1;
        }
        k = k + 1;
    }
    assert(!any_absolute(ps));
    // Write every file through the sink.
    let mut outs: Vec<ExtractOutcome> = Vec::new();
    let mut k: usize = 0;
    while k < a.packages.len()
        invariant
            k <= a.packages.len(),
            fs.writes() + plan_packages(data, to@, ps, k as int) == old(fs).writes()
                + plan_packages(data, to@, ps, 0),
            outs@.len() + plan_packages(data, to@, ps, k as int).len() == plan_packages(
                data,
                to@,
                ps,
                0,
            ).len(),
            outcome_files(outs@) + name_plan_packages(ps, k as int) == name_plan_packages(ps, 0),
            fs.writes().len() >= old(fs).writes().len(),
        decreases a.packages.len() - k,
    {
        proof {
            assert(ps[k as int] == a.packages@[k as int]@);
        }
        let n = a.packages[k].files.len();
        let mut j: usize = 0;
        proof {
            assert(plan_packages(data, to@, ps, k as int) == plan_entries(
                data,
                to@,
                ps[k as int],
                0,
            ) + plan_packages(data, to@, ps, k + 1));
            assert(name_plan_packages(ps, k as int) == name_plan_entries(ps[k as int], 0)
                + name_plan_packages(ps, k + 1));
        }
        while j < n
            invariant
                k < a.packages.len(),
                j <= n,
                n == ps[k as int].files.len(),
                fs.writes() + plan_entries(data, to@, ps[k as int], j as int) + plan_packages(
                    data,
                    to@,
                    ps,
                    k + 1,
                ) == old(fs).writes() + plan_packages(data, to@, ps, 0),
                outs@.len() + plan_entries(data, to@, ps[k as int], j as int).len()
                    + plan_packages(data, to@, ps, k + 1).len() == plan_packages(
                    data,
                    to@,
                    ps,
                    0,
                ).len(),
                outcome_files(outs@) + name_plan_entries(ps[k as int], j as int)
                    + name_plan_packages(ps, k + 1) == name_plan_packages(ps, 0),
                fs.writes().len() >= old(fs).writes().len(),
            decreases n - j,
        {
            proof {
                assert(ps[k as int].files[j as int] == a.packages@[k as int].files@[j as int]@);
            }
            let e = &a.packages[k].files[j];
            let path = dest_path(to, &a.packages[k].name, &e.name);
            let bytes = match a.read_entry(k, j) {
                Ok(b) => b,
                Err(_) => {
                    proof {
                        assert(entry_passes(data, ps[k as int], ps[k as int].files[j as int]));
                        assert(false);
                    }
                    return Err(ExtractError::Sink(FsError::Io));
                },
            };
            let ghost w = write_of(data, to@, ps[k as int], ps[k as int].files[j as int]);
            proof {
                assert(plan_entries(data, to@, ps[k as int], j as int) == seq![w]
                    + plan_entries(data, to@, ps[k as int], j + 1));
            }
            let res = match fs.write_file(&path, &bytes, e.mode, &e.hmac) {
                Ok(res) => res,
                Err(err) => {
                    proof {
                        let plan = plan_packages(data, to@, ps, 0);
                        let rest = plan_entries(data, to@, ps[k as int], j as int)
                            + plan_packages(data, to@, ps, k + 1);
                        let logged = fs.writes();
                        assert(logged + rest =~= logged + plan_entries(
                            data,
                            to@,
                            ps[k as int],
                            j as int,
                        ) + plan_packages(data, to@, ps, k + 1));
                        assert(logged + rest == old(fs).writes() + plan);
                        let m = plan.len() - rest.len();
                        assert(logged.len() + rest.len() == old(fs).writes().len() + plan.len());
                        assert(0 <= m <= plan.len());
                        assert forall|i: int| 0 <= i < logged.len() implies logged[i] == (old(
                            fs,
                        ).writes() + plan.subrange(0, m))[i] by {
                            assert((logged + rest)[i] == logged[i]);
                            assert((old(fs).writes() + plan)[i] == (old(fs).writes()
                                + plan.subrange(0, m))[i]);
                        }
                        assert(logged =~= old(fs).writes() + plan.subrange(0, m));
                        assert(rest.len() >= 1);
                    }
                    return Err(ExtractError::Sink(err));
                },
            };
            proof {
                assert(fs.writes() + plan_entries(data, to@, ps[k as int], j + 1)
                    + plan_packages(data, to@, ps, k + 1) =~= old(fs).writes()
                    + plan_packages(data, to@, ps, 0));
            }
            let out = ExtractOutcome { file: e.name.clone(), result: res };
            proof {
                assert(name_plan_entries(ps[k as int], j as int) == seq![
                    ps[k as int].files[j as int].name,
                ] + name_plan_entries(ps[k as int], j + 1));
                assert(outcome_files(outs@.push(out)) =~= outcome_files(outs@).push(out.file@));
                assert(outcome_files(outs@.push(out)) + name_plan_entries(ps[k as int], j + 1)
                    + name_plan_packages(ps, k + 1) =~= outcome_files(outs@) + name_plan_entries(
                    ps[k as int],
                    j as int,
                ) + name_plan_packages(ps, k + 1));
            }
            outs.push(out);
            j = j + 1;
        }
        proof {
            assert(plan_entries(data, to@, ps[k as int], n as int)
                =~= Seq::<WriteRecordV>::empty());
            assert(fs.writes() + Seq::<WriteRecordV>::empty() =~= fs.writes());
            assert(name_plan_entries(ps[k as int], n as int) =~= Seq::<Seq<u8>>::empty());
            assert(outcome_files(outs@) + Seq::<Seq<u8>>::empty() =~= outcome_files(outs@));
        }
        k = k + 1;
    }
    proof {
        assert(plan_packages(data, to@, ps, a.packages@.len() as int)
            =~= Seq::<WriteRecordV>::empty());
        assert(fs.writes() + Seq::<WriteRecordV>::empty() =~= fs.writes());
        assert(name_plan_packages(ps, a.packages@.len() as int) =~= Seq::<Seq<u8>>::empty());
        assert(outcome_files(outs@) + Seq::<Seq<u8>>::empty() =~= outcome_files(outs@));
    }
    Ok(outs)
}

} // verus!
