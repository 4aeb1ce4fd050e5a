//! Conception: one protoform (or a delineation) conceived as a checked file.
//!
//! The structure is first bounded in depth, so that reading it cannot run
//! away; then the root and its sections are read; then the file is checked
//! whole. The first fault found is the answer, at the path of the structure
//! at fault.

use vstd::prelude::*;
use crate::checking::{check, file_check, outcome};
use crate::concept::{Fault, File, FileModel, Problem, ProblemModel};
use crate::protoform::{
    Delineation, Head, HeadModel, Protoform, ProtoformModel, lemma_protoform_models,
    protoform_models,
};
use crate::protosizing::{file_pf, file_self_free, lemma_read_protosized};
use crate::reader::read_root;
use crate::reading::root_reading;

verus! {

/// How deep a structure may nest before the reader refuses it.
pub const DEPTH_LIMIT: usize = 128;

/// The first structure nested past the limit, for `pf` at depth `d`: its
/// path below `pf`. The structure is walked last child first, the body of a
/// headed structure before its head's arguments.
pub open spec fn too_deep(pf: ProtoformModel, d: int) -> Option<Seq<i64>>
    decreases pf, 0int,
{
    if d > DEPTH_LIMIT {
        Some(Seq::empty())
    } else {
        match pf {
            ProtoformModel::Bare(HeadModel::Bare(_)) => None,
            ProtoformModel::Bare(HeadModel::Qualified(_, args)) => deep_among(
                args,
                d + 1,
                args.len() as int,
            ),
            ProtoformModel::Headed(h, _, b) => match too_deep(*b, d + 1) {
                Some(p) => Some(seq![0i64] + p),
                None => match h {
                    HeadModel::Qualified(_, args) => deep_among(args, d + 1, args.len() as int),
                    HeadModel::Bare(_) => None,
                },
            },
            ProtoformModel::Enclosed(_, cs) => deep_among(cs, d + 1, cs.len() as int),
        }
    }
}

/// The first of the first `k` structures (last first) nested past the
/// limit at depth `d`, under its index.
pub open spec fn deep_among(cs: Seq<ProtoformModel>, d: int, k: int) -> Option<Seq<i64>>
    decreases cs, k,
{
    if k <= 0 || k > cs.len() {
        None
    } else {
        match too_deep(cs[k - 1], d) {
            Some(p) => Some(seq![(k - 1) as i64] + p),
            None => deep_among(cs, d, k - 1),
        }
    }
}

/// What one protoform conceives as: a structure too deep, else the root's
/// reading, else the file's check, else the file.
pub open spec fn conception(pf: ProtoformModel) -> Result<FileModel, (Seq<i64>, ProblemModel)> {
    match too_deep(pf, 0) {
        Some(p) => Err((p, ProblemModel::Depth)),
        None => match root_reading(pf) {
            Err(e) => Err(e),
            Ok(m) => match file_check(m) {
                Ok(()) => Ok(m),
                Err(e) => Err(e),
            },
        },
    }
}

/// What a delineation conceives as: exactly one protoform, its faults
/// under its index `0`.
pub open spec fn delineation_conception(d: Seq<ProtoformModel>) -> Result<
    FileModel,
    (Seq<i64>, ProblemModel),
> {
    if d.len() != 1 {
        Err((Seq::empty(), ProblemModel::Root))
    } else {
        match conception(d[0]) {
            Ok(m) => Ok(m),
            Err((p, problem)) => Err((seq![0i64] + p, problem)),
        }
    }
}

/// A result against what was to be conceived.
pub open spec fn conceived(r: Result<File, Fault>, s: Result<FileModel, (Seq<i64>, ProblemModel)>) -> bool {
    match s {
        Ok(m) => r matches Ok(f) && f@ == m,
        Err((path, problem)) => r matches Err(f) && f.path@ == path && f.problem@ == problem,
    }
}

/// A path with `front` before it.
pub(crate) fn prefixed(front: i64, p: Vec<i64>) -> (r: Vec<i64>)
    ensures
        r@ == seq![front] + p@,
{
    let mut out: Vec<i64> = Vec::new();
    out.push(front);
    let mut i: usize = 0;
    while i < p.len()
        invariant
            i <= p@.len(),
            out@ == seq![front] + p@.take(i as int),
        decreases p@.len() - i,
    {
        proof {
            assert(seq![front] + p@.take(i + 1) =~= (seq![front] + p@.take(i as int)).push(
                p@[i as int],
            ));
        }
        out.push(p[i]);
        i += 1;
    }
    proof {
        assert(p@.take(p@.len() as int) =~= p@);
    }
    out
}

/// The first structure nested past the limit (see [`too_deep`]).
fn deep_path(pf: &Protoform, d: usize) -> (r: Option<Vec<i64>>)
    requires
        d <= DEPTH_LIMIT + 1,
    ensures
        match r {
            Some(p) => too_deep(pf@, d as int) == Some(p@),
            None => too_deep(pf@, d as int) is None,
        },
    decreases pf, 0int,
{
    if d > DEPTH_LIMIT {
        return Some(Vec::new());
    }
    proof {
        reveal_with_fuel(crate::protoform::protoform_model, 2);
        reveal_with_fuel(crate::protoform::head_model, 2);
    }
    match pf {
        Protoform::Bare(Head::Bare(_)) => None,
        Protoform::Bare(Head::Qualified(_, args)) => {
            proof {
                lemma_protoform_models(args@);
            }
            deep_in(args, d + 1)
        },
        Protoform::Headed(h, _, b) => {
            let body: &Protoform = b;
            assert(pf@ is Headed && pf@->Headed_2 == body@ && pf@->Headed_0 == h@);
            match deep_path(body, d + 1) {
                Some(p) => Some(prefixed(0, p)),
                None => match h {
                    Head::Qualified(_, args) => {
                        assert(h@ == HeadModel::Qualified(h@->Qualified_0, protoform_models(args@)));
                        proof {
                            lemma_protoform_models(args@);
                        }
                        deep_in(args, d + 1)
                    },
                    Head::Bare(_) => None,
                },
            }
        },
        Protoform::Enclosed(_, cs) => {
            proof {
                lemma_protoform_models(cs@);
            }
            deep_in(cs, d + 1)
        },
    }
}

/// The first of the structures (last first) nested past the limit.
fn deep_in(cs: &Vec<Protoform>, d: usize) -> (r: Option<Vec<i64>>)
    requires
        d <= DEPTH_LIMIT + 1,
    ensures
        match r {
            Some(p) => deep_among(protoform_models(cs@), d as int, cs@.len() as int) == Some(p@),
            None => deep_among(protoform_models(cs@), d as int, cs@.len() as int) is None,
        },
    decreases cs@, 1int,
{
    let ghost m = protoform_models(cs@);
    proof {
        lemma_protoform_models(cs@);
    }
    let mut k: usize = cs.len();
    while k > 0
        invariant
            k <= cs@.len(),
            d <= DEPTH_LIMIT + 1,
            m == protoform_models(cs@),
            m.len() == cs@.len(),
            forall|j: int| 0 <= j < m.len() ==> #[trigger] m[j] == cs@[j]@,
            deep_among(m, d as int, cs@.len() as int) == deep_among(m, d as int, k as int),
        decreases k,
    {
        proof {
            assert(decreases_to!(cs@ => cs@[k - 1]));
            assert(m[k - 1] == cs@[k - 1]@);
        }
        match deep_path(&cs[k - 1], d) {
            Some(p) => {
                return Some(prefixed((k - 1) as i64, p));
            },
            None => {},
        }
        k -= 1;
    }
    None
}

impl Protoform {
    /// Conceive the file this protoform carries, checked whole (see
    /// [`conception`]).
    pub fn conceive(&self) -> (r: Result<File, Fault>)
        ensures
            conceived(r, conception(self@)),
    {
        match deep_path(self, 0) {
            Some(path) => {
                return Err(Fault { path, problem: Problem::Depth });
            },
            None => {},
        }
        let file = match read_root(self) {
            Ok(f) => f,
            Err(f) => {
                return Err(f);
            },
        };
        match check(&file) {
            Ok(()) => Ok(file),
            Err(f) => {
                proof {
                    assert(outcome(Err::<(), Fault>(f)) == file_check(file@));
                }
                Err(f)
            },
        }
    }
}

impl Delineation {
    /// Conceive the file a delineation carries: exactly one protoform,
    /// conceived checked whole, its faults under index `0`.
    pub fn conceive(&self) -> (r: Result<File, Fault>)
        ensures
            conceived(r, delineation_conception(self@)),
    {
        proof {
            lemma_protoform_models(self.protoforms@);
        }
        if self.protoforms.len() != 1 {
            return Err(Fault { path: Vec::new(), problem: Problem::Root });
        }
        match self.protoforms[0].conceive() {
            Ok(f) => Ok(f),
            Err(f) => Err(Fault { path: prefixed(0, f.path), problem: f.problem }),
        }
    }
}

/// Conceiving what protosization wrote gives the file back, for every file
/// that reads back (no named type spelled `Self`), passes its check, and
/// nests within the limit.
pub proof fn lemma_conceive_protosized(f: FileModel)
    requires
        file_self_free(f),
        file_check(f) is Ok,
        too_deep(file_pf(f), 0) is None,
    ensures
        conception(file_pf(f)) == Ok::<FileModel, (Seq<i64>, ProblemModel)>(f),
{
    lemma_read_protosized(f);
    assert(root_reading(file_pf(f)) == Ok::<FileModel, (Seq<i64>, ProblemModel)>(f));
}

} // verus!
