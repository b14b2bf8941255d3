//! The destination tree and the effect of an unpack plan on it.
//!
//! Unpacking computes a plan: an ordered sequence of filesystem operations.
//! The tree itself is modelled as the set of directories that exist plus a
//! map from file path to contents; the laws about unpacking — what files it
//! lays down, that directories are in place before their files, that running
//! a plan twice changes nothing further — are proved over this model.

use vstd::prelude::*;
use vstd::map::*;
use crate::paths::{spec_is_dir_name, spec_translate, spec_join, spec_parent, HOST_SEP};
use crate::zipdata::zip_entry_data_of;

verus! {

/// One filesystem operation of an unpack plan, with paths in host form.
#[derive(Debug, PartialEq, Eq)]
pub enum FsOp {
    /// Create this directory and every missing ancestor; a directory that
    /// already exists is not an error.
    MakeDirAll(Vec<u8>),
    /// Create or truncate this file and write these bytes into it.
    WriteFile(Vec<u8>, Vec<u8>),
}

/// The mathematical form of one filesystem operation.
pub enum FsOpModel {
    MakeDirAll(Seq<u8>),
    WriteFile(Seq<u8>, Seq<u8>),
}

impl View for FsOp {
    type V = FsOpModel;

    open spec fn view(&self) -> FsOpModel {
        match self {
            FsOp::MakeDirAll(p) => FsOpModel::MakeDirAll(p@),
            FsOp::WriteFile(p, d) => FsOpModel::WriteFile(p@, d@),
        }
    }
}

/// The model of a whole plan: each operation's model, in order.
pub open spec fn plan_model(ops: Seq<FsOp>) -> Seq<FsOpModel> {
    ops.map_values(|op: FsOp| op@)
}

/// A destination tree: the directories that exist and the files, each with
/// its contents.
#[verifier::ext_equal]
pub struct FsModel {
    pub dirs: Set<Seq<u8>>,
    pub files: Map<Seq<u8>, Seq<u8>>,
}

/// The directories that creating `p` recursively brings into being: `p`
/// itself and every prefix of `p` that ends just before a host separator.
pub open spec fn dir_closure(p: Seq<u8>) -> Set<Seq<u8>> {
    Set::new(
        |q: Seq<u8>|
            q == p || (exists|k: int| 0 <= k < p.len() && p[k] == HOST_SEP && q == p.take(k)),
    )
}

/// The effect of one operation on a destination tree.
pub open spec fn apply_op(fs: FsModel, op: FsOpModel) -> FsModel {
    match op {
        FsOpModel::MakeDirAll(p) => FsModel {
            dirs: fs.dirs.union(dir_closure(p)),
            files: fs.files,
        },
        FsOpModel::WriteFile(p, d) => FsModel { dirs: fs.dirs, files: fs.files.insert(p, d) },
    }
}

/// The effect of a plan, first operation first.
pub open spec fn apply_plan(fs: FsModel, plan: Seq<FsOpModel>) -> FsModel
    decreases plan.len(),
{
    if plan.len() == 0 {
        fs
    } else {
        apply_plan(apply_op(fs, plan.first()), plan.drop_first())
    }
}

/// The directories a plan creates.
pub open spec fn plan_dirs(plan: Seq<FsOpModel>) -> Set<Seq<u8>>
    decreases plan.len(),
{
    if plan.len() == 0 {
        Set::empty()
    } else {
        (match plan.first() {
            FsOpModel::MakeDirAll(p) => dir_closure(p),
            FsOpModel::WriteFile(_, _) => Set::empty(),
        }).union(plan_dirs(plan.drop_first()))
    }
}

/// The files a plan writes, each path with the contents of its last write.
pub open spec fn plan_files(plan: Seq<FsOpModel>) -> Map<Seq<u8>, Seq<u8>>
    decreases plan.len(),
{
    if plan.len() == 0 {
        Map::empty()
    } else {
        (match plan.first() {
            FsOpModel::WriteFile(p, d) => Map::empty().insert(p, d),
            FsOpModel::MakeDirAll(_) => Map::empty(),
        }).union_prefer_right(plan_files(plan.drop_first()))
    }
}

/// Applying a plan adds exactly the plan's directories to the tree's and lays
/// the plan's files over the tree's.
pub proof fn lemma_apply_plan_decomposes(fs: FsModel, plan: Seq<FsOpModel>)
    ensures
        apply_plan(fs, plan).dirs =~= fs.dirs.union(plan_dirs(plan)),
        apply_plan(fs, plan).files =~= fs.files.union_prefer_right(plan_files(plan)),
    decreases plan.len(),
{
    if plan.len() == 0 {
    } else {
        lemma_apply_plan_decomposes(apply_op(fs, plan.first()), plan.drop_first());
    }
}

/// Applying one more operation after a plan.
proof fn lemma_apply_plan_snoc(fs: FsModel, plan: Seq<FsOpModel>, op: FsOpModel)
    ensures
        apply_plan(fs, plan.push(op)) == apply_op(apply_plan(fs, plan), op),
    decreases plan.len(),
{
    if plan.len() == 0 {
        assert(plan.push(op).first() == op);
        assert(plan.push(op).drop_first() =~= Seq::<FsOpModel>::empty());
        assert(apply_plan(fs, plan.push(op)) == apply_plan(apply_op(fs, op), plan.push(op).drop_first()));
        assert(apply_plan(apply_op(fs, op), Seq::<FsOpModel>::empty()) == apply_op(fs, op));
        assert(apply_plan(fs, plan) == fs);
    } else {
        assert(plan.push(op).first() == plan.first());
        assert(plan.push(op).drop_first() =~= plan.drop_first().push(op));
        lemma_apply_plan_snoc(apply_op(fs, plan.first()), plan.drop_first(), op);
    }
}

/// Law: running an unpack plan a second time over the tree it produced leaves
/// that tree unchanged — recursive directory creation is idempotent, and each
/// file write lays down the same contents again.
pub proof fn lemma_apply_plan_idempotent(fs: FsModel, plan: Seq<FsOpModel>)
    ensures
        apply_plan(apply_plan(fs, plan), plan) == apply_plan(fs, plan),
{
    let once = apply_plan(fs, plan);
    lemma_apply_plan_decomposes(fs, plan);
    lemma_apply_plan_decomposes(once, plan);
    assert(apply_plan(once, plan).dirs =~= once.dirs);
    assert(apply_plan(once, plan).files =~= once.files);
    assert(apply_plan(once, plan) =~= once);
}

/// The operations unpacking one entry performs. A directory entry becomes one
/// recursive directory creation, its trailing separator dropped; a file entry
/// becomes a recursive creation of its parent directory followed by one write
/// of its decompressed contents.
pub open spec fn entry_ops(name: Seq<u8>, contents: Seq<u8>, vdest: Seq<u8>) -> Seq<FsOpModel> {
    if spec_is_dir_name(name) {
        seq![FsOpModel::MakeDirAll(spec_join(vdest, spec_translate(name).drop_last()))]
    } else {
        let full = spec_join(vdest, spec_translate(name));
        seq![FsOpModel::MakeDirAll(spec_parent(full)), FsOpModel::WriteFile(full, contents)]
    }
}

/// The whole plan for the entries named `names` of the archive bytes `data`,
/// unpacked under the verbatim destination `vdest`, in archive order.
pub open spec fn spec_unpack_plan(names: Seq<Seq<u8>>, data: Seq<u8>, vdest: Seq<u8>) -> Seq<
    FsOpModel,
>
    decreases names.len(),
{
    if names.len() == 0 {
        Seq::empty()
    } else {
        spec_unpack_plan(names.drop_last(), data, vdest) + entry_ops(
            names.last(),
            zip_entry_data_of(data, names.len() - 1),
            vdest,
        )
    }
}

/// True of `op` when it writes a file.
pub open spec fn op_is_file_write(op: FsOpModel) -> bool {
    match op {
        FsOpModel::WriteFile(_, _) => true,
        FsOpModel::MakeDirAll(_) => false,
    }
}

/// The path an operation touches.
pub open spec fn op_path(op: FsOpModel) -> Seq<u8> {
    match op {
        FsOpModel::WriteFile(p, _) => p,
        FsOpModel::MakeDirAll(p) => p,
    }
}

/// Every file write in the plan comes immediately after the recursive
/// creation of its parent directory.
pub open spec fn dirs_precede_files(plan: Seq<FsOpModel>) -> bool {
    forall|i: int|
        0 <= i < plan.len() && op_is_file_write(#[trigger] plan[i]) ==> 0 < i && plan[i - 1]
            == FsOpModel::MakeDirAll(spec_parent(op_path(plan[i])))
}

/// Every plan that unpacking computes prepares each file's parent directory
/// in the operation just before the file's write.
pub proof fn lemma_unpack_plan_dirs_precede(names: Seq<Seq<u8>>, data: Seq<u8>, vdest: Seq<u8>)
    ensures
        dirs_precede_files(spec_unpack_plan(names, data, vdest)),
    decreases names.len(),
{
    if names.len() > 0 {
        lemma_unpack_plan_dirs_precede(names.drop_last(), data, vdest);
        let prev = spec_unpack_plan(names.drop_last(), data, vdest);
        let tail = entry_ops(names.last(), zip_entry_data_of(data, names.len() - 1), vdest);
        let plan = spec_unpack_plan(names, data, vdest);
        assert forall|i: int|
            0 <= i < plan.len() && op_is_file_write(#[trigger] plan[i]) implies 0 < i && plan[i - 1]
            == FsOpModel::MakeDirAll(spec_parent(op_path(plan[i]))) by {
            if i < prev.len() {
                assert(plan[i] == prev[i]);
                assert(plan[i - 1] == prev[i - 1]);
            } else {
                assert(plan[i] == tail[i - prev.len()]);
                assert(!spec_is_dir_name(names.last()));
                assert(i - prev.len() == 1);
                assert(plan[i - 1] == tail[0]);
            }
        }
    }
}

/// Law: however the archive orders its entries, the parent directory of every
/// file stands in the destination tree before the file itself is written.
pub proof fn lemma_dir_exists_before_file(fs: FsModel, plan: Seq<FsOpModel>, i: int)
    requires
        dirs_precede_files(plan),
        0 <= i < plan.len(),
        op_is_file_write(plan[i]),
    ensures
        apply_plan(fs, plan.take(i)).dirs.contains(spec_parent(op_path(plan[i]))),
{
    let pre = plan.take(i);
    assert(pre =~= plan.take(i - 1).push(plan[i - 1]));
    lemma_apply_plan_snoc(fs, plan.take(i - 1), plan[i - 1]);
    let parent = spec_parent(op_path(plan[i]));
    assert(dir_closure(parent).contains(parent));
}

/// The files the plan for `names` writes: each non-directory entry's
/// destination path mapped to its decompressed contents, a later entry
/// overriding an earlier one with the same path.
pub open spec fn planned_files(names: Seq<Seq<u8>>, data: Seq<u8>, vdest: Seq<u8>) -> Map<
    Seq<u8>,
    Seq<u8>,
>
    decreases names.len(),
{
    if names.len() == 0 {
        Map::empty()
    } else {
        let prev = planned_files(names.drop_last(), data, vdest);
        if spec_is_dir_name(names.last()) {
            prev
        } else {
            prev.insert(
                spec_join(vdest, spec_translate(names.last())),
                zip_entry_data_of(data, names.len() - 1),
            )
        }
    }
}

/// The files of two plans run one after the other.
proof fn lemma_plan_files_concat(a: Seq<FsOpModel>, b: Seq<FsOpModel>)
    ensures
        plan_files(a + b) =~= plan_files(a).union_prefer_right(plan_files(b)),
    decreases a.len(),
{
    if a.len() == 0 {
        assert(a + b =~= b);
    } else {
        assert((a + b).first() == a.first());
        assert((a + b).drop_first() =~= a.drop_first() + b);
        lemma_plan_files_concat(a.drop_first(), b);
    }
}

/// The files of an unpack plan are exactly the planned files of its entries.
proof fn lemma_unpack_plan_files(names: Seq<Seq<u8>>, data: Seq<u8>, vdest: Seq<u8>)
    ensures
        plan_files(spec_unpack_plan(names, data, vdest)) =~= planned_files(names, data, vdest),
    decreases names.len(),
{
    if names.len() > 0 {
        reveal_with_fuel(plan_files, 3);
        lemma_unpack_plan_files(names.drop_last(), data, vdest);
        let prev = spec_unpack_plan(names.drop_last(), data, vdest);
        let contents = zip_entry_data_of(data, names.len() - 1);
        let tail = entry_ops(names.last(), contents, vdest);
        lemma_plan_files_concat(prev, tail);
        if spec_is_dir_name(names.last()) {
            assert(tail.first() == FsOpModel::MakeDirAll(
                spec_join(vdest, spec_translate(names.last()).drop_last()),
            ));
            assert(tail.drop_first() =~= Seq::<FsOpModel>::empty());
            assert(plan_files(tail) =~= Map::<Seq<u8>, Seq<u8>>::empty());
        } else {
            let full = spec_join(vdest, spec_translate(names.last()));
            assert(tail.first() == FsOpModel::MakeDirAll(spec_parent(full)));
            assert(tail.drop_first() =~= seq![FsOpModel::WriteFile(full, contents)]);
            assert(tail.drop_first().first() == FsOpModel::WriteFile(full, contents));
            assert(tail.drop_first().drop_first() =~= Seq::<FsOpModel>::empty());
            assert(plan_files(tail.drop_first()) =~= Map::<Seq<u8>, Seq<u8>>::empty().insert(
                full,
                contents,
            ));
            assert(plan_files(tail) =~= Map::<Seq<u8>, Seq<u8>>::empty().insert(full, contents));
        }
    }
}

/// Law: unpacking yields exactly the archive's non-directory entries as files
/// — each under its stored name with separators translated, joined to the
/// verbatim destination, with its decompressed contents — laid over whatever
/// files the destination already held.
pub proof fn lemma_unpack_files_exact(
    fs: FsModel,
    names: Seq<Seq<u8>>,
    data: Seq<u8>,
    vdest: Seq<u8>,
)
    ensures
        apply_plan(fs, spec_unpack_plan(names, data, vdest)).files =~= fs.files.union_prefer_right(
            planned_files(names, data, vdest),
        ),
{
    lemma_apply_plan_decomposes(fs, spec_unpack_plan(names, data, vdest));
    lemma_unpack_plan_files(names, data, vdest);
}

} // verus!
