//! A model of the namespace the plans build: a map from absolute paths to
//! the node visible there.  The model covers what the plans themselves
//! create — at most one bind layer deep, since every plan clears a target
//! before mounting over it — and is the ground the laws are stated on.

use vstd::prelude::*;
use crate::action::ActionV;
use crate::bytes::{join, under};
use crate::entry::{EntryV, KindV};

verus! {

/// What the model shows at a path.
pub enum NodeV {
    /// A symbolic link whose target text is `dest`.
    Link { dest: Seq<u8> },
    /// A node backed by a recursive bind mount of `src`; `dir` says whether
    /// it is a directory.
    Bound { src: Seq<u8>, dir: bool },
    /// A directory with nothing mounted over it.
    PlainDir,
    /// An empty regular file.
    PlainFile,
}

/// Whether a node can be removed by an ignored-failure file removal: plain
/// files and symlinks can, directories cannot.
pub open spec fn file_like(n: NodeV) -> bool {
    n is Link || n is PlainFile
}

/// The visible filesystem: absolute path to node.
pub type FsModel = Map<Seq<u8>, NodeV>;

/// One action's effect on the model.  Actions that address the kernel's
/// namespace bookkeeping rather than the path map — entering namespaces,
/// propagation changes, self binds, identity writes, the working directory,
/// the handoff — leave the map unchanged.
pub open spec fn apply_action(fs: FsModel, a: ActionV) -> FsModel {
    match a {
        ActionV::MountTmpfs { path, mode } => fs.remove_keys(
            Set::new(|k: Seq<u8>| under(path, k)),
        ).insert(path, NodeV::PlainDir),
        ActionV::CreateDir { path } => fs.insert(path, NodeV::PlainDir),
        ActionV::CreateDirAll { path } => if fs.dom().contains(path) {
            fs
        } else {
            fs.insert(path, NodeV::PlainDir)
        },
        ActionV::CreateFile { path } => fs.insert(path, NodeV::PlainFile),
        ActionV::Symlink { at, dest } => fs.insert(at, NodeV::Link { dest }),
        ActionV::BindMount { from, to } => {
            let dir = fs.dom().contains(to) && (fs[to] is PlainDir || (fs[to] matches NodeV::Bound {
                src: _,
                dir: d,
            } && d));
            fs.insert(to, NodeV::Bound { src: from, dir })
        },
        ActionV::DetachAny { path } => if fs.dom().contains(path) && fs[path] is Bound {
            fs.remove(path)
        } else {
            fs
        },
        ActionV::RemoveFileAny { path } => if fs.dom().contains(path) && file_like(fs[path]) {
            fs.remove(path)
        } else {
            fs
        },
        ActionV::Detach { path } => if fs.dom().contains(path) && fs[path] is Bound {
            fs.remove(path)
        } else {
            fs
        },
        ActionV::RemoveDir { path } => if fs.dom().contains(path) && fs[path] is PlainDir {
            fs.remove(path)
        } else {
            fs
        },
        _ => fs,
    }
}

/// Running a plan: the actions applied in order, from the left.
pub open spec fn run(fs: FsModel, plan: Seq<ActionV>) -> FsModel
    decreases plan.len(),
{
    if plan.len() == 0 {
        fs
    } else {
        run(apply_action(fs, plan[0]), plan.skip(1))
    }
}

/// Running a concatenation is running the parts in turn.
pub proof fn lemma_run_concat(fs: FsModel, p1: Seq<ActionV>, p2: Seq<ActionV>)
    ensures
        run(fs, p1 + p2) == run(run(fs, p1), p2),
    decreases p1.len(),
{
    if p1.len() == 0 {
        assert(p1 + p2 =~= p2);
    } else {
        assert((p1 + p2).skip(1) =~= p1.skip(1) + p2);
        lemma_run_concat(apply_action(fs, p1[0]), p1.skip(1), p2);
    }
}

/// Whether an action can change what the model shows at the path `k`.
pub open spec fn touches(a: ActionV, k: Seq<u8>) -> bool {
    match a {
        ActionV::MountTmpfs { path, mode } => path == k || under(path, k),
        ActionV::CreateDir { path } => path == k,
        ActionV::CreateDirAll { path } => path == k,
        ActionV::CreateFile { path } => path == k,
        ActionV::Symlink { at, dest } => at == k,
        ActionV::BindMount { from, to } => to == k,
        ActionV::DetachAny { path } => path == k,
        ActionV::RemoveFileAny { path } => path == k,
        ActionV::Detach { path } => path == k,
        ActionV::RemoveDir { path } => path == k,
        _ => false,
    }
}

/// An action that does not touch `k` leaves the model unchanged there.
pub proof fn lemma_apply_frame(fs: FsModel, a: ActionV, k: Seq<u8>)
    requires
        !touches(a, k),
    ensures
        apply_action(fs, a).dom().contains(k) == fs.dom().contains(k),
        fs.dom().contains(k) ==> apply_action(fs, a)[k] == fs[k],
{
}

/// A plan none of whose actions touches `k` leaves the model unchanged
/// there.
pub proof fn lemma_run_frame(fs: FsModel, plan: Seq<ActionV>, k: Seq<u8>)
    requires
        forall|j: int| 0 <= j < plan.len() ==> !touches(#[trigger] plan[j], k),
    ensures
        run(fs, plan).dom().contains(k) == fs.dom().contains(k),
        fs.dom().contains(k) ==> run(fs, plan)[k] == fs[k],
    decreases plan.len(),
{
    if plan.len() == 0 {
    } else {
        assert(forall|j: int| 0 <= j < plan.skip(1).len() ==> plan.skip(1)[j] == plan[j + 1]);
        lemma_apply_frame(fs, plan[0], k);
        lemma_run_frame(apply_action(fs, plan[0]), plan.skip(1), k);
    }
}

/// The node an entry of a source directory gives rise to at its target: a
/// symlink is recreated as a symlink with the same target text; anything
/// else becomes a recursive bind of the source path.
pub open spec fn entry_node(from_base: Seq<u8>, e: EntryV) -> NodeV {
    match e.kind {
        KindV::Symlink(dest) => NodeV::Link { dest },
        KindV::Directory => NodeV::Bound { src: join(from_base, e.name), dir: true },
        KindV::Other => NodeV::Bound { src: join(from_base, e.name), dir: false },
    }
}

} // verus!
