//! The plans: what sequence of actions each stage of the setup performs,
//! as mathematical sequences, and what running each plan does to the
//! modeled filesystem.

use vstd::prelude::*;
use crate::action::ActionV;
use crate::bytes::{join, lemma_join_injective};
use crate::entry::{distinct_names, EntryV, KindV};
use crate::identity::identity_plan_spec;
use crate::model::{apply_action, entry_node, lemma_run_concat, run, FsModel};
use crate::paths::{container_spec, old_root_name_spec, old_root_spec, old_store_spec,
    root_base_spec, store_container_name_spec, store_spec};

verus! {

/// Clearing a target before anything is placed there: detach whatever may
/// be mounted on it, then remove any file or symlink; both best-effort.
pub open spec fn clear_plan_spec(to: Seq<u8>) -> Seq<ActionV> {
    seq![ActionV::DetachAny { path: to }, ActionV::RemoveFileAny { path: to }]
}

/// The three-way correspondence rule, after clearing: a symlink source is
/// recreated as a symlink with the same target text and no mount; a
/// directory source gets a created directory and a recursive bind; any
/// other source gets an empty file and a recursive bind.
pub open spec fn create_plan_spec(kind: KindV, from: Seq<u8>, to: Seq<u8>) -> Seq<ActionV> {
    match kind {
        KindV::Symlink(dest) => seq![ActionV::Symlink { at: to, dest }],
        KindV::Directory => seq![
            ActionV::CreateDirAll { path: to },
            ActionV::BindMount { from, to },
        ],
        KindV::Other => seq![
            ActionV::CreateFile { path: to },
            ActionV::BindMount { from, to },
        ],
    }
}

/// Replicating one entry: clear the target, then apply the correspondence
/// rule for the entry's kind.
pub open spec fn bind_plan_spec(e: EntryV, from_base: Seq<u8>, to_base: Seq<u8>) -> Seq<ActionV> {
    clear_plan_spec(join(to_base, e.name)) + create_plan_spec(
        e.kind,
        join(from_base, e.name),
        join(to_base, e.name),
    )
}

/// Replicating one entry places exactly that entry's node at its target
/// name, whatever stood there before, and touches nothing else.
pub proof fn lemma_bind_effect(fs: FsModel, e: EntryV, from_base: Seq<u8>, to_base: Seq<u8>)
    ensures
        run(fs, bind_plan_spec(e, from_base, to_base)) == fs.insert(
            join(to_base, e.name),
            entry_node(from_base, e),
        ),
{
    let to = join(to_base, e.name);
    let from = join(from_base, e.name);
    let p = bind_plan_spec(e, from_base, to_base);
    let a0 = ActionV::DetachAny { path: to };
    let a1 = ActionV::RemoveFileAny { path: to };
    let fs1 = apply_action(fs, a0);
    let fs2 = apply_action(fs1, a1);
    match e.kind {
        KindV::Symlink(dest) => {
            let a2 = ActionV::Symlink { at: to, dest };
            assert(p =~= seq![a0, a1, a2]);
            assert(p.skip(1) =~= seq![a1, a2]);
            assert(p.skip(1).skip(1) =~= seq![a2]);
            assert(p.skip(1).skip(1).skip(1) =~= Seq::<ActionV>::empty());
            assert(run(fs, p) == run(fs1, p.skip(1)));
            assert(run(fs1, p.skip(1)) == run(fs2, p.skip(1).skip(1)));
            let fs3 = apply_action(fs2, a2);
            assert(run(fs2, p.skip(1).skip(1)) == run(fs3, p.skip(1).skip(1).skip(1)));
            assert(run(fs3, p.skip(1).skip(1).skip(1)) == fs3);
            assert(fs3 =~= fs.insert(to, entry_node(from_base, e)));
        },
        KindV::Directory => {
            let a2 = ActionV::CreateDirAll { path: to };
            let a3 = ActionV::BindMount { from, to };
            assert(p =~= seq![a0, a1, a2, a3]);
            assert(p.skip(1) =~= seq![a1, a2, a3]);
            assert(p.skip(1).skip(1) =~= seq![a2, a3]);
            assert(p.skip(1).skip(1).skip(1) =~= seq![a3]);
            assert(p.skip(1).skip(1).skip(1).skip(1) =~= Seq::<ActionV>::empty());
            let fs3 = apply_action(fs2, a2);
            let fs4 = apply_action(fs3, a3);
            assert(run(fs, p) == run(fs1, p.skip(1)));
            assert(run(fs1, p.skip(1)) == run(fs2, p.skip(1).skip(1)));
            assert(run(fs2, p.skip(1).skip(1)) == run(fs3, p.skip(1).skip(1).skip(1)));
            assert(run(fs3, p.skip(1).skip(1).skip(1)) == run(
                fs4,
                p.skip(1).skip(1).skip(1).skip(1),
            ));
            assert(run(fs4, p.skip(1).skip(1).skip(1).skip(1)) == fs4);
            assert(fs3.dom().contains(to) && fs3[to] is PlainDir);
            assert(fs4 =~= fs.insert(to, entry_node(from_base, e)));
        },
        KindV::Other => {
            let a2 = ActionV::CreateFile { path: to };
            let a3 = ActionV::BindMount { from, to };
            assert(p =~= seq![a0, a1, a2, a3]);
            assert(p.skip(1) =~= seq![a1, a2, a3]);
            assert(p.skip(1).skip(1) =~= seq![a2, a3]);
            assert(p.skip(1).skip(1).skip(1) =~= seq![a3]);
            assert(p.skip(1).skip(1).skip(1).skip(1) =~= Seq::<ActionV>::empty());
            let fs3 = apply_action(fs2, a2);
            let fs4 = apply_action(fs3, a3);
            assert(run(fs, p) == run(fs1, p.skip(1)));
            assert(run(fs1, p.skip(1)) == run(fs2, p.skip(1).skip(1)));
            assert(run(fs2, p.skip(1).skip(1)) == run(fs3, p.skip(1).skip(1).skip(1)));
            assert(run(fs3, p.skip(1).skip(1).skip(1)) == run(
                fs4,
                p.skip(1).skip(1).skip(1).skip(1),
            ));
            assert(run(fs4, p.skip(1).skip(1).skip(1).skip(1)) == fs4);
            assert(fs3.dom().contains(to) && fs3[to] is PlainFile);
            assert(fs4 =~= fs.insert(to, entry_node(from_base, e)));
        },
    }
}

/// Replicating a listing: each entry in order, by the correspondence rule.
pub open spec fn merge_plan_spec(es: Seq<EntryV>, from_base: Seq<u8>, to_base: Seq<u8>) -> Seq<
    ActionV,
>
    decreases es.len(),
{
    if es.len() == 0 {
        Seq::empty()
    } else {
        bind_plan_spec(es[0], from_base, to_base) + merge_plan_spec(es.skip(1), from_base, to_base)
    }
}

/// One more entry at the end of a listing appends that entry's steps to the
/// plan.
pub proof fn lemma_merge_plan_push(es: Seq<EntryV>, e: EntryV, from_base: Seq<u8>, to_base: Seq<u8>)
    ensures
        merge_plan_spec(es.push(e), from_base, to_base) == merge_plan_spec(es, from_base, to_base)
            + bind_plan_spec(e, from_base, to_base),
    decreases es.len(),
{
    let b0 = bind_plan_spec(e, from_base, to_base);
    if es.len() == 0 {
        assert(es.push(e)[0] == e);
        assert(es.push(e).skip(1) =~= Seq::<EntryV>::empty());
        assert(merge_plan_spec(es.push(e), from_base, to_base) == b0 + merge_plan_spec(
            Seq::<EntryV>::empty(),
            from_base,
            to_base,
        ));
        assert(merge_plan_spec(Seq::<EntryV>::empty(), from_base, to_base)
            == Seq::<ActionV>::empty());
        assert(merge_plan_spec(es, from_base, to_base) == Seq::<ActionV>::empty());
        assert(b0 + Seq::<ActionV>::empty() =~= Seq::<ActionV>::empty() + b0);
    } else {
        let h = bind_plan_spec(es[0], from_base, to_base);
        assert(es.push(e)[0] == es[0]);
        assert(es.push(e).skip(1) =~= es.skip(1).push(e));
        lemma_merge_plan_push(es.skip(1), e, from_base, to_base);
        assert(merge_plan_spec(es.push(e), from_base, to_base) == h + merge_plan_spec(
            es.skip(1).push(e),
            from_base,
            to_base,
        ));
        assert(h + (merge_plan_spec(es.skip(1), from_base, to_base) + b0) =~= (h
            + merge_plan_spec(es.skip(1), from_base, to_base)) + b0);
    }
}

/// The effect of replicating a listing, as a map transformer: the entries
/// inserted in order, later entries overriding earlier ones of the same
/// name.
pub open spec fn layer_into(fs: FsModel, es: Seq<EntryV>, from_base: Seq<u8>, to_base: Seq<u8>) -> FsModel
    decreases es.len(),
{
    if es.len() == 0 {
        fs
    } else {
        layer_into(
            fs.insert(join(to_base, es[0].name), entry_node(from_base, es[0])),
            es.skip(1),
            from_base,
            to_base,
        )
    }
}

/// Running a merge plan is inserting its entries' nodes in order.
pub proof fn lemma_merge_effect(fs: FsModel, es: Seq<EntryV>, from_base: Seq<u8>, to_base: Seq<u8>)
    ensures
        run(fs, merge_plan_spec(es, from_base, to_base)) == layer_into(fs, es, from_base, to_base),
    decreases es.len(),
{
    if es.len() == 0 {
    } else {
        lemma_run_concat(
            fs,
            bind_plan_spec(es[0], from_base, to_base),
            merge_plan_spec(es.skip(1), from_base, to_base),
        );
        lemma_bind_effect(fs, es[0], from_base, to_base);
        lemma_merge_effect(
            fs.insert(join(to_base, es[0].name), entry_node(from_base, es[0])),
            es.skip(1),
            from_base,
            to_base,
        );
    }
}

/// A key that no entry of the listing is joined to is untouched by the
/// layer.
pub proof fn lemma_layer_frame(
    fs: FsModel,
    es: Seq<EntryV>,
    from_base: Seq<u8>,
    to_base: Seq<u8>,
    k: Seq<u8>,
)
    requires
        forall|i: int| 0 <= i < es.len() ==> join(to_base, #[trigger] es[i].name) != k,
    ensures
        layer_into(fs, es, from_base, to_base).dom().contains(k) == fs.dom().contains(k),
        fs.dom().contains(k) ==> layer_into(fs, es, from_base, to_base)[k] == fs[k],
    decreases es.len(),
{
    if es.len() == 0 {
    } else {
        assert(forall|i: int|
            0 <= i < es.skip(1).len() ==> es.skip(1)[i] == es[i + 1]);
        lemma_layer_frame(
            fs.insert(join(to_base, es[0].name), entry_node(from_base, es[0])),
            es.skip(1),
            from_base,
            to_base,
            k,
        );
    }
}

/// Where names are distinct, the layer resolves each listed name to that
/// entry's node.
pub proof fn lemma_layer_hit(
    fs: FsModel,
    es: Seq<EntryV>,
    from_base: Seq<u8>,
    to_base: Seq<u8>,
    i: int,
)
    requires
        distinct_names(es),
        0 <= i < es.len(),
    ensures
        layer_into(fs, es, from_base, to_base).dom().contains(join(to_base, es[i].name)),
        layer_into(fs, es, from_base, to_base)[join(to_base, es[i].name)] == entry_node(
            from_base,
            es[i],
        ),
    decreases es.len(),
{
    let k = join(to_base, es[i].name);
    let fs1 = fs.insert(join(to_base, es[0].name), entry_node(from_base, es[0]));
    assert(forall|j: int| 0 <= j < es.skip(1).len() ==> es.skip(1)[j] == es[j + 1]);
    if i == 0 {
        assert forall|j: int| 0 <= j < es.skip(1).len() implies join(
            to_base,
            #[trigger] es.skip(1)[j].name,
        ) != k by {
            assert(es[j + 1].name != es[0].name);
            lemma_join_injective(to_base, es[j + 1].name, es[0].name);
        }
        lemma_layer_frame(fs1, es.skip(1), from_base, to_base, k);
    } else {
        lemma_layer_hit(fs1, es.skip(1), from_base, to_base, i - 1);
    }
}

/// A key the layer comes to hold was either there before or is one of the
/// listed names' targets.
pub proof fn lemma_layer_dom(
    fs: FsModel,
    es: Seq<EntryV>,
    from_base: Seq<u8>,
    to_base: Seq<u8>,
    k: Seq<u8>,
)
    ensures
        layer_into(fs, es, from_base, to_base).dom().contains(k) <==> (fs.dom().contains(k)
            || exists|i: int| 0 <= i < es.len() && k == join(to_base, #[trigger] es[i].name)),
    decreases es.len(),
{
    if es.len() == 0 {
    } else {
        let fs1 = fs.insert(join(to_base, es[0].name), entry_node(from_base, es[0]));
        assert(forall|j: int| 0 <= j < es.skip(1).len() ==> es.skip(1)[j] == es[j + 1]);
        lemma_layer_dom(fs1, es.skip(1), from_base, to_base, k);
        if layer_into(fs, es, from_base, to_base).dom().contains(k) {
            if fs1.dom().contains(k) {
                assert(fs.dom().contains(k) || k == join(to_base, es[0].name));
            } else {
                let j = choose|j: int|
                    0 <= j < es.skip(1).len() && k == join(to_base, #[trigger] es.skip(1)[j].name);
                assert(k == join(to_base, es[j + 1].name));
            }
        }
        if exists|i: int| 0 <= i < es.len() && k == join(to_base, #[trigger] es[i].name) {
            let i = choose|i: int| 0 <= i < es.len() && k == join(to_base, #[trigger] es[i].name);
            if i == 0 {
                assert(fs1.dom().contains(k));
            } else {
                assert(k == join(to_base, es.skip(1)[i - 1].name));
            }
        }
        if fs.dom().contains(k) {
            assert(fs1.dom().contains(k));
        }
    }
}

/// Unmounting without leaking: make the mount's propagation private first,
/// then detach it lazily.
pub open spec fn safe_unmount_plan_spec(path: Seq<u8>) -> Seq<ActionV> {
    seq![ActionV::MakeSlave { path }, ActionV::Detach { path }]
}

/// Turning a directory into a mount point whose propagation is cut off:
/// bind it over itself recursively, then make it slave and recursive.
pub open spec fn intermediate_plan_spec(path: Seq<u8>) -> Seq<ActionV> {
    seq![ActionV::BindSelf { path }, ActionV::MakeSlave { path }]
}

/// The entry of the store container at the root, as the replication rules
/// see it when the host exposes one: a directory named for the container.
pub open spec fn container_entry_spec() -> EntryV {
    EntryV { name: store_container_name_spec(), kind: KindV::Directory }
}

/// The permission bits of the anonymous filesystem mounted over the
/// synthesized store: readable, not writable.
pub open spec fn store_tmpfs_mode() -> u16 {
    0o555
}

/// The permission bits of the anonymous filesystem the new root is built
/// on.
pub open spec fn root_tmpfs_mode() -> u16 {
    0o755
}

/// The store-merge stage before the supplied layer.  When the host exposes
/// a store container: replicate the container itself (so sibling metadata
/// beside the store stays visible), cut its propagation, hide the host's
/// store under a fresh anonymous filesystem, and replicate the host store's
/// entries into it.  Otherwise only make sure the target directory exists.
pub open spec fn store_prefix_spec(host: Option<Seq<EntryV>>) -> Seq<ActionV> {
    match host {
        Option::Some(hs) => bind_plan_spec(container_entry_spec(), old_root_spec(), root_base_spec())
            + seq![
                ActionV::MakeSlave { path: container_spec() },
                ActionV::MountTmpfs { path: store_spec(), mode: store_tmpfs_mode() },
            ] + merge_plan_spec(hs, old_store_spec(), store_spec()),
        Option::None => seq![ActionV::CreateDirAll { path: store_spec() }],
    }
}

/// The whole store merge: the host layer first, the supplied layer second,
/// unconditionally in that order, so that same-named entries resolve to the
/// supplied store.
pub open spec fn store_plan_spec(
    host: Option<Seq<EntryV>>,
    supplied_base: Seq<u8>,
    supplied: Seq<EntryV>,
) -> Seq<ActionV> {
    store_prefix_spec(host) + merge_plan_spec(supplied, supplied_base, store_spec())
}

/// The names the tree replication skips: the store container and the hidden
/// old-root mount point itself.
pub open spec fn excluded(name: Seq<u8>) -> bool {
    name == store_container_name_spec() || name == old_root_name_spec()
}

/// The old root's entries that the tree replication carries over, in
/// listing order.
pub open spec fn kept_entries(roots: Seq<EntryV>) -> Seq<EntryV>
    decreases roots.len(),
{
    if roots.len() == 0 {
        Seq::empty()
    } else if excluded(roots[0].name) {
        kept_entries(roots.skip(1))
    } else {
        seq![roots[0]] + kept_entries(roots.skip(1))
    }
}

/// Every kept entry is an entry of the listing.
pub proof fn lemma_kept_from(roots: Seq<EntryV>, j: int)
    requires
        0 <= j < kept_entries(roots).len(),
    ensures
        exists|i: int| 0 <= i < roots.len() && roots[i] == kept_entries(roots)[j],
    decreases roots.len(),
{
    if roots.len() == 0 {
    } else {
        assert(forall|x: int| 0 <= x < roots.skip(1).len() ==> roots.skip(1)[x] == roots[x + 1]);
        if excluded(roots[0].name) {
            lemma_kept_from(roots.skip(1), j);
            let i = choose|i: int|
                0 <= i < roots.skip(1).len() && roots.skip(1)[i] == kept_entries(roots)[j];
            assert(roots[i + 1] == kept_entries(roots)[j]);
        } else {
            if j == 0 {
                assert(roots[0] == kept_entries(roots)[0]);
            } else {
                assert(kept_entries(roots)[j] == kept_entries(roots.skip(1))[j - 1]);
                lemma_kept_from(roots.skip(1), j - 1);
                let i = choose|i: int|
                    0 <= i < roots.skip(1).len() && roots.skip(1)[i] == kept_entries(roots)[j];
                assert(roots[i + 1] == kept_entries(roots)[j]);
            }
        }
    }
}

/// Every non-excluded entry of the listing is kept.
pub proof fn lemma_kept_contains(roots: Seq<EntryV>, i: int)
    requires
        0 <= i < roots.len(),
        !excluded(roots[i].name),
    ensures
        exists|j: int|
            0 <= j < kept_entries(roots).len() && kept_entries(roots)[j] == roots[i],
    decreases roots.len(),
{
    assert(forall|x: int| 0 <= x < roots.skip(1).len() ==> roots.skip(1)[x] == roots[x + 1]);
    if i == 0 {
        assert(kept_entries(roots)[0] == roots[0]);
    } else {
        lemma_kept_contains(roots.skip(1), i - 1);
        let j = choose|j: int|
            0 <= j < kept_entries(roots.skip(1)).len() && kept_entries(roots.skip(1))[j]
                == roots.skip(1)[i - 1];
        if excluded(roots[0].name) {
            assert(kept_entries(roots)[j] == roots[i]);
        } else {
            assert(kept_entries(roots)[j + 1] == kept_entries(roots.skip(1))[j]);
        }
    }
}

/// A name borne by a kept entry is borne by an entry of the listing.
pub proof fn lemma_kept_names(roots: Seq<EntryV>, n: Seq<u8>)
    requires
        exists|j: int| 0 <= j < kept_entries(roots).len() && kept_entries(roots)[j].name == n,
    ensures
        exists|i: int| 0 <= i < roots.len() && roots[i].name == n,
{
    let j = choose|j: int|
        0 <= j < kept_entries(roots).len() && kept_entries(roots)[j].name == n;
    lemma_kept_from(roots, j);
}

/// Distinct names in the listing stay distinct among the kept entries.
pub proof fn lemma_kept_distinct(roots: Seq<EntryV>)
    requires
        distinct_names(roots),
    ensures
        distinct_names(kept_entries(roots)),
    decreases roots.len(),
{
    if roots.len() == 0 {
    } else {
        assert(forall|x: int| 0 <= x < roots.skip(1).len() ==> roots.skip(1)[x] == roots[x + 1]);
        lemma_kept_distinct(roots.skip(1));
        if !excluded(roots[0].name) {
            let k = kept_entries(roots);
            let kr = kept_entries(roots.skip(1));
            assert(forall|x: int| 1 <= x < k.len() ==> k[x] == kr[x - 1]);
            assert forall|x: int, y: int| 0 <= x < y < k.len() implies k[x].name != k[y].name by {
                if x == 0 {
                    if k[y].name == roots[0].name {
                        assert(kr[y - 1].name == roots[0].name);
                        lemma_kept_names(roots.skip(1), roots[0].name);
                        let i = choose|i: int|
                            0 <= i < roots.skip(1).len() && roots.skip(1)[i].name == roots[0].name;
                        assert(roots[i + 1].name == roots[0].name);
                    }
                }
            }
        }
    }
}

/// The tree-replication plan: every entry of the old root except the
/// excluded names, replicated to the same name at the new root.
pub open spec fn replicate_plan_spec(roots: Seq<EntryV>) -> Seq<ActionV>
    decreases roots.len(),
{
    if roots.len() == 0 {
        Seq::empty()
    } else if excluded(roots[0].name) {
        replicate_plan_spec(roots.skip(1))
    } else {
        bind_plan_spec(roots[0], old_root_spec(), root_base_spec()) + replicate_plan_spec(
            roots.skip(1),
        )
    }
}

/// One more listed entry appends its steps, or nothing when its name is
/// excluded.
pub proof fn lemma_replicate_plan_push(roots: Seq<EntryV>, e: EntryV)
    ensures
        replicate_plan_spec(roots.push(e)) == if excluded(e.name) {
            replicate_plan_spec(roots)
        } else {
            replicate_plan_spec(roots) + bind_plan_spec(e, old_root_spec(), root_base_spec())
        },
    decreases roots.len(),
{
    let b0 = bind_plan_spec(e, old_root_spec(), root_base_spec());
    if roots.len() == 0 {
        assert(roots.push(e)[0] == e);
        assert(roots.push(e).skip(1) =~= Seq::<EntryV>::empty());
        assert(replicate_plan_spec(Seq::<EntryV>::empty()) == Seq::<ActionV>::empty());
        if excluded(e.name) {
            assert(replicate_plan_spec(roots.push(e)) == Seq::<ActionV>::empty());
        } else {
            assert(replicate_plan_spec(roots.push(e)) == b0 + Seq::<ActionV>::empty());
            assert(Seq::<ActionV>::empty() + b0 =~= b0 + Seq::<ActionV>::empty());
        }
    } else {
        let h = bind_plan_spec(roots[0], old_root_spec(), root_base_spec());
        assert(roots.push(e)[0] == roots[0]);
        assert(roots.push(e).skip(1) =~= roots.skip(1).push(e));
        lemma_replicate_plan_push(roots.skip(1), e);
        if excluded(roots[0].name) {
            assert(replicate_plan_spec(roots.push(e)) == replicate_plan_spec(
                roots.skip(1).push(e),
            ));
            assert(replicate_plan_spec(roots) == replicate_plan_spec(roots.skip(1)));
        } else {
            assert(replicate_plan_spec(roots.push(e)) == h + replicate_plan_spec(
                roots.skip(1).push(e),
            ));
            assert(replicate_plan_spec(roots) == h + replicate_plan_spec(roots.skip(1)));
            if !excluded(e.name) {
                assert(h + (replicate_plan_spec(roots.skip(1)) + b0) =~= (h
                    + replicate_plan_spec(roots.skip(1))) + b0);
            }
        }
    }
}

/// Running the replication plan is layering the kept entries onto the new
/// root.
pub proof fn lemma_replicate_effect(fs: FsModel, roots: Seq<EntryV>)
    ensures
        run(fs, replicate_plan_spec(roots)) == layer_into(
            fs,
            kept_entries(roots),
            old_root_spec(),
            root_base_spec(),
        ),
    decreases roots.len(),
{
    if roots.len() == 0 {
    } else if excluded(roots[0].name) {
        lemma_replicate_effect(fs, roots.skip(1));
    } else {
        let b = bind_plan_spec(roots[0], old_root_spec(), root_base_spec());
        lemma_run_concat(fs, b, replicate_plan_spec(roots.skip(1)));
        lemma_bind_effect(fs, roots[0], old_root_spec(), root_base_spec());
        let fs1 = fs.insert(
            join(root_base_spec(), roots[0].name),
            entry_node(old_root_spec(), roots[0]),
        );
        lemma_replicate_effect(fs1, roots.skip(1));
        let k = kept_entries(roots);
        assert(k[0] == roots[0]);
        assert(k.skip(1) =~= kept_entries(roots.skip(1)));
    }
}

/// The closing steps after replication: restore the working directory,
/// unmount the hidden old-root mount point without leaking, remove it, and
/// hand control to the requested command.
pub open spec fn teardown_plan_spec(cwd: Seq<u8>) -> Seq<ActionV> {
    seq![ActionV::SetCwd { path: cwd }] + safe_unmount_plan_spec(old_root_spec()) + seq![
        ActionV::RemoveDir { path: old_root_spec() },
        ActionV::Exec,
    ]
}

/// Everything after the pivot: unmount and remove the ephemeral directory's
/// pre-pivot address, merge the store layers, replicate the rest of the old
/// root, and tear down.  `tmp_old` is the ephemeral directory as addressed
/// through the hidden old-root mount point.
pub open spec fn post_pivot_plan_spec(
    tmp_old: Seq<u8>,
    host: Option<Seq<EntryV>>,
    supplied_base: Seq<u8>,
    supplied: Seq<EntryV>,
    roots: Seq<EntryV>,
    cwd: Seq<u8>,
) -> Seq<ActionV> {
    safe_unmount_plan_spec(tmp_old) + seq![ActionV::RemoveDir { path: tmp_old }]
        + store_plan_spec(host, supplied_base, supplied) + replicate_plan_spec(roots)
        + teardown_plan_spec(cwd)
}

/// Everything before and including the pivot: enter the namespaces, turn
/// the ephemeral directory into a private mount point, mount the anonymous
/// root filesystem over it, create the hidden old-root directory inside it,
/// and pivot.
pub open spec fn pre_pivot_plan_spec(
    privileged: bool,
    uid: nat,
    gid: nat,
    tmp: Seq<u8>,
) -> Seq<ActionV> {
    identity_plan_spec(privileged, uid, gid) + intermediate_plan_spec(tmp) + seq![
        ActionV::MountTmpfs { path: tmp, mode: root_tmpfs_mode() },
        ActionV::CreateDir { path: join(tmp, old_root_name_spec()) },
        ActionV::PivotRoot { new_root: tmp, put_old: join(tmp, old_root_name_spec()) },
    ]
}

} // verus!
