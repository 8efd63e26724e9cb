//! What the plans guarantee, proved over the model: override precedence and
//! union completeness of the store merge, symlink fidelity, idempotent
//! target clearing, full reconstruction of the old root, the
//! private-before-detach discipline, and the gating of the handoff.

use vstd::prelude::*;
use crate::action::ActionV;
use crate::bytes::{join, lemma_join_injective, under};
use crate::entry::{distinct_names, has_name, EntryV, KindV};
use crate::model::{apply_action, entry_node, lemma_run_concat, lemma_run_frame, run, touches, FsModel, NodeV};
use crate::paths::{old_root_spec, old_store_spec, root_base_spec, store_spec};
use crate::plan::{bind_plan_spec, excluded, kept_entries,
    lemma_bind_effect, lemma_kept_contains, lemma_kept_distinct, lemma_layer_dom,
    lemma_layer_frame, lemma_layer_hit, lemma_merge_effect, lemma_replicate_effect,
    merge_plan_spec, post_pivot_plan_spec, pre_pivot_plan_spec, replicate_plan_spec,
    safe_unmount_plan_spec, store_plan_spec, store_prefix_spec, teardown_plan_spec};

verus! {

/// The supplied layer always resolves its own names: after the whole store
/// merge, each name listed in the supplied store maps to the supplied
/// store's entry, whatever the host layer held.
pub proof fn lemma_supplied_layer_resolves(
    fs: FsModel,
    host: Option<Seq<EntryV>>,
    supplied_base: Seq<u8>,
    supplied: Seq<EntryV>,
    i: int,
)
    requires
        distinct_names(supplied),
        0 <= i < supplied.len(),
    ensures
        run(fs, store_plan_spec(host, supplied_base, supplied)).dom().contains(
            join(store_spec(), supplied[i].name),
        ),
        run(fs, store_plan_spec(host, supplied_base, supplied))[join(
            store_spec(),
            supplied[i].name,
        )] == entry_node(supplied_base, supplied[i]),
{
    lemma_run_concat(
        fs,
        store_prefix_spec(host),
        merge_plan_spec(supplied, supplied_base, store_spec()),
    );
    let fs1 = run(fs, store_prefix_spec(host));
    lemma_merge_effect(fs1, supplied, supplied_base, store_spec());
    lemma_layer_hit(fs1, supplied, supplied_base, store_spec(), i);
}

/// Override precedence: for a name present in both the host store and the
/// supplied store, the synthesized store resolves that name to the supplied
/// store's entry.
pub proof fn lemma_override_precedence(
    fs: FsModel,
    host: Seq<EntryV>,
    supplied_base: Seq<u8>,
    supplied: Seq<EntryV>,
    i: int,
)
    requires
        distinct_names(supplied),
        0 <= i < supplied.len(),
        has_name(host, supplied[i].name),
    ensures
        run(fs, store_plan_spec(Option::Some(host), supplied_base, supplied)).dom().contains(
            join(store_spec(), supplied[i].name),
        ),
        run(fs, store_plan_spec(Option::Some(host), supplied_base, supplied))[join(
            store_spec(),
            supplied[i].name,
        )] == entry_node(supplied_base, supplied[i]),
{
    lemma_supplied_layer_resolves(fs, Option::Some(host), supplied_base, supplied, i);
}

/// Union completeness, supplied side: a name present only in the supplied
/// layer appears there unchanged.
pub proof fn lemma_union_completeness_supplied(
    fs: FsModel,
    host: Option<Seq<EntryV>>,
    supplied_base: Seq<u8>,
    supplied: Seq<EntryV>,
    i: int,
)
    requires
        distinct_names(supplied),
        0 <= i < supplied.len(),
        host matches Option::Some(h) ==> !has_name(h, supplied[i].name),
    ensures
        run(fs, store_plan_spec(host, supplied_base, supplied)).dom().contains(
            join(store_spec(), supplied[i].name),
        ),
        run(fs, store_plan_spec(host, supplied_base, supplied))[join(
            store_spec(),
            supplied[i].name,
        )] == entry_node(supplied_base, supplied[i]),
{
    lemma_supplied_layer_resolves(fs, host, supplied_base, supplied, i);
}

/// Union completeness, host side: a name present only in the host store
/// appears in the synthesized store as the host store's entry.
pub proof fn lemma_union_completeness_host(
    fs: FsModel,
    host: Seq<EntryV>,
    supplied_base: Seq<u8>,
    supplied: Seq<EntryV>,
    i: int,
)
    requires
        distinct_names(host),
        0 <= i < host.len(),
        !has_name(supplied, host[i].name),
    ensures
        run(fs, store_plan_spec(Option::Some(host), supplied_base, supplied)).dom().contains(
            join(store_spec(), host[i].name),
        ),
        run(fs, store_plan_spec(Option::Some(host), supplied_base, supplied))[join(
            store_spec(),
            host[i].name,
        )] == entry_node(old_store_spec(), host[i]),
{
    let k = join(store_spec(), host[i].name);
    let pre = bind_plan_spec(
        crate::plan::container_entry_spec(),
        old_root_spec(),
        root_base_spec(),
    ) + seq![
        ActionV::MakeSlave { path: crate::paths::container_spec() },
        ActionV::MountTmpfs { path: store_spec(), mode: crate::plan::store_tmpfs_mode() },
    ];
    let mh = merge_plan_spec(host, old_store_spec(), store_spec());
    assert(store_prefix_spec(Option::Some(host)) == pre + mh);
    lemma_run_concat(fs, pre, mh);
    let fs1 = run(fs, pre);
    lemma_merge_effect(fs1, host, old_store_spec(), store_spec());
    lemma_layer_hit(fs1, host, old_store_spec(), store_spec(), i);
    let fs2 = run(fs, store_prefix_spec(Option::Some(host)));
    lemma_run_concat(
        fs,
        store_prefix_spec(Option::Some(host)),
        merge_plan_spec(supplied, supplied_base, store_spec()),
    );
    lemma_merge_effect(fs2, supplied, supplied_base, store_spec());
    assert forall|j: int| 0 <= j < supplied.len() implies join(
        store_spec(),
        #[trigger] supplied[j].name,
    ) != k by {
        assert(supplied[j].name != host[i].name);
        lemma_join_injective(store_spec(), supplied[j].name, host[i].name);
    }
    lemma_layer_frame(fs2, supplied, supplied_base, store_spec(), k);
}

/// Union completeness, exactness: when the host exposes no store, the
/// synthesized store holds exactly the supplied store's names — a path
/// under the store is present afterwards precisely when some supplied entry
/// is joined to it.
pub proof fn lemma_union_exact_without_host(
    fs: FsModel,
    supplied_base: Seq<u8>,
    supplied: Seq<EntryV>,
    k: Seq<u8>,
)
    requires
        forall|p: Seq<u8>| under(store_spec(), p) ==> !fs.dom().contains(p),
        under(store_spec(), k),
    ensures
        run(fs, store_plan_spec(Option::None, supplied_base, supplied)).dom().contains(k)
            <==> exists|i: int|
            0 <= i < supplied.len() && k == join(store_spec(), #[trigger] supplied[i].name),
{
    let pre = seq![ActionV::CreateDirAll { path: store_spec() }];
    assert(store_prefix_spec(Option::None) == pre);
    lemma_run_concat(fs, pre, merge_plan_spec(supplied, supplied_base, store_spec()));
    let fs1 = run(fs, pre);
    assert(pre.skip(1) =~= Seq::<ActionV>::empty());
    let fs0 = apply_action(fs, pre[0]);
    assert(run(fs, pre) == run(fs0, pre.skip(1)));
    assert(run(fs0, Seq::<ActionV>::empty()) == fs0);
    assert(fs1 == apply_action(fs, pre[0]));
    assert(k.len() > store_spec().len());
    assert(!fs.dom().contains(k));
    assert(!fs1.dom().contains(k));
    lemma_merge_effect(fs1, supplied, supplied_base, store_spec());
    lemma_layer_dom(fs1, supplied, supplied_base, store_spec(), k);
}

/// Union completeness, exactness with a host store: the fresh filesystem
/// mounted over the synthesized store hides everything the host had there,
/// so a path under the store is present afterwards precisely when one of
/// the two layers lists a name joined to it.
pub proof fn lemma_union_exact_with_host(
    fs: FsModel,
    host: Seq<EntryV>,
    supplied_base: Seq<u8>,
    supplied: Seq<EntryV>,
    k: Seq<u8>,
)
    requires
        under(store_spec(), k),
    ensures
        run(fs, store_plan_spec(Option::Some(host), supplied_base, supplied)).dom().contains(k)
            <==> ((exists|i: int|
            0 <= i < host.len() && k == join(store_spec(), #[trigger] host[i].name)) || (exists|
            i: int|
            0 <= i < supplied.len() && k == join(store_spec(), #[trigger] supplied[i].name))),
{
    let q1 = bind_plan_spec(crate::plan::container_entry_spec(), old_root_spec(), root_base_spec());
    let q2 = seq![
        ActionV::MakeSlave { path: crate::paths::container_spec() },
        ActionV::MountTmpfs { path: store_spec(), mode: crate::plan::store_tmpfs_mode() },
    ];
    let mh = merge_plan_spec(host, old_store_spec(), store_spec());
    let ms = merge_plan_spec(supplied, supplied_base, store_spec());
    assert(store_prefix_spec(Option::Some(host)) == (q1 + q2) + mh);
    assert(store_plan_spec(Option::Some(host), supplied_base, supplied) == ((q1 + q2) + mh) + ms);
    lemma_run_concat(fs, (q1 + q2) + mh, ms);
    lemma_run_concat(fs, q1 + q2, mh);
    lemma_run_concat(fs, q1, q2);
    lemma_bind_effect(fs, crate::plan::container_entry_spec(), old_root_spec(), root_base_spec());
    let fs1 = run(fs, q1);
    let fsa = apply_action(fs1, q2[0]);
    let fsb = apply_action(fsa, q2[1]);
    assert(q2.skip(1) =~= seq![q2[1]]);
    assert(q2.skip(1).skip(1) =~= Seq::<ActionV>::empty());
    assert(run(fs1, q2) == run(fsa, q2.skip(1)));
    assert(run(fsa, q2.skip(1)) == run(fsb, q2.skip(1).skip(1)));
    assert(run(fsb, Seq::<ActionV>::empty()) == fsb);
    let fs2 = run(fs, q1 + q2);
    assert(k != store_spec());
    assert(!fs2.dom().contains(k));
    lemma_merge_effect(fs2, host, old_store_spec(), store_spec());
    lemma_layer_dom(fs2, host, old_store_spec(), store_spec(), k);
    let fs3 = run(fs, (q1 + q2) + mh);
    lemma_merge_effect(fs3, supplied, supplied_base, store_spec());
    lemma_layer_dom(fs3, supplied, supplied_base, store_spec(), k);
}

/// Symlink fidelity: a symlink source is reproduced as a symlink with the
/// same target text, and its replication plan mounts nothing.
pub proof fn lemma_symlink_fidelity(
    fs: FsModel,
    e: EntryV,
    from_base: Seq<u8>,
    to_base: Seq<u8>,
    dest: Seq<u8>,
)
    requires
        e.kind == KindV::Symlink(dest),
    ensures
        run(fs, bind_plan_spec(e, from_base, to_base)).dom().contains(join(to_base, e.name)),
        run(fs, bind_plan_spec(e, from_base, to_base))[join(to_base, e.name)] == (NodeV::Link {
            dest,
        }),
        forall|j: int|
            0 <= j < bind_plan_spec(e, from_base, to_base).len() ==> (!(#[trigger] bind_plan_spec(
                e,
                from_base,
                to_base,
            )[j] is BindMount)),
{
    lemma_bind_effect(fs, e, from_base, to_base);
    let to = join(to_base, e.name);
    let p = bind_plan_spec(e, from_base, to_base);
    assert(p =~= seq![
        ActionV::DetachAny { path: to },
        ActionV::RemoveFileAny { path: to },
        ActionV::Symlink { at: to, dest },
    ]);
}

/// Idempotent target clearing: the correspondence rule yields the same
/// entry at the target whatever stood there before — a stale mount or file
/// cannot make it fail or change its outcome.
pub proof fn lemma_idempotent_clearing(
    fs1: FsModel,
    fs2: FsModel,
    e: EntryV,
    from_base: Seq<u8>,
    to_base: Seq<u8>,
)
    ensures
        run(fs1, bind_plan_spec(e, from_base, to_base)).dom().contains(join(to_base, e.name)),
        run(fs1, bind_plan_spec(e, from_base, to_base))[join(to_base, e.name)] == run(
            fs2,
            bind_plan_spec(e, from_base, to_base),
        )[join(to_base, e.name)],
{
    lemma_bind_effect(fs1, e, from_base, to_base);
    lemma_bind_effect(fs2, e, from_base, to_base);
}

/// Full reconstruction: every top-level entry of the old root, except the
/// store container and the hidden mount point, stands at its own name under
/// the new root once the whole post-pivot plan has run.
pub proof fn lemma_full_reconstruction(
    fs: FsModel,
    tmp_old: Seq<u8>,
    host: Option<Seq<EntryV>>,
    supplied_base: Seq<u8>,
    supplied: Seq<EntryV>,
    roots: Seq<EntryV>,
    cwd: Seq<u8>,
    i: int,
)
    requires
        distinct_names(roots),
        0 <= i < roots.len(),
        !excluded(roots[i].name),
    ensures
        run(fs, post_pivot_plan_spec(tmp_old, host, supplied_base, supplied, roots, cwd)).dom()
            .contains(join(root_base_spec(), roots[i].name)),
        run(fs, post_pivot_plan_spec(tmp_old, host, supplied_base, supplied, roots, cwd))[join(
            root_base_spec(),
            roots[i].name,
        )] == entry_node(old_root_spec(), roots[i]),
{
    let k = join(root_base_spec(), roots[i].name);
    let head = safe_unmount_plan_spec(tmp_old) + seq![ActionV::RemoveDir { path: tmp_old }]
        + store_plan_spec(host, supplied_base, supplied);
    let rp = replicate_plan_spec(roots);
    let td = teardown_plan_spec(cwd);
    assert(post_pivot_plan_spec(tmp_old, host, supplied_base, supplied, roots, cwd) == (head + rp)
        + td);
    lemma_run_concat(fs, head + rp, td);
    lemma_run_concat(fs, head, rp);
    let fsq = run(fs, head);
    lemma_replicate_effect(fsq, roots);
    lemma_kept_distinct(roots);
    lemma_kept_contains(roots, i);
    let kept = kept_entries(roots);
    let j = choose|j: int| 0 <= j < kept.len() && kept[j] == roots[i];
    lemma_layer_hit(fsq, kept, old_root_spec(), root_base_spec(), j);
    let fsr = run(fs, head + rp);
    assert(fsr.dom().contains(k) && fsr[k] == entry_node(old_root_spec(), roots[i]));
    assert forall|x: int| 0 <= x < td.len() implies !touches(#[trigger] td[x], k) by {
        assert(td =~= seq![
            ActionV::SetCwd { path: cwd },
            ActionV::MakeSlave { path: old_root_spec() },
            ActionV::Detach { path: old_root_spec() },
            ActionV::RemoveDir { path: old_root_spec() },
            ActionV::Exec,
        ]);
        assert(roots[i].name != crate::paths::old_root_name_spec());
        lemma_join_injective(
            root_base_spec(),
            roots[i].name,
            crate::paths::old_root_name_spec(),
        );
    }
    lemma_run_frame(fsr, td, k);
}

/// An action that neither hands control away nor performs a deliberate
/// unmount.
pub open spec fn benign(a: ActionV) -> bool {
    !(a is Exec) && !(a is Detach)
}

/// A plan all of whose actions are benign.
pub open spec fn all_benign(p: Seq<ActionV>) -> bool {
    forall|j: int| 0 <= j < p.len() ==> benign(#[trigger] p[j])
}

/// Every deliberate detach in the plan is immediately preceded by making
/// the same mount point's propagation private.
/// The mount point a deliberate detach addresses.
pub open spec fn detach_target(a: ActionV) -> Seq<u8> {
    match a {
        ActionV::Detach { path } => path,
        _ => Seq::empty(),
    }
}

pub open spec fn detach_guarded(p: Seq<ActionV>) -> bool {
    forall|j: int|
        (0 <= j < p.len() && (#[trigger] p[j]) is Detach) ==> (j > 0 && p[j - 1]
            == (ActionV::MakeSlave { path: detach_target(p[j]) }))
}

/// The replication steps for one entry are all benign.
pub proof fn lemma_bind_benign(e: EntryV, from_base: Seq<u8>, to_base: Seq<u8>)
    ensures
        all_benign(bind_plan_spec(e, from_base, to_base)),
{
}

/// The steps that replicate a whole listing are all benign.
pub proof fn lemma_merge_benign(es: Seq<EntryV>, from_base: Seq<u8>, to_base: Seq<u8>)
    ensures
        all_benign(merge_plan_spec(es, from_base, to_base)),
    decreases es.len(),
{
    if es.len() == 0 {
    } else {
        lemma_bind_benign(es[0], from_base, to_base);
        lemma_merge_benign(es.skip(1), from_base, to_base);
    }
}

/// The tree-replication steps are all benign.
pub proof fn lemma_replicate_benign(roots: Seq<EntryV>)
    ensures
        all_benign(replicate_plan_spec(roots)),
    decreases roots.len(),
{
    if roots.len() == 0 {
    } else {
        lemma_replicate_benign(roots.skip(1));
        if !excluded(roots[0].name) {
            lemma_bind_benign(roots[0], old_root_spec(), root_base_spec());
        }
    }
}

/// The whole store merge is benign: it neither hands control away nor
/// deliberately unmounts anything.
pub proof fn lemma_store_plan_benign(
    host: Option<Seq<EntryV>>,
    supplied_base: Seq<u8>,
    supplied: Seq<EntryV>,
)
    ensures
        all_benign(store_plan_spec(host, supplied_base, supplied)),
{
    match host {
        Option::Some(hs) => {
            lemma_bind_benign(
                crate::plan::container_entry_spec(),
                old_root_spec(),
                root_base_spec(),
            );
            lemma_merge_benign(hs, old_store_spec(), store_spec());
        },
        Option::None => {
        },
    }
    lemma_merge_benign(supplied, supplied_base, store_spec());
}

/// Host isolation, as far as the plans decide it: the run's very first
/// action enters the new mount namespace before any mount is touched, and
/// every deliberate unmount — in either plan — makes the mount's
/// propagation private first, so no unmount can reach the host's mount
/// table.
pub proof fn lemma_private_before_detach(
    privileged: bool,
    uid: nat,
    gid: nat,
    tmp: Seq<u8>,
    tmp_old: Seq<u8>,
    host: Option<Seq<EntryV>>,
    supplied_base: Seq<u8>,
    supplied: Seq<EntryV>,
    roots: Seq<EntryV>,
    cwd: Seq<u8>,
)
    ensures
        pre_pivot_plan_spec(privileged, uid, gid, tmp)[0] == (ActionV::Unshare {
            user_ns: !privileged,
        }),
        detach_guarded(pre_pivot_plan_spec(privileged, uid, gid, tmp)),
        detach_guarded(post_pivot_plan_spec(tmp_old, host, supplied_base, supplied, roots, cwd)),
        detach_guarded(safe_unmount_plan_spec(tmp)),
{
    let pre = pre_pivot_plan_spec(privileged, uid, gid, tmp);
    assert forall|j: int|
        0 <= j < pre.len() && (#[trigger] pre[j]) is Detach implies false by {}
    let post = post_pivot_plan_spec(tmp_old, host, supplied_base, supplied, roots, cwd);
    let st = store_plan_spec(host, supplied_base, supplied);
    let rp = replicate_plan_spec(roots);
    lemma_store_plan_benign(host, supplied_base, supplied);
    lemma_replicate_benign(roots);
    assert forall|j: int|
        0 <= j < post.len() && (#[trigger] post[j]) is Detach implies j > 0 && post[j - 1]
        == (ActionV::MakeSlave { path: detach_target(post[j]) }) by {
        if 3 <= j < 3 + st.len() {
            assert(post[j] == st[j - 3]);
            assert(benign(st[j - 3]));
        } else if 3 + st.len() <= j < 3 + st.len() + rp.len() {
            assert(post[j] == rp[j - 3 - st.len()]);
            assert(benign(rp[j - 3 - st.len()]));
        } else if j >= 3 + st.len() + rp.len() {
            let td = teardown_plan_spec(cwd);
            let b = 3 + st.len() + rp.len() as int;
            assert(post[j] == td[j - b]);
            assert(td =~= seq![
                ActionV::SetCwd { path: cwd },
                ActionV::MakeSlave { path: old_root_spec() },
                ActionV::Detach { path: old_root_spec() },
                ActionV::RemoveDir { path: old_root_spec() },
                ActionV::Exec,
            ]);
            assert(j - b == 2);
            assert(post[j - 1] == td[1]);
        } else {
            assert(j == 1);
            assert(post[0] == (ActionV::MakeSlave { path: tmp_old }));
        }
    }
}

/// Fail before handoff: the handoff is the one and only last step of the
/// post-pivot plan, and no other plan of the scheme hands control away at
/// all.  Together with the planner's contract — no plan is produced when
/// the supplied store is missing — the requested command can only ever
/// start after every other step has been handed out.
pub proof fn lemma_handoff_last(
    privileged: bool,
    uid: nat,
    gid: nat,
    tmp: Seq<u8>,
    tmp_old: Seq<u8>,
    host: Option<Seq<EntryV>>,
    supplied_base: Seq<u8>,
    supplied: Seq<EntryV>,
    roots: Seq<EntryV>,
    cwd: Seq<u8>,
)
    ensures
        forall|j: int|
            0 <= j < pre_pivot_plan_spec(privileged, uid, gid, tmp).len() ==> !(
            #[trigger] pre_pivot_plan_spec(privileged, uid, gid, tmp)[j] is Exec),
        post_pivot_plan_spec(tmp_old, host, supplied_base, supplied, roots, cwd).last()
            == ActionV::Exec,
        forall|j: int|
            0 <= j < post_pivot_plan_spec(tmp_old, host, supplied_base, supplied, roots, cwd).len()
                - 1 ==> !(#[trigger] post_pivot_plan_spec(
                tmp_old,
                host,
                supplied_base,
                supplied,
                roots,
                cwd,
            )[j] is Exec),
{
    let post = post_pivot_plan_spec(tmp_old, host, supplied_base, supplied, roots, cwd);
    let st = store_plan_spec(host, supplied_base, supplied);
    let rp = replicate_plan_spec(roots);
    let td = teardown_plan_spec(cwd);
    lemma_store_plan_benign(host, supplied_base, supplied);
    lemma_replicate_benign(roots);
    assert(td =~= seq![
        ActionV::SetCwd { path: cwd },
        ActionV::MakeSlave { path: old_root_spec() },
        ActionV::Detach { path: old_root_spec() },
        ActionV::RemoveDir { path: old_root_spec() },
        ActionV::Exec,
    ]);
    assert(post.last() == td[4]);
    assert forall|j: int| 0 <= j < post.len() - 1 implies !(#[trigger] post[j] is Exec) by {
        if 3 <= j < 3 + st.len() {
            assert(post[j] == st[j - 3]);
            assert(benign(st[j - 3]));
        } else if 3 + st.len() <= j < 3 + st.len() + rp.len() {
            assert(post[j] == rp[j - 3 - st.len()]);
            assert(benign(rp[j - 3 - st.len()]));
        } else if j >= 3 + st.len() + rp.len() {
            let b = 3 + st.len() + rp.len() as int;
            assert(post[j] == td[j - b]);
        }
    }
}

} // verus!
