//! The executable planners: each takes plain inputs — identity data, the
//! ephemeral directory's path, directory listings the shell has read — and
//! returns the exact action sequence of the corresponding plan.

use vstd::prelude::*;
use crate::action::{plan_view, Action, ActionV};
use crate::bytes::{concat_bytes, copy_bytes, join_path, SLASH};
use crate::entry::{entry_views, Entry, EntryKind};
use crate::identity::{deny_content, gid_map_path, id_map_line, setgroups_path, uid_map_path};
use crate::paths::{container_path, old_root_name, old_root_path, old_root_spec, old_store_path,
    root_base, store_container_name, store_path};
use crate::plan::{bind_plan_spec, container_entry_spec, excluded, intermediate_plan_spec,
    lemma_merge_plan_push, lemma_replicate_plan_push, merge_plan_spec, post_pivot_plan_spec,
    pre_pivot_plan_spec, replicate_plan_spec, safe_unmount_plan_spec, store_plan_spec,
    store_prefix_spec};

verus! {

/// Why a setup plan cannot be produced.
#[derive(Debug, Clone, PartialEq, Eq)]
pub enum SetupError {
    /// The supplied store directory does not exist or cannot be listed;
    /// nothing is handed off.
    SuppliedStoreMissing,
    /// The host exposes a store container, but its store cannot be listed.
    HostStoreUnreadable,
}

/// The unmount-without-leaking steps for one mount point, in the mandatory
/// order: propagation first, detach second.
pub fn safe_unmount_actions(path: &Vec<u8>) -> (r: Vec<Action>)
    ensures
        plan_view(r@) == safe_unmount_plan_spec(path@),
{
    let mut r: Vec<Action> = Vec::new();
    r.push(Action::MakeSlave { path: copy_bytes(path) });
    r.push(Action::Detach { path: copy_bytes(path) });
    proof {
        assert(plan_view(r@) =~= safe_unmount_plan_spec(path@));
    }
    r
}

/// The steps that turn a directory into a mount point with its propagation
/// cut off.
pub fn intermediate_mount_actions(path: &Vec<u8>) -> (r: Vec<Action>)
    ensures
        plan_view(r@) == intermediate_plan_spec(path@),
{
    let mut r: Vec<Action> = Vec::new();
    r.push(Action::BindSelf { path: copy_bytes(path) });
    r.push(Action::MakeSlave { path: copy_bytes(path) });
    proof {
        assert(plan_view(r@) =~= intermediate_plan_spec(path@));
    }
    r
}

/// Appends the replication steps for one entry: clear the target, then
/// recreate a symlink, or create the target node and bind the source over
/// it.
fn push_bind_entry(plan: &mut Vec<Action>, e: &Entry, from_base: &Vec<u8>, to_base: &Vec<u8>)
    ensures
        plan_view(final(plan)@) == plan_view(old(plan)@) + bind_plan_spec(e@, from_base@, to_base@),
{
    let to = join_path(to_base, &e.name);
    let from = join_path(from_base, &e.name);
    plan.push(Action::DetachAny { path: copy_bytes(&to) });
    plan.push(Action::RemoveFileAny { path: copy_bytes(&to) });
    match &e.kind {
        EntryKind::Symlink(dest) => {
            plan.push(Action::Symlink { at: to, dest: copy_bytes(dest) });
        },
        EntryKind::Directory => {
            plan.push(Action::CreateDirAll { path: copy_bytes(&to) });
            plan.push(Action::BindMount { from, to });
        },
        EntryKind::Other => {
            plan.push(Action::CreateFile { path: copy_bytes(&to) });
            plan.push(Action::BindMount { from, to });
        },
    }
    proof {
        assert(plan_view(plan@) =~= plan_view(old(plan)@) + bind_plan_spec(
            e@,
            from_base@,
            to_base@,
        ));
    }
}

/// The replication steps for one entry, as the target-clearing
/// correspondence rule produces them.
pub fn bind_entry_actions(e: &Entry, from_base: &Vec<u8>, to_base: &Vec<u8>) -> (r: Vec<Action>)
    ensures
        plan_view(r@) == bind_plan_spec(e@, from_base@, to_base@),
{
    let mut r: Vec<Action> = Vec::new();
    push_bind_entry(&mut r, e, from_base, to_base);
    proof {
        assert(plan_view(Seq::<Action>::empty()) =~= Seq::<ActionV>::empty());
        assert(Seq::<ActionV>::empty() + bind_plan_spec(e@, from_base@, to_base@)
            =~= bind_plan_spec(e@, from_base@, to_base@));
    }
    r
}

/// Appends the steps that replicate a whole listing, entry by entry in
/// listing order.
fn push_merge(plan: &mut Vec<Action>, entries: &Vec<Entry>, from_base: &Vec<u8>, to_base: &Vec<u8>)
    ensures
        plan_view(final(plan)@) == plan_view(old(plan)@) + merge_plan_spec(
            entry_views(entries@),
            from_base@,
            to_base@,
        ),
{
    let ghost es = entry_views(entries@);
    let mut i: usize = 0;
    proof {
        assert(es.take(0) =~= Seq::<crate::entry::EntryV>::empty());
        assert(plan_view(plan@) + merge_plan_spec(es.take(0), from_base@, to_base@) =~= plan_view(
            plan@,
        ));
    }
    while i < entries.len()
        invariant
            i <= entries.len(),
            es == entry_views(entries@),
            plan_view(plan@) == plan_view(old(plan)@) + merge_plan_spec(
                es.take(i as int),
                from_base@,
                to_base@,
            ),
        decreases entries.len() - i,
    {
        push_bind_entry(plan, &entries[i], from_base, to_base);
        proof {
            assert(es.take(i + 1) =~= es.take(i as int).push(es[i as int]));
            lemma_merge_plan_push(es.take(i as int), es[i as int], from_base@, to_base@);
            assert((plan_view(old(plan)@) + merge_plan_spec(es.take(i as int), from_base@, to_base@))
                + bind_plan_spec(es[i as int], from_base@, to_base@) =~= plan_view(old(plan)@)
                + merge_plan_spec(es.take(i + 1), from_base@, to_base@));
        }
        i = i + 1;
    }
    proof {
        assert(es.take(entries@.len() as int) =~= es);
    }
}

/// The store-merge steps for one layer: every entry of `entries`, read at
/// `from_base`, replicated to the same name under `to_base`.
pub fn merge_store_actions(entries: &Vec<Entry>, from_base: &Vec<u8>, to_base: &Vec<u8>) -> (r:
    Vec<Action>)
    ensures
        plan_view(r@) == merge_plan_spec(entry_views(entries@), from_base@, to_base@),
{
    let mut r: Vec<Action> = Vec::new();
    push_merge(&mut r, entries, from_base, to_base);
    proof {
        assert(plan_view(Seq::<Action>::empty()) =~= Seq::<ActionV>::empty());
        assert(Seq::<ActionV>::empty() + merge_plan_spec(entry_views(entries@), from_base@, to_base@)
            =~= merge_plan_spec(entry_views(entries@), from_base@, to_base@));
    }
    r
}

/// Whether a name is one the tree replication skips.
fn is_excluded(name: &Vec<u8>) -> (r: bool)
    ensures
        r == excluded(name@),
{
    let nix = store_container_name();
    let hidden = old_root_name();
    let eq_nix = bytes_equal(name, &nix);
    let eq_hidden = bytes_equal(name, &hidden);
    eq_nix || eq_hidden
}

/// Byte-for-byte equality of two vectors.
fn bytes_equal(a: &Vec<u8>, b: &Vec<u8>) -> (r: bool)
    ensures
        r == (a@ == b@),
{
    if a.len() != b.len() {
        assert(a@.len() != b@.len());
        return false;
    }
    let mut i: usize = 0;
    while i < a.len()
        invariant
            i <= a.len(),
            a@.len() == b@.len(),
            forall|j: int| 0 <= j < i ==> a@[j] == b@[j],
        decreases a.len() - i,
    {
        if a[i] != b[i] {
            return false;
        }
        i = i + 1;
    }
    proof {
        assert(a@ =~= b@);
    }
    true
}

/// Appends the tree-replication steps: every listed entry of the old root
/// except the excluded names, bound or recreated at the new root.
fn push_replicate(plan: &mut Vec<Action>, roots: &Vec<Entry>)
    ensures
        plan_view(final(plan)@) == plan_view(old(plan)@) + replicate_plan_spec(entry_views(roots@)),
{
    let ghost es = entry_views(roots@);
    let from_base = old_root_path();
    let to_base = root_base();
    let mut i: usize = 0;
    proof {
        assert(es.take(0) =~= Seq::<crate::entry::EntryV>::empty());
        assert(plan_view(plan@) + replicate_plan_spec(es.take(0)) =~= plan_view(plan@));
    }
    while i < roots.len()
        invariant
            i <= roots.len(),
            es == entry_views(roots@),
            from_base@ == old_root_spec(),
            to_base@ == crate::paths::root_base_spec(),
            plan_view(plan@) == plan_view(old(plan)@) + replicate_plan_spec(es.take(i as int)),
        decreases roots.len() - i,
    {
        let skip = is_excluded(&roots[i].name);
        if !skip {
            push_bind_entry(plan, &roots[i], &from_base, &to_base);
        }
        proof {
            assert(es.take(i + 1) =~= es.take(i as int).push(es[i as int]));
            lemma_replicate_plan_push(es.take(i as int), es[i as int]);
            if !skip {
                assert((plan_view(old(plan)@) + replicate_plan_spec(es.take(i as int)))
                    + bind_plan_spec(es[i as int], old_root_spec(), crate::paths::root_base_spec())
                    =~= plan_view(old(plan)@) + replicate_plan_spec(es.take(i + 1)));
            }
        }
        i = i + 1;
    }
    proof {
        assert(es.take(roots@.len() as int) =~= es);
    }
}

/// The tree-replication steps for a listing of the old root.
pub fn replicate_root_actions(roots: &Vec<Entry>) -> (r: Vec<Action>)
    ensures
        plan_view(r@) == replicate_plan_spec(entry_views(roots@)),
{
    let mut r: Vec<Action> = Vec::new();
    push_replicate(&mut r, roots);
    proof {
        assert(plan_view(Seq::<Action>::empty()) =~= Seq::<ActionV>::empty());
        assert(Seq::<ActionV>::empty() + replicate_plan_spec(entry_views(roots@))
            =~= replicate_plan_spec(entry_views(roots@)));
    }
    r
}

/// The whole plan up to and including the pivot, from the caller's
/// privilege, identity and the ephemeral directory's path.
pub fn pre_pivot_plan(privileged: bool, uid: u64, gid: u64, tmp: &Vec<u8>) -> (r: Vec<Action>)
    ensures
        plan_view(r@) == pre_pivot_plan_spec(privileged, uid as nat, gid as nat, tmp@),
{
    let mut plan: Vec<Action> = Vec::new();
    if privileged {
        plan.push(Action::Unshare { user_ns: false });
    } else {
        plan.push(Action::Unshare { user_ns: true });
        plan.push(Action::WriteFile { path: setgroups_path(), content: deny_content() });
        plan.push(Action::WriteFile { path: uid_map_path(), content: id_map_line(uid) });
        plan.push(Action::WriteFile { path: gid_map_path(), content: id_map_line(gid) });
    }
    plan.push(Action::BindSelf { path: copy_bytes(tmp) });
    plan.push(Action::MakeSlave { path: copy_bytes(tmp) });
    plan.push(Action::MountTmpfs { path: copy_bytes(tmp), mode: 0o755 });
    let hidden = old_root_name();
    let put_old = join_path(tmp, &hidden);
    plan.push(Action::CreateDir { path: copy_bytes(&put_old) });
    plan.push(Action::PivotRoot { new_root: copy_bytes(tmp), put_old });
    proof {
        assert(plan_view(plan@) =~= pre_pivot_plan_spec(privileged, uid as nat, gid as nat, tmp@));
    }
    plan
}

/// The whole plan after the pivot.  `tmp` is the ephemeral directory's
/// absolute pre-pivot path; `host_container_is_dir` says whether the old
/// root exposes a store container; `host_store` is its store's listing
/// where one could be read; `supplied` is the supplied store's listing, or
/// nothing when that directory does not exist; `roots` lists the old root;
/// `cwd` is the working directory to restore.  Fails — before any action is
/// handed out — when the supplied store is missing or a host store exists
/// but cannot be read.
pub fn post_pivot_plan(
    tmp: &Vec<u8>,
    host_container_is_dir: bool,
    host_store: &Option<Vec<Entry>>,
    supplied_base: &Vec<u8>,
    supplied: &Option<Vec<Entry>>,
    roots: &Vec<Entry>,
    cwd: &Vec<u8>,
) -> (r: Result<Vec<Action>, SetupError>)
    requires
        tmp@.len() > 0,
        tmp@[0] == SLASH,
    ensures
        r is Ok <==> (!(host_container_is_dir && host_store is None) && supplied is Some),
        (host_container_is_dir && host_store is None) ==> r == Result::<
            Vec<Action>,
            SetupError,
        >::Err(SetupError::HostStoreUnreadable),
        (!(host_container_is_dir && host_store is None) && supplied is None) ==> r == Result::<
            Vec<Action>,
            SetupError,
        >::Err(SetupError::SuppliedStoreMissing),
        r matches Ok(plan) ==> plan_view(plan@) == post_pivot_plan_spec(
            old_root_spec() + tmp@,
            if host_container_is_dir {
                Option::Some(entry_views(host_store->Some_0@))
            } else {
                Option::None
            },
            supplied_base@,
            entry_views(supplied->Some_0@),
            entry_views(roots@),
            cwd@,
        ),
{
    if host_container_is_dir && host_store.is_none() {
        return Result::Err(SetupError::HostStoreUnreadable);
    }
    let supplied_entries = match supplied {
        Option::Some(v) => v,
        Option::None => {
            return Result::Err(SetupError::SuppliedStoreMissing);
        },
    };
    let ghost host_layer: Option<Seq<crate::entry::EntryV>> = if host_container_is_dir {
        Option::Some(entry_views(host_store->Some_0@))
    } else {
        Option::None
    };
    let oldroot = old_root_path();
    let tmp_old = concat_bytes(&oldroot, tmp);
    let mut plan: Vec<Action> = Vec::new();
    plan.push(Action::MakeSlave { path: copy_bytes(&tmp_old) });
    plan.push(Action::Detach { path: copy_bytes(&tmp_old) });
    plan.push(Action::RemoveDir { path: copy_bytes(&tmp_old) });
    let ghost p_head = safe_unmount_plan_spec(tmp_old@) + seq![
        ActionV::RemoveDir { path: tmp_old@ },
    ];
    proof {
        assert(plan_view(plan@) =~= p_head);
    }
    let store_base = store_path();
    match host_store {
        Option::Some(hs) if host_container_is_dir => {
            let container_entry = Entry {
                name: store_container_name(),
                kind: EntryKind::Directory,
            };
            let base = root_base();
            push_bind_entry(&mut plan, &container_entry, &oldroot, &base);
            let ghost p1 = plan_view(plan@);
            proof {
                assert(container_entry@ == container_entry_spec());
                assert(p1 == p_head + bind_plan_spec(
                    container_entry_spec(),
                    old_root_spec(),
                    crate::paths::root_base_spec(),
                ));
            }
            plan.push(Action::MakeSlave { path: container_path() });
            let ghost p2 = plan_view(plan@);
            proof {
                assert(p2 =~= p1.push(ActionV::MakeSlave { path: crate::paths::container_spec() }));
            }
            plan.push(Action::MountTmpfs { path: store_path(), mode: 0o555 });
            proof {
                assert(plan_view(plan@) =~= p2.push(ActionV::MountTmpfs {
                    path: crate::paths::store_spec(),
                    mode: crate::plan::store_tmpfs_mode(),
                }));
                assert(plan_view(plan@) =~= p_head + (bind_plan_spec(
                    container_entry_spec(),
                    old_root_spec(),
                    crate::paths::root_base_spec(),
                ) + seq![
                    ActionV::MakeSlave { path: crate::paths::container_spec() },
                    ActionV::MountTmpfs {
                        path: crate::paths::store_spec(),
                        mode: crate::plan::store_tmpfs_mode(),
                    },
                ]));
            }
            let old_store = old_store_path();
            push_merge(&mut plan, hs, &old_store, &store_base);
            proof {
                assert(plan_view(plan@) =~= p_head + store_prefix_spec(host_layer));
            }
        },
        _ => {
            plan.push(Action::CreateDirAll { path: store_path() });
            proof {
                assert(plan_view(plan@) =~= p_head + store_prefix_spec(host_layer));
            }
        },
    }
    push_merge(&mut plan, supplied_entries, supplied_base, &store_base);
    let ghost p_store = p_head + store_plan_spec(
        host_layer,
        supplied_base@,
        entry_views(supplied_entries@),
    );
    proof {
        assert(plan_view(plan@) =~= p_store);
    }
    push_replicate(&mut plan, roots);
    plan.push(Action::SetCwd { path: copy_bytes(cwd) });
    plan.push(Action::MakeSlave { path: old_root_path() });
    plan.push(Action::Detach { path: old_root_path() });
    plan.push(Action::RemoveDir { path: old_root_path() });
    plan.push(Action::Exec);
    proof {
        assert(tmp_old@ == old_root_spec() + tmp@);
        assert(plan_view(plan@) =~= post_pivot_plan_spec(
            old_root_spec() + tmp@,
            host_layer,
            supplied_base@,
            entry_views(supplied_entries@),
            entry_views(roots@),
            cwd@,
        ));
    }
    Result::Ok(plan)
}

} // verus!
