//! Scenario tests for the planners: concrete listings in, exact action
//! sequences out.

use nixon::action::Action;
use nixon::entry::{Entry, EntryKind};
use nixon::guard::UnmountGuard;
use nixon::identity::{decimal, deny_content, gid_map_path, id_map_line, setgroups_path,
    uid_map_path};
use nixon::paths::{container_path, old_root_path, old_store_path, store_path};
use nixon::planner::{bind_entry_actions, intermediate_mount_actions, merge_store_actions,
    post_pivot_plan, pre_pivot_plan, replicate_root_actions, safe_unmount_actions, SetupError};

fn bytes(s: &str) -> Vec<u8> {
    s.as_bytes().to_vec()
}

fn entry(name: &str, kind: EntryKind) -> Entry {
    Entry { name: bytes(name), kind }
}

/// The `from` of every `BindMount` in `plan` whose `to` is `target`.
fn bind_sources_for(plan: &[Action], target: &[u8]) -> Vec<Vec<u8>> {
    let mut r = Vec::new();
    for a in plan {
        if let Action::BindMount { from, to } = a {
            if to.as_slice() == target {
                r.push(from.clone());
            }
        }
    }
    r
}

fn ok_plan(
    host_store: Option<Vec<Entry>>,
    supplied_base: &str,
    supplied: Vec<Entry>,
    roots: Vec<Entry>,
) -> Vec<Action> {
    post_pivot_plan(
        &bytes("/tmp/ephemeral"),
        host_store.is_some(),
        &host_store,
        &bytes(supplied_base),
        &Some(supplied),
        &roots,
        &bytes("/home/user"),
    )
    .expect("plan should be produced")
}

#[test]
fn override_precedence_supplied_wins() {
    // The name `hello` is present in both layers: the last bind mounted at
    // the synthesized name must come from the supplied store.
    let host = vec![entry("hello", EntryKind::Other)];
    let supplied = vec![entry("hello", EntryKind::Other)];
    let plan = ok_plan(Some(host), "/overlay", supplied, vec![]);
    let sources = bind_sources_for(&plan, b"/nix/store/hello");
    assert_eq!(sources.len(), 2);
    assert_eq!(sources[0], bytes("/.oldroot/nix/store/hello"));
    assert_eq!(sources[1], bytes("/overlay/hello"));
}

#[test]
fn union_completeness_without_host() {
    // No host store: the synthesized store gets exactly the supplied
    // entries, after the target directory is made to exist.
    let supplied = vec![entry("a", EntryKind::Directory), entry("b", EntryKind::Other)];
    let plan = ok_plan(None, "/overlay", supplied, vec![]);
    assert!(plan.contains(&Action::CreateDirAll { path: bytes("/nix/store") }));
    assert_eq!(
        bind_sources_for(&plan, b"/nix/store/a"),
        vec![bytes("/overlay/a")]
    );
    assert_eq!(
        bind_sources_for(&plan, b"/nix/store/b"),
        vec![bytes("/overlay/b")]
    );
    // Nothing else is bound into the store.
    let mut store_binds = 0;
    for a in &plan {
        if let Action::BindMount { to, .. } = a {
            if to.starts_with(b"/nix/store/") {
                store_binds += 1;
            }
        }
    }
    assert_eq!(store_binds, 2);
}

#[test]
fn synthesized_store_holds_exactly_both_layers() {
    // With a host store present, the fresh filesystem hides its real
    // contents; only the listed names of the two layers are bound into the
    // synthesized store.
    let host = vec![entry("x", EntryKind::Other)];
    let supplied = vec![entry("y", EntryKind::Directory)];
    let plan = ok_plan(Some(host), "/overlay", supplied, vec![]);
    let mut store_targets = Vec::new();
    for a in &plan {
        if let Action::BindMount { to, .. } = a {
            if to.starts_with(b"/nix/store/") {
                store_targets.push(to.clone());
            }
        }
    }
    assert_eq!(store_targets, vec![bytes("/nix/store/x"), bytes("/nix/store/y")]);
}

#[test]
fn union_completeness_host_only_name() {
    // A name only the host store has falls through unchanged.
    let host = vec![entry("host-only", EntryKind::Other)];
    let supplied = vec![entry("extra", EntryKind::Other)];
    let plan = ok_plan(Some(host), "/overlay", supplied, vec![]);
    assert_eq!(
        bind_sources_for(&plan, b"/nix/store/host-only"),
        vec![bytes("/.oldroot/nix/store/host-only")]
    );
}

#[test]
fn host_layer_precedes_supplied_layer() {
    let host = vec![entry("x", EntryKind::Other)];
    let supplied = vec![entry("y", EntryKind::Other)];
    let plan = ok_plan(Some(host), "/overlay", supplied, vec![]);
    let host_bind = plan
        .iter()
        .position(|a| matches!(a, Action::BindMount { to, .. } if to == &bytes("/nix/store/x")))
        .unwrap();
    let supplied_bind = plan
        .iter()
        .position(|a| matches!(a, Action::BindMount { to, .. } if to == &bytes("/nix/store/y")))
        .unwrap();
    assert!(host_bind < supplied_bind);
}

#[test]
fn symlink_fidelity() {
    // A symlink source is recreated as a symlink with the same target
    // text, and nothing is mounted for it.
    let e = entry("link", EntryKind::Symlink(bytes("../target/elsewhere")));
    let plan = bind_entry_actions(&e, &bytes("/overlay"), &bytes("/nix/store"));
    assert_eq!(
        plan,
        vec![
            Action::DetachAny { path: bytes("/nix/store/link") },
            Action::RemoveFileAny { path: bytes("/nix/store/link") },
            Action::Symlink {
                at: bytes("/nix/store/link"),
                dest: bytes("../target/elsewhere"),
            },
        ]
    );
    assert!(!plan.iter().any(|a| matches!(a, Action::BindMount { .. })));
}

#[test]
fn target_clearing_precedes_every_creation() {
    // Each replication starts by detaching and removing whatever is at the
    // target, so a stale mount or file never makes it fail.
    for kind in [
        EntryKind::Symlink(bytes("t")),
        EntryKind::Directory,
        EntryKind::Other,
    ] {
        let e = entry("n", kind);
        let plan = bind_entry_actions(&e, &bytes("/from"), &bytes("/to"));
        assert_eq!(plan[0], Action::DetachAny { path: bytes("/to/n") });
        assert_eq!(plan[1], Action::RemoveFileAny { path: bytes("/to/n") });
    }
}

#[test]
fn directory_entry_is_bound_recursively() {
    let e = entry("pkg", EntryKind::Directory);
    let plan = bind_entry_actions(&e, &bytes("/overlay"), &bytes("/nix/store"));
    assert_eq!(
        plan,
        vec![
            Action::DetachAny { path: bytes("/nix/store/pkg") },
            Action::RemoveFileAny { path: bytes("/nix/store/pkg") },
            Action::CreateDirAll { path: bytes("/nix/store/pkg") },
            Action::BindMount {
                from: bytes("/overlay/pkg"),
                to: bytes("/nix/store/pkg"),
            },
        ]
    );
}

#[test]
fn file_entry_gets_empty_file_then_bind() {
    let e = entry("f", EntryKind::Other);
    let plan = bind_entry_actions(&e, &bytes("/overlay"), &bytes("/nix/store"));
    assert_eq!(plan[2], Action::CreateFile { path: bytes("/nix/store/f") });
    assert_eq!(
        plan[3],
        Action::BindMount { from: bytes("/overlay/f"), to: bytes("/nix/store/f") }
    );
}

#[test]
fn full_reconstruction_skips_excluded_names() {
    // Every old-root entry except the store container and the hidden mount
    // point is replicated to the new root under its own name.
    let roots = vec![
        entry("etc", EntryKind::Directory),
        entry("nix", EntryKind::Directory),
        entry(".oldroot", EntryKind::Directory),
        entry("usr", EntryKind::Directory),
        entry("vmlinuz", EntryKind::Symlink(bytes("boot/vmlinuz"))),
    ];
    let plan = replicate_root_actions(&roots);
    assert_eq!(
        bind_sources_for(&plan, b"/etc"),
        vec![bytes("/.oldroot/etc")]
    );
    assert_eq!(
        bind_sources_for(&plan, b"/usr"),
        vec![bytes("/.oldroot/usr")]
    );
    assert!(plan.contains(&Action::Symlink {
        at: bytes("/vmlinuz"),
        dest: bytes("boot/vmlinuz"),
    }));
    assert!(bind_sources_for(&plan, b"/nix").is_empty());
    assert!(bind_sources_for(&plan, b"/.oldroot").is_empty());
    assert!(!plan
        .iter()
        .any(|a| matches!(a, Action::DetachAny { path } if path == &bytes("/nix")
            || path == &bytes("/.oldroot"))));
}

#[test]
fn fail_before_handoff_when_supplied_store_missing() {
    let r = post_pivot_plan(
        &bytes("/tmp/ephemeral"),
        false,
        &None,
        &bytes("/overlay"),
        &None,
        &vec![],
        &bytes("/"),
    );
    assert_eq!(r, Err(SetupError::SuppliedStoreMissing));
}

#[test]
fn fail_when_host_store_unreadable() {
    let r = post_pivot_plan(
        &bytes("/tmp/ephemeral"),
        true,
        &None,
        &bytes("/overlay"),
        &Some(vec![]),
        &vec![],
        &bytes("/"),
    );
    assert_eq!(r, Err(SetupError::HostStoreUnreadable));
}

#[test]
fn handoff_is_the_single_last_action() {
    let plan = ok_plan(None, "/overlay", vec![entry("a", EntryKind::Other)], vec![
        entry("etc", EntryKind::Directory),
    ]);
    assert_eq!(plan.last(), Some(&Action::Exec));
    let execs = plan.iter().filter(|a| matches!(a, Action::Exec)).count();
    assert_eq!(execs, 1);
}

#[test]
fn every_detach_follows_make_slave_on_same_path() {
    // The private-before-detach discipline, checked over a whole run's
    // worth of actions.
    let host = vec![entry("hello", EntryKind::Other)];
    let supplied = vec![entry("hello", EntryKind::Other)];
    let roots = vec![entry("etc", EntryKind::Directory)];
    let mut plan = pre_pivot_plan(false, 1000, 1000, &bytes("/tmp/ephemeral"));
    plan.extend(ok_plan(Some(host), "/overlay", supplied, roots));
    for (i, a) in plan.iter().enumerate() {
        if let Action::Detach { path } = a {
            assert!(i > 0);
            assert_eq!(plan[i - 1], Action::MakeSlave { path: path.clone() });
        }
    }
}

#[test]
fn namespace_entry_is_the_first_action() {
    let plan = pre_pivot_plan(false, 1000, 100, &bytes("/tmp/ephemeral"));
    assert_eq!(plan[0], Action::Unshare { user_ns: true });
    let plan = pre_pivot_plan(true, 0, 0, &bytes("/tmp/ephemeral"));
    assert_eq!(plan[0], Action::Unshare { user_ns: false });
}

#[test]
fn unprivileged_identity_writes_in_kernel_order() {
    // setgroups is denied before either map is written.
    let plan = pre_pivot_plan(false, 1000, 100, &bytes("/tmp/e"));
    assert_eq!(
        plan[1],
        Action::WriteFile { path: setgroups_path(), content: deny_content() }
    );
    assert_eq!(
        plan[2],
        Action::WriteFile { path: uid_map_path(), content: bytes("1000 1000 1") }
    );
    assert_eq!(
        plan[3],
        Action::WriteFile { path: gid_map_path(), content: bytes("100 100 1") }
    );
}

#[test]
fn privileged_run_skips_identity_remapping() {
    let plan = pre_pivot_plan(true, 0, 0, &bytes("/tmp/e"));
    assert!(!plan.iter().any(|a| matches!(a, Action::WriteFile { .. })));
}

#[test]
fn pre_pivot_sequence_mounts_then_pivots() {
    let tmp = bytes("/tmp/e");
    let plan = pre_pivot_plan(true, 0, 0, &tmp);
    assert_eq!(
        &plan[1..],
        &[
            Action::BindSelf { path: tmp.clone() },
            Action::MakeSlave { path: tmp.clone() },
            Action::MountTmpfs { path: tmp.clone(), mode: 0o755 },
            Action::CreateDir { path: bytes("/tmp/e/.oldroot") },
            Action::PivotRoot { new_root: tmp.clone(), put_old: bytes("/tmp/e/.oldroot") },
        ]
    );
}

#[test]
fn post_pivot_clears_ephemeral_directory_old_address() {
    let plan = ok_plan(None, "/overlay", vec![], vec![]);
    assert_eq!(plan[0], Action::MakeSlave { path: bytes("/.oldroot/tmp/ephemeral") });
    assert_eq!(plan[1], Action::Detach { path: bytes("/.oldroot/tmp/ephemeral") });
    assert_eq!(plan[2], Action::RemoveDir { path: bytes("/.oldroot/tmp/ephemeral") });
}

#[test]
fn host_store_is_hidden_under_fresh_filesystem() {
    let plan = ok_plan(Some(vec![]), "/overlay", vec![], vec![]);
    // The container is bound, made slave, and the store mount hides the
    // host's contents, in that order.
    let bind = plan
        .iter()
        .position(|a| matches!(a, Action::BindMount { to, .. } if to == &bytes("/nix")))
        .unwrap();
    let slave = plan
        .iter()
        .position(|a| a == &Action::MakeSlave { path: container_path() })
        .unwrap();
    let tmpfs = plan
        .iter()
        .position(|a| a == &Action::MountTmpfs { path: store_path(), mode: 0o555 })
        .unwrap();
    assert!(bind < slave && slave < tmpfs);
}

#[test]
fn teardown_restores_cwd_then_removes_hidden_mount_point() {
    let plan = ok_plan(None, "/overlay", vec![], vec![]);
    let n = plan.len();
    assert_eq!(plan[n - 5], Action::SetCwd { path: bytes("/home/user") });
    assert_eq!(plan[n - 4], Action::MakeSlave { path: old_root_path() });
    assert_eq!(plan[n - 3], Action::Detach { path: old_root_path() });
    assert_eq!(plan[n - 2], Action::RemoveDir { path: old_root_path() });
    assert_eq!(plan[n - 1], Action::Exec);
}

#[test]
fn merge_store_actions_per_entry() {
    let entries = vec![entry("one", EntryKind::Other), entry("two", EntryKind::Directory)];
    let plan = merge_store_actions(&entries, &old_store_path(), &store_path());
    assert_eq!(plan.len(), 8);
    assert_eq!(
        bind_sources_for(&plan, b"/nix/store/one"),
        vec![bytes("/.oldroot/nix/store/one")]
    );
    assert_eq!(
        bind_sources_for(&plan, b"/nix/store/two"),
        vec![bytes("/.oldroot/nix/store/two")]
    );
}

#[test]
fn safe_unmount_makes_private_then_detaches() {
    let plan = safe_unmount_actions(&bytes("/mnt/x"));
    assert_eq!(
        plan,
        vec![
            Action::MakeSlave { path: bytes("/mnt/x") },
            Action::Detach { path: bytes("/mnt/x") },
        ]
    );
}

#[test]
fn intermediate_mount_binds_self_then_cuts_propagation() {
    let plan = intermediate_mount_actions(&bytes("/tmp/e"));
    assert_eq!(
        plan,
        vec![
            Action::BindSelf { path: bytes("/tmp/e") },
            Action::MakeSlave { path: bytes("/tmp/e") },
        ]
    );
}

#[test]
fn guard_owes_cleanup_until_defused() {
    let g = UnmountGuard::new(bytes("/tmp/e"));
    assert_eq!(
        g.cleanup_actions(),
        vec![
            Action::MakeSlave { path: bytes("/tmp/e") },
            Action::Detach { path: bytes("/tmp/e") },
        ]
    );
    let mut g = UnmountGuard::new(bytes("/tmp/e"));
    g.defuse();
    assert!(g.cleanup_actions().is_empty());
    let g2 = UnmountGuard::new(bytes("/tmp/f"));
    assert_eq!(g2.take(), bytes("/tmp/f"));
}

#[test]
fn decimal_rendering() {
    assert_eq!(decimal(0), bytes("0"));
    assert_eq!(decimal(7), bytes("7"));
    assert_eq!(decimal(1000), bytes("1000"));
    assert_eq!(decimal(u64::MAX), bytes("18446744073709551615"));
    assert_eq!(id_map_line(0), bytes("0 0 1"));
    assert_eq!(id_map_line(65534), bytes("65534 65534 1"));
}

#[test]
fn fixed_paths() {
    assert_eq!(old_root_path(), bytes("/.oldroot"));
    assert_eq!(container_path(), bytes("/nix"));
    assert_eq!(store_path(), bytes("/nix/store"));
    assert_eq!(old_store_path(), bytes("/.oldroot/nix/store"));
    assert_eq!(setgroups_path(), bytes("/proc/self/setgroups"));
    assert_eq!(uid_map_path(), bytes("/proc/self/uid_map"));
    assert_eq!(gid_map_path(), bytes("/proc/self/gid_map"));
}
