use zygiskd::mount::{compute_unmount_targets, should_unmount, MountRecord, RootImpl};

fn rec(point: &str, source: Option<&str>, root: &str) -> MountRecord {
    MountRecord {
        point: point.as_bytes().to_vec(),
        source: source.map(|s| s.as_bytes().to_vec()),
        root: root.as_bytes().to_vec(),
    }
}

#[test]
fn magisk_system_bin_scenario() {
    let mounts = vec![
        rec("/system/bin", Some("magisk"), "/"),
        rec("/system/bin/sh", Some("magisk"), "/"),
    ];
    let targets = compute_unmount_targets(RootImpl::Magisk, false, &mounts);
    assert_eq!(
        targets,
        vec![b"/system/bin/sh".to_vec(), b"/system/bin".to_vec()]
    );
}

#[test]
fn detachment_order_reverses_table_order() {
    let mounts = vec![
        rec("/data/adb/modules/a", Some("x"), "/"),
        rec("/unrelated", Some("tmpfs"), "/"),
        rec("/data/adb/modules/b", Some("y"), "/"),
        rec("/data/adb/modules/c", Some("z"), "/"),
    ];
    let targets = compute_unmount_targets(RootImpl::APatch, false, &mounts);
    assert_eq!(
        targets,
        vec![
            b"/data/adb/modules/c".to_vec(),
            b"/data/adb/modules/b".to_vec(),
            b"/data/adb/modules/a".to_vec(),
        ]
    );
}

#[test]
fn apatch_full_revert_selects_tag_root_and_storage() {
    let by_tag = rec("/somewhere", Some("APatch"), "/");
    let by_root = rec("/vendor/overlay", Some("overlay"), "/adb/modules/thing");
    let by_point = rec("/data/adb/modules/m", Some("tmpfs"), "/");
    let untouched = rec("/system", Some("ext4"), "/");
    assert!(should_unmount(RootImpl::APatch, false, &by_tag));
    assert!(should_unmount(RootImpl::APatch, false, &by_root));
    assert!(should_unmount(RootImpl::APatch, false, &by_point));
    assert!(!should_unmount(RootImpl::APatch, false, &untouched));
}

#[test]
fn kernelsu_matches_its_own_tag() {
    let ksu = rec("/somewhere", Some("KSU"), "/");
    let apatch = rec("/somewhere", Some("APatch"), "/");
    assert!(should_unmount(RootImpl::KernelSU, false, &ksu));
    assert!(!should_unmount(RootImpl::KernelSU, false, &apatch));
    assert!(!should_unmount(RootImpl::APatch, false, &ksu));
}

#[test]
fn modules_only_selects_debug_ramdisk() {
    let ramdisk = rec("/debug_ramdisk/init", Some("tmpfs"), "/");
    let module = rec("/data/adb/modules/m", Some("tmpfs"), "/");
    assert!(should_unmount(RootImpl::APatch, true, &ramdisk));
    assert!(!should_unmount(RootImpl::APatch, true, &module));
    assert!(should_unmount(RootImpl::KernelSU, true, &ramdisk));
    assert!(!should_unmount(RootImpl::KernelSU, true, &module));
}

#[test]
fn magisk_modules_only_adds_tagged_system_bin() {
    let tagged_bin = rec("/system/bin/su", Some("magisk"), "/");
    let untagged_bin = rec("/system/bin/sh", Some("tmpfs"), "/");
    let ramdisk = rec("/debug_ramdisk", None, "/");
    assert!(should_unmount(RootImpl::Magisk, true, &tagged_bin));
    assert!(!should_unmount(RootImpl::Magisk, true, &untagged_bin));
    assert!(should_unmount(RootImpl::Magisk, true, &ramdisk));
}

#[test]
fn magisk_full_revert_ignores_module_storage_path() {
    // Unlike the other two providers, the overlay provider does not match
    // the module storage path, only its tag and the overlay root.
    let by_point = rec("/data/adb/modules/m", Some("tmpfs"), "/");
    let by_root = rec("/vendor/overlay", Some("x"), "/adb/modules/thing");
    assert!(!should_unmount(RootImpl::Magisk, false, &by_point));
    assert!(should_unmount(RootImpl::Magisk, false, &by_root));
}

#[test]
fn missing_source_never_matches_a_tag() {
    let no_source = rec("/somewhere", None, "/");
    assert!(!should_unmount(RootImpl::APatch, false, &no_source));
    assert!(!should_unmount(RootImpl::Magisk, false, &no_source));
}

#[test]
fn empty_mount_table_gives_empty_targets() {
    let mounts: Vec<MountRecord> = Vec::new();
    assert_eq!(compute_unmount_targets(RootImpl::APatch, true, &mounts).len(), 0);
}
