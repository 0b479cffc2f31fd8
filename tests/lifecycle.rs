use vault::host::MemoryHost;
use vault::invocation::argv;
use vault::lifecycle::{error_for, plan, Command, Operation, VaultError};
use vault::naming::{mapped_path, vault_name};
use vault::session::{Session, Step};

fn s(x: &str) -> String {
    x.to_string()
}

fn create(device: &str, mountpoint: &str) -> Command {
    Command::Create { device: s(device), mountpoint: s(mountpoint) }
}

fn mount(device: &str, mountpoint: &str) -> Command {
    Command::Mount { device: s(device), mountpoint: s(mountpoint) }
}

fn umount(mountpoint: &str) -> Command {
    Command::Umount { mountpoint: s(mountpoint) }
}

/// Drives a session, failing the operation at `fail_at` (if any); returns
/// the operations run and the final step.
fn drive(cmd: &Command, fail_at: Option<usize>) -> (Vec<Operation>, Step) {
    let mut session = Session::start(cmd).expect("valid mountpoint");
    let mut ran = Vec::new();
    loop {
        match session.next_step() {
            Step::Run(op) => {
                let ok = fail_at != Some(ran.len());
                ran.push(op);
                session.record(ok);
            }
            other => return (ran, other),
        }
    }
}

#[test]
fn vault_name_of_plain_path() {
    assert_eq!(vault_name("/mnt/myvault"), Some(s("myvault")));
    assert_eq!(mapped_path("myvault"), s("/dev/mapper/myvault"));
}

#[test]
fn vault_name_ignores_trailing_separators_and_dots() {
    assert_eq!(vault_name("/mnt/vault/"), Some(s("vault")));
    assert_eq!(vault_name("/mnt/vault//"), Some(s("vault")));
    assert_eq!(vault_name("/mnt/vault/."), Some(s("vault")));
    assert_eq!(vault_name("relative"), Some(s("relative")));
    assert_eq!(vault_name("../a"), Some(s("a")));
    assert_eq!(vault_name("/mnt/..."), Some(s("...")));
    assert_eq!(vault_name("/mnt/.hidden"), Some(s(".hidden")));
}

#[test]
fn vault_name_absent_without_final_component() {
    assert_eq!(vault_name("/"), None);
    assert_eq!(vault_name(""), None);
    assert_eq!(vault_name("."), None);
    assert_eq!(vault_name("./"), None);
    assert_eq!(vault_name("/mnt/.."), None);
    assert_eq!(vault_name("///"), None);
}

#[test]
fn root_mountpoint_is_refused_before_any_operation() {
    for cmd in [create("/dev/sdb1", "/"), mount("/dev/sdb1", "/"), umount("/")] {
        assert!(matches!(plan(&cmd), Err(VaultError::InvalidMountpoint)));
        assert!(matches!(Session::start(&cmd), Err(VaultError::InvalidMountpoint)));
        let mut host = MemoryHost::new();
        assert_eq!(host.run(&cmd), Err(VaultError::InvalidMountpoint));
    }
}

#[test]
fn create_issues_operations_in_order() {
    let (ran, last) = drive(&create("/dev/sdb1", "/mnt/vault1"), None);
    assert_eq!(
        ran,
        vec![
            Operation::Format { device: s("/dev/sdb1") },
            Operation::Open { device: s("/dev/sdb1"), name: s("vault1") },
            Operation::BuildFilesystem { device: s("/dev/mapper/vault1") },
            Operation::CreateDir { path: s("/mnt/vault1") },
            Operation::Mount { source: s("/dev/mapper/vault1"), target: s("/mnt/vault1") },
        ]
    );
    assert!(matches!(last, Step::Finished));
}

#[test]
fn mount_and_umount_issue_operations_in_order() {
    let (ran, last) = drive(&mount("/dev/sdc", "/srv/data"), None);
    assert_eq!(
        ran,
        vec![
            Operation::Open { device: s("/dev/sdc"), name: s("data") },
            Operation::CreateDir { path: s("/srv/data") },
            Operation::Mount { source: s("/dev/mapper/data"), target: s("/srv/data") },
        ]
    );
    assert!(matches!(last, Step::Finished));
    let (ran, last) = drive(&umount("/srv/data"), None);
    assert_eq!(
        ran,
        vec![
            Operation::Unmount { target: s("/srv/data") },
            Operation::Close { device: s("/dev/mapper/data") },
        ]
    );
    assert!(matches!(last, Step::Finished));
}

#[test]
fn naming_agrees_across_transitions() {
    let c = plan(&create("/dev/sdb1", "/mnt/box")).unwrap();
    let m = plan(&mount("/dev/sdb1", "/mnt/box")).unwrap();
    let u = plan(&umount("/mnt/box")).unwrap();
    assert_eq!(c[1], m[0]);
    assert_eq!(c[4], m[2]);
    assert_eq!(u[1], Operation::Close { device: s("/dev/mapper/box") });
}

#[test]
fn first_failure_stops_each_transition() {
    let cases = [
        (create("/dev/sdb1", "/mnt/v"), 0, VaultError::FormatFailed),
        (create("/dev/sdb1", "/mnt/v"), 1, VaultError::OpenFailed),
        (create("/dev/sdb1", "/mnt/v"), 2, VaultError::FilesystemCreateFailed),
        (create("/dev/sdb1", "/mnt/v"), 3, VaultError::DirectoryCreateFailed),
        (create("/dev/sdb1", "/mnt/v"), 4, VaultError::MountFailed),
        (mount("/dev/sdb1", "/mnt/v"), 0, VaultError::OpenFailed),
        (mount("/dev/sdb1", "/mnt/v"), 2, VaultError::MountFailed),
        (umount("/mnt/v"), 0, VaultError::UnmountFailed),
        (umount("/mnt/v"), 1, VaultError::CloseFailed),
    ];
    for (cmd, at, expected) in cases {
        let (ran, last) = drive(&cmd, Some(at));
        assert_eq!(ran.len(), at + 1);
        assert_eq!(error_for(&ran[at]), expected);
        match last {
            Step::Failed(e) => assert_eq!(e, expected),
            other => panic!("expected a failure, got {:?}", other),
        }
    }
}

#[test]
fn failed_session_asks_for_nothing_more() {
    let mut session = Session::start(&umount("/mnt/v")).unwrap();
    assert!(matches!(session.next_step(), Step::Run(Operation::Unmount { .. })));
    session.record(false);
    assert!(matches!(session.next_step(), Step::Failed(VaultError::UnmountFailed)));
    assert!(matches!(session.next_step(), Step::Failed(VaultError::UnmountFailed)));
}

#[test]
fn create_then_umount_round_trip() {
    let mut host = MemoryHost::new();
    assert_eq!(host.run(&create("/dev/sdb1", "/mnt/vault1")), Ok(()));
    // the mapping is taken and the mountpoint is in use while mounted
    assert_eq!(host.run(&mount("/dev/sdc", "/other/vault1")), Err(VaultError::OpenFailed));
    assert_eq!(host.run(&umount("/mnt/vault1")), Ok(()));
    // closed and unmounted: a second umount finds nothing mounted
    assert_eq!(host.run(&umount("/mnt/vault1")), Err(VaultError::UnmountFailed));
    // and the name is free again
    assert_eq!(host.run(&mount("/dev/sdc", "/other/vault1")), Ok(()));
}

#[test]
fn mount_refused_when_name_open_for_other_device() {
    let mut host = MemoryHost::new();
    assert_eq!(host.run(&mount("/dev/sdb1", "/mnt/shared")), Ok(()));
    assert_eq!(host.run(&mount("/dev/sdc1", "/srv/shared")), Err(VaultError::OpenFailed));
}

#[test]
fn umount_of_unmounted_path_does_not_close() {
    let mut host = MemoryHost::new();
    assert_eq!(host.run(&mount("/dev/sdb1", "/mnt/keep")), Ok(()));
    assert_eq!(host.run(&umount("/srv/keep")), Err(VaultError::UnmountFailed));
    // the volume stayed open: its own mountpoint still unmounts and closes
    assert_eq!(host.run(&umount("/mnt/keep")), Ok(()));
    assert_eq!(host.run(&umount("/mnt/keep")), Err(VaultError::UnmountFailed));
}

#[test]
fn memory_host_refuses_to_close_a_mounted_device() {
    let mut host = MemoryHost::new();
    assert_eq!(host.run(&mount("/dev/sdb1", "/mnt/busy")), Ok(()));
    assert!(!host.perform(&Operation::Close { device: s("/dev/mapper/busy") }));
    assert!(host.perform(&Operation::Unmount { target: s("/mnt/busy") }));
    assert!(host.perform(&Operation::Close { device: s("/dev/mapper/busy") }));
    assert!(!host.perform(&Operation::Close { device: s("/dev/mapper/busy") }));
}

#[test]
fn memory_host_build_needs_an_open_device() {
    let mut host = MemoryHost::new();
    assert!(!host.perform(&Operation::BuildFilesystem { device: s("/dev/mapper/x") }));
    assert!(host.perform(&Operation::Open { device: s("/dev/sdb1"), name: s("x") }));
    assert!(host.perform(&Operation::BuildFilesystem { device: s("/dev/mapper/x") }));
    assert!(!host.perform(&Operation::Mount { source: s("/dev/mapper/y"), target: s("/mnt/x") }));
}

fn words(v: &[&str]) -> Option<Vec<String>> {
    Some(v.iter().map(|w| w.to_string()).collect())
}

#[test]
fn each_operation_runs_its_program() {
    assert_eq!(
        argv(&Operation::Format { device: s("/dev/sdb1") }),
        words(&["cryptsetup", "luksFormat", "/dev/sdb1"])
    );
    assert_eq!(
        argv(&Operation::Open { device: s("/dev/sdb1"), name: s("vault1") }),
        words(&["cryptsetup", "luksOpen", "/dev/sdb1", "vault1"])
    );
    assert_eq!(
        argv(&Operation::BuildFilesystem { device: s("/dev/mapper/vault1") }),
        words(&["mkfs", "-t", "ext4", "/dev/mapper/vault1"])
    );
    assert_eq!(argv(&Operation::CreateDir { path: s("/mnt/vault1") }), None);
    assert_eq!(
        argv(&Operation::Mount { source: s("/dev/mapper/vault1"), target: s("/mnt/vault1") }),
        words(&["mount", "/dev/mapper/vault1", "/mnt/vault1"])
    );
    assert_eq!(argv(&Operation::Unmount { target: s("/mnt/vault1") }), words(&["umount", "/mnt/vault1"]));
    assert_eq!(
        argv(&Operation::Close { device: s("/dev/mapper/vault1") }),
        words(&["cryptsetup", "luksClose", "/dev/mapper/vault1"])
    );
}
