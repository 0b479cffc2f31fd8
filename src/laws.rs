use crate::host::{consistent, run_command, HostState};
use crate::lifecycle::{plan_of, CommandSpec, OperationSpec, VaultError};
use crate::naming::{mapped_path_of, vault_name_of};
use vstd::prelude::*;

verus! {

/// The vault name is a function of the mountpoint alone, and the three
/// transitions agree on it: create and mount open the volume under it, and
/// umount closes the mapped device of that same name, the one that create
/// and mount mounted.
pub proof fn lemma_naming_consistent(device: Seq<char>, mountpoint: Seq<char>)
    requires
        vault_name_of(mountpoint) is Some,
    ensures
        ({
            let name = vault_name_of(mountpoint)->Some_0;
            let create = plan_of(CommandSpec::Create { device, mountpoint })->Ok_0;
            let mount = plan_of(CommandSpec::Mount { device, mountpoint })->Ok_0;
            let umount = plan_of(CommandSpec::Umount { mountpoint })->Ok_0;
            &&& create[1] == OperationSpec::Open { device, name }
            &&& mount[0] == OperationSpec::Open { device, name }
            &&& create[4] == OperationSpec::Mount { source: mapped_path_of(name), target: mountpoint }
            &&& mount[2] == OperationSpec::Mount { source: mapped_path_of(name), target: mountpoint }
            &&& umount[1] == OperationSpec::Close { device: mapped_path_of(name) }
        }),
{
}

/// On a host where the vault's mapped device is not open, the mountpoint is
/// not mounted and every mount rests on an opened device, create succeeds,
/// and a umount of the same mountpoint then succeeds and leaves the volume
/// closed, the mountpoint unmounted and the host as it was.
pub proof fn lemma_create_then_umount_round_trip(
    device: Seq<char>,
    mountpoint: Seq<char>,
    h: HostState,
)
    requires
        vault_name_of(mountpoint) is Some,
        consistent(h),
        !h.opened.contains_key(mapped_path_of(vault_name_of(mountpoint)->Some_0)),
        !h.mounted.contains_key(mountpoint),
    ensures
        ({
            let mapped = mapped_path_of(vault_name_of(mountpoint)->Some_0);
            let (created, h1) = run_command(CommandSpec::Create { device, mountpoint }, h);
            let (unmounted, h2) = run_command(CommandSpec::Umount { mountpoint }, h1);
            &&& created == Ok::<(), VaultError>(())
            &&& h1.opened.contains_key(mapped)
            &&& h1.mounted.contains_key(mountpoint)
            &&& unmounted == Ok::<(), VaultError>(())
            &&& !h2.opened.contains_key(mapped)
            &&& !h2.mounted.contains_key(mountpoint)
            &&& h2 == h
        }),
{
    let mapped = mapped_path_of(vault_name_of(mountpoint)->Some_0);
    let h1 = run_command(CommandSpec::Create { device, mountpoint }, h).1;
    let ops = plan_of(CommandSpec::Create { device, mountpoint })->Ok_0;
    reveal_with_fuel(crate::host::run_ops, 6);
    assert(h1.mounted.remove(mountpoint) =~= h.mounted);
    assert forall|t: Seq<char>|
        h.mounted.contains_key(t) implies #[trigger] h.mounted[t] != mapped by {
        assert(h.opened.contains_key(h.mounted[t]));
    }
    assert(h1.opened.insert(mapped, device).remove(mapped) =~= h.opened);
    assert(h1.opened.remove(mapped) =~= h.opened);
}

/// Mount fails with `OpenFailed`, and changes nothing, where an encrypted
/// volume is already open under the vault's name for a different device.
pub proof fn lemma_mount_refused_when_name_taken(
    device: Seq<char>,
    mountpoint: Seq<char>,
    h: HostState,
)
    requires
        vault_name_of(mountpoint) is Some,
        h.opened.contains_key(mapped_path_of(vault_name_of(mountpoint)->Some_0)),
        h.opened[mapped_path_of(vault_name_of(mountpoint)->Some_0)] != device,
    ensures
        run_command(CommandSpec::Mount { device, mountpoint }, h) == (
            Err::<(), VaultError>(VaultError::OpenFailed),
            h,
        ),
{
}

/// Umount of a mountpoint that is not mounted fails with `UnmountFailed`
/// and does not go on to close the volume: the host is left as it was.
pub proof fn lemma_umount_stops_when_not_mounted(mountpoint: Seq<char>, h: HostState)
    requires
        vault_name_of(mountpoint) is Some,
        !h.mounted.contains_key(mountpoint),
    ensures
        run_command(CommandSpec::Umount { mountpoint }, h) == (
            Err::<(), VaultError>(VaultError::UnmountFailed),
            h,
        ),
{
}

/// Where the mountpoint has no final component, each transition fails with
/// `InvalidMountpoint` before any operation runs.
pub proof fn lemma_invalid_mountpoint_runs_nothing(
    device: Seq<char>,
    mountpoint: Seq<char>,
    h: HostState,
)
    requires
        vault_name_of(mountpoint) is None,
    ensures
        plan_of(CommandSpec::Create { device, mountpoint }) == Err::<Seq<OperationSpec>, VaultError>(
            VaultError::InvalidMountpoint,
        ),
        plan_of(CommandSpec::Mount { device, mountpoint }) == Err::<Seq<OperationSpec>, VaultError>(
            VaultError::InvalidMountpoint,
        ),
        plan_of(CommandSpec::Umount { mountpoint }) == Err::<Seq<OperationSpec>, VaultError>(
            VaultError::InvalidMountpoint,
        ),
        run_command(CommandSpec::Create { device, mountpoint }, h) == (
            Err::<(), VaultError>(VaultError::InvalidMountpoint),
            h,
        ),
        run_command(CommandSpec::Mount { device, mountpoint }, h) == (
            Err::<(), VaultError>(VaultError::InvalidMountpoint),
            h,
        ),
        run_command(CommandSpec::Umount { mountpoint }, h) == (
            Err::<(), VaultError>(VaultError::InvalidMountpoint),
            h,
        ),
{
}

} // verus!
