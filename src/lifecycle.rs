use crate::naming::{mapped_path, mapped_path_of, vault_name, vault_name_of};
use vstd::prelude::*;

verus! {

/// A user-facing lifecycle transition.
pub enum Command {
    Create { device: String, mountpoint: String },
    Mount { device: String, mountpoint: String },
    Umount { mountpoint: String },
}

/// The mathematical value of a [`Command`].
pub enum CommandSpec {
    Create { device: Seq<char>, mountpoint: Seq<char> },
    Mount { device: Seq<char>, mountpoint: Seq<char> },
    Umount { mountpoint: Seq<char> },
}

impl View for Command {
    type V = CommandSpec;

    open spec fn view(&self) -> CommandSpec {
        match self {
            Command::Create { device, mountpoint } => CommandSpec::Create {
                device: device@,
                mountpoint: mountpoint@,
            },
            Command::Mount { device, mountpoint } => CommandSpec::Mount {
                device: device@,
                mountpoint: mountpoint@,
            },
            Command::Umount { mountpoint } => CommandSpec::Umount { mountpoint: mountpoint@ },
        }
    }
}

/// One call into an outside service: the encryption volume manager
/// (`Format`, `Open`, `Close`), the filesystem builder (`BuildFilesystem`),
/// the directory tree (`CreateDir`) or the mount table (`Mount`, `Unmount`).
#[derive(Debug, PartialEq, Eq)]
pub enum Operation {
    Format { device: String },
    Open { device: String, name: String },
    BuildFilesystem { device: String },
    CreateDir { path: String },
    Mount { source: String, target: String },
    Unmount { target: String },
    Close { device: String },
}

/// The mathematical value of an [`Operation`].
pub enum OperationSpec {
    Format { device: Seq<char> },
    Open { device: Seq<char>, name: Seq<char> },
    BuildFilesystem { device: Seq<char> },
    CreateDir { path: Seq<char> },
    Mount { source: Seq<char>, target: Seq<char> },
    Unmount { target: Seq<char> },
    Close { device: Seq<char> },
}

impl View for Operation {
    type V = OperationSpec;

    open spec fn view(&self) -> OperationSpec {
        match self {
            Operation::Format { device } => OperationSpec::Format { device: device@ },
            Operation::Open { device, name } => OperationSpec::Open {
                device: device@,
                name: name@,
            },
            Operation::BuildFilesystem { device } => OperationSpec::BuildFilesystem {
                device: device@,
            },
            Operation::CreateDir { path } => OperationSpec::CreateDir { path: path@ },
            Operation::Mount { source, target } => OperationSpec::Mount {
                source: source@,
                target: target@,
            },
            Operation::Unmount { target } => OperationSpec::Unmount { target: target@ },
            Operation::Close { device } => OperationSpec::Close { device: device@ },
        }
    }
}

/// Why a transition stopped. Each failure names the one step that failed.
#[derive(Clone, Copy, Debug, PartialEq, Eq, Structural)]
pub enum VaultError {
    InvalidMountpoint,
    FormatFailed,
    OpenFailed,
    FilesystemCreateFailed,
    DirectoryCreateFailed,
    MountFailed,
    UnmountFailed,
    CloseFailed,
}

/// The error that a failure of `op` is reported as.
pub open spec fn error_of(op: OperationSpec) -> VaultError {
    match op {
        OperationSpec::Format { .. } => VaultError::FormatFailed,
        OperationSpec::Open { .. } => VaultError::OpenFailed,
        OperationSpec::BuildFilesystem { .. } => VaultError::FilesystemCreateFailed,
        OperationSpec::CreateDir { .. } => VaultError::DirectoryCreateFailed,
        OperationSpec::Mount { .. } => VaultError::MountFailed,
        OperationSpec::Unmount { .. } => VaultError::UnmountFailed,
        OperationSpec::Close { .. } => VaultError::CloseFailed,
    }
}

/// The operations of a transition, in the order in which they must run; the
/// vault is named after the mountpoint's final component, and a mountpoint
/// without one is refused before any operation.
pub open spec fn plan_of(cmd: CommandSpec) -> Result<Seq<OperationSpec>, VaultError> {
    match cmd {
        CommandSpec::Create { device, mountpoint } => match vault_name_of(mountpoint) {
            Some(name) => Ok(
                seq![
                    OperationSpec::Format { device },
                    OperationSpec::Open { device, name },
                    OperationSpec::BuildFilesystem { device: mapped_path_of(name) },
                    OperationSpec::CreateDir { path: mountpoint },
                    OperationSpec::Mount { source: mapped_path_of(name), target: mountpoint },
                ],
            ),
            None => Err(VaultError::InvalidMountpoint),
        },
        CommandSpec::Mount { device, mountpoint } => match vault_name_of(mountpoint) {
            Some(name) => Ok(
                seq![
                    OperationSpec::Open { device, name },
                    OperationSpec::CreateDir { path: mountpoint },
                    OperationSpec::Mount { source: mapped_path_of(name), target: mountpoint },
                ],
            ),
            None => Err(VaultError::InvalidMountpoint),
        },
        CommandSpec::Umount { mountpoint } => match vault_name_of(mountpoint) {
            Some(name) => Ok(
                seq![
                    OperationSpec::Unmount { target: mountpoint },
                    OperationSpec::Close { device: mapped_path_of(name) },
                ],
            ),
            None => Err(VaultError::InvalidMountpoint),
        },
    }
}

/// The error that a failure of `op` is reported as.
pub fn error_for(op: &Operation) -> (e: VaultError)
    ensures
        e == error_of(op@),
{
    match op {
        Operation::Format { .. } => VaultError::FormatFailed,
        Operation::Open { .. } => VaultError::OpenFailed,
        Operation::BuildFilesystem { .. } => VaultError::FilesystemCreateFailed,
        Operation::CreateDir { .. } => VaultError::DirectoryCreateFailed,
        Operation::Mount { .. } => VaultError::MountFailed,
        Operation::Unmount { .. } => VaultError::UnmountFailed,
        Operation::Close { .. } => VaultError::CloseFailed,
    }
}

impl Operation {
    /// A copy of this operation.
    pub fn duplicate(&self) -> (r: Operation)
        ensures
            r@ == self@,
    {
        match self {
            Operation::Format { device } => Operation::Format { device: device.clone() },
            Operation::Open { device, name } => Operation::Open {
                device: device.clone(),
                name: name.clone(),
            },
            Operation::BuildFilesystem { device } => Operation::BuildFilesystem {
                device: device.clone(),
            },
            Operation::CreateDir { path } => Operation::CreateDir { path: path.clone() },
            Operation::Mount { source, target } => Operation::Mount {
                source: source.clone(),
                target: target.clone(),
            },
            Operation::Unmount { target } => Operation::Unmount { target: target.clone() },
            Operation::Close { device } => Operation::Close { device: device.clone() },
        }
    }
}

/// The views of `ops`, in order.
pub open spec fn ops_view(ops: Seq<Operation>) -> Seq<OperationSpec> {
    ops.map_values(|o: Operation| o@)
}

/// The operations of `cmd`, in order, or `InvalidMountpoint` where the
/// mountpoint has no final component.
pub fn plan(cmd: &Command) -> (r: Result<Vec<Operation>, VaultError>)
    ensures
        match r {
            Ok(ops) => plan_of(cmd@) == Ok::<Seq<OperationSpec>, VaultError>(ops_view(ops@)),
            Err(e) => plan_of(cmd@) == Err::<Seq<OperationSpec>, VaultError>(e),
        },
{
    match cmd {
        Command::Create { device, mountpoint } => {
            let name = match vault_name(mountpoint.as_str()) {
                Some(n) => n,
                None => return Err(VaultError::InvalidMountpoint),
            };
            let mapped = mapped_path(name.as_str());
            let ops = vec![
                Operation::Format { device: device.clone() },
                Operation::Open { device: device.clone(), name },
                Operation::BuildFilesystem { device: mapped.clone() },
                Operation::CreateDir { path: mountpoint.clone() },
                Operation::Mount { source: mapped, target: mountpoint.clone() },
            ];
            proof {
                assert(ops_view(ops@) =~= plan_of(cmd@)->Ok_0);
            }
            Ok(ops)
        },
        Command::Mount { device, mountpoint } => {
            let name = match vault_name(mountpoint.as_str()) {
                Some(n) => n,
                None => return Err(VaultError::InvalidMountpoint),
            };
            let mapped = mapped_path(name.as_str());
            let ops = vec![
                Operation::Open { device: device.clone(), name },
                Operation::CreateDir { path: mountpoint.clone() },
                Operation::Mount { source: mapped, target: mountpoint.clone() },
            ];
            proof {
                assert(ops_view(ops@) =~= plan_of(cmd@)->Ok_0);
            }
            Ok(ops)
        },
        Command::Umount { mountpoint } => {
            let name = match vault_name(mountpoint.as_str()) {
                Some(n) => n,
                None => return Err(VaultError::InvalidMountpoint),
            };
            let mapped = mapped_path(name.as_str());
            let ops = vec![
                Operation::Unmount { target: mountpoint.clone() },
                Operation::Close { device: mapped },
            ];
            proof {
                assert(ops_view(ops@) =~= plan_of(cmd@)->Ok_0);
            }
            Ok(ops)
        },
    }
}

} // verus!
