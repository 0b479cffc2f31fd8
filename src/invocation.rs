use crate::lifecycle::{Operation, OperationSpec};
use vstd::prelude::*;
use vstd::string::StringExecFns;

verus! {

/// The views of `v`, in order.
pub open spec fn strings_view(v: Seq<String>) -> Seq<Seq<char>> {
    v.map_values(|s: String| s@)
}

/// The program and arguments that carry out `op`, program first; `None` for
/// the creation of the mountpoint directory, which runs no program.
pub open spec fn argv_of(op: OperationSpec) -> Option<Seq<Seq<char>>> {
    match op {
        OperationSpec::Format { device } => Some(seq!["cryptsetup"@, "luksFormat"@, device]),
        OperationSpec::Open { device, name } => Some(
            seq!["cryptsetup"@, "luksOpen"@, device, name],
        ),
        OperationSpec::BuildFilesystem { device } => Some(seq!["mkfs"@, "-t"@, "ext4"@, device]),
        OperationSpec::CreateDir { .. } => None,
        OperationSpec::Mount { source, target } => Some(seq!["mount"@, source, target]),
        OperationSpec::Unmount { target } => Some(seq!["umount"@, target]),
        OperationSpec::Close { device } => Some(seq!["cryptsetup"@, "luksClose"@, device]),
    }
}

/// The program and arguments that carry out `op`, program first; `None` for
/// [`Operation::CreateDir`], which the caller does in-process.
pub fn argv(op: &Operation) -> (r: Option<Vec<String>>)
    ensures
        match r {
            Some(v) => argv_of(op@) == Some(strings_view(v@)),
            None => argv_of(op@) is None,
        },
{
    let r = match op {
        Operation::Format { device } => vec![
            String::from_str("cryptsetup"),
            String::from_str("luksFormat"),
            device.clone(),
        ],
        Operation::Open { device, name } => vec![
            String::from_str("cryptsetup"),
            String::from_str("luksOpen"),
            device.clone(),
            name.clone(),
        ],
        Operation::BuildFilesystem { device } => vec![
            String::from_str("mkfs"),
            String::from_str("-t"),
            String::from_str("ext4"),
            device.clone(),
        ],
        Operation::CreateDir { .. } => return None,
        Operation::Mount { source, target } => vec![
            String::from_str("mount"),
            source.clone(),
            target.clone(),
        ],
        Operation::Unmount { target } => vec![String::from_str("umount"), target.clone()],
        Operation::Close { device } => vec![
            String::from_str("cryptsetup"),
            String::from_str("luksClose"),
            device.clone(),
        ],
    };
    proof {
        assert(strings_view(r@) =~= argv_of(op@)->Some_0);
    }
    Some(r)
}

} // verus!
