//! The commands on virtual machines.

use vstd::prelude::*;

verus! {

/// A command on virtual machines, with its arguments.
#[derive(Debug, Clone, PartialEq, Eq, Hash, PartialOrd, Ord)]
pub enum CpiCommandType {
    CreateVM { guest_id: String, memory_mb: i32, os_type: String, resource_pool: String, datastore: String, vm_name: String, cpu_count: i32 },
    DeleteVM { vm_name: String },
    HasVM { vm_name: String },
    ConfigureNetworks { vm_name: String, network_index: i32, network_type: String },
    CreateDisk { size_mb: i32, disk_path: String },
    AttachDisk { vm_name: String, controller_name: String, port: i32, disk_path: String },
    DeleteDisk { vm_name: String, disk_path: String },
    DetachDisk { vm_name: String, controller_name: String, port: i32 },
    HasDisk { vm_name: String, disk_path: String },
    SetVMMetadata { vm_name: String, key: String, value: String },
    CreateSnapshot { vm_name: String, snapshot_name: String },
    DeleteSnapshot { vm_name: String, snapshot_name: String },
    HasSnapshot { vm_name: String, snapshot_name: String },
    GetDisks { vm_name: String },
    GetVM { vm_name: String },
    RebootVM { vm_name: String },
    StartVM { vm_name: String },
    SnapshotDisk { disk_path: String, snapshot_name: String },
    GetSnapshots { vm_name: String },
}

impl CpiCommandType {
    /// The name of the command in snake case.
    pub open spec fn name(&self) -> Seq<char> {
        match self {
            CpiCommandType::CreateVM { .. } => "create_vm"@,
            CpiCommandType::DeleteVM { .. } => "delete_vm"@,
            CpiCommandType::HasVM { .. } => "has_vm"@,
            CpiCommandType::ConfigureNetworks { .. } => "configure_networks"@,
            CpiCommandType::CreateDisk { .. } => "create_disk"@,
            CpiCommandType::AttachDisk { .. } => "attach_disk"@,
            CpiCommandType::DeleteDisk { .. } => "delete_disk"@,
            CpiCommandType::DetachDisk { .. } => "detach_disk"@,
            CpiCommandType::HasDisk { .. } => "has_disk"@,
            CpiCommandType::SetVMMetadata { .. } => "set_vm_metadata"@,
            CpiCommandType::CreateSnapshot { .. } => "create_snapshot"@,
            CpiCommandType::DeleteSnapshot { .. } => "delete_snapshot"@,
            CpiCommandType::HasSnapshot { .. } => "has_snapshot"@,
            CpiCommandType::GetDisks { .. } => "get_disks"@,
            CpiCommandType::GetVM { .. } => "get_vm"@,
            CpiCommandType::RebootVM { .. } => "reboot_vm"@,
            CpiCommandType::StartVM { .. } => "start_vm"@,
            CpiCommandType::SnapshotDisk { .. } => "snapshot_disk"@,
            CpiCommandType::GetSnapshots { .. } => "get_snapshots"@,
        }
    }

    /// The name of the command in snake case.
    pub fn to_string(&self) -> (name: String)
        ensures
            name@ == self.name(),
    {
        match self {
            CpiCommandType::CreateVM { .. } => "create_vm".to_string(),
            CpiCommandType::DeleteVM { .. } => "delete_vm".to_string(),
            CpiCommandType::HasVM { .. } => "has_vm".to_string(),
            CpiCommandType::ConfigureNetworks { .. } => "configure_networks".to_string(),
            CpiCommandType::CreateDisk { .. } => "create_disk".to_string(),
            CpiCommandType::AttachDisk { .. } => "attach_disk".to_string(),
            CpiCommandType::DeleteDisk { .. } => "delete_disk".to_string(),
            CpiCommandType::DetachDisk { .. } => "detach_disk".to_string(),
            CpiCommandType::HasDisk { .. } => "has_disk".to_string(),
            CpiCommandType::SetVMMetadata { .. } => "set_vm_metadata".to_string(),
            CpiCommandType::CreateSnapshot { .. } => "create_snapshot".to_string(),
            CpiCommandType::DeleteSnapshot { .. } => "delete_snapshot".to_string(),
            CpiCommandType::HasSnapshot { .. } => "has_snapshot".to_string(),
            CpiCommandType::GetDisks { .. } => "get_disks".to_string(),
            CpiCommandType::GetVM { .. } => "get_vm".to_string(),
            CpiCommandType::RebootVM { .. } => "reboot_vm".to_string(),
            CpiCommandType::StartVM { .. } => "start_vm".to_string(),
            CpiCommandType::SnapshotDisk { .. } => "snapshot_disk".to_string(),
            CpiCommandType::GetSnapshots { .. } => "get_snapshots".to_string(),
        }
    }
}

} // verus!
