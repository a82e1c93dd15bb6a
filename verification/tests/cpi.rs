use libomni::cpi::container;
use libomni::cpi::vm;
use libomni::types::db::auth::{AuthConfig, LoginRequest};

#[test]
fn vm_command_names() {
    let name = || "vm".to_string();
    let cases: Vec<(vm::CpiCommandType, &str)> = vec![
        (
            vm::CpiCommandType::CreateVM {
                guest_id: name(),
                memory_mb: 1024,
                os_type: name(),
                resource_pool: name(),
                datastore: name(),
                vm_name: name(),
                cpu_count: 2,
            },
            "create_vm",
        ),
        (vm::CpiCommandType::DeleteVM { vm_name: name() }, "delete_vm"),
        (vm::CpiCommandType::HasVM { vm_name: name() }, "has_vm"),
        (
            vm::CpiCommandType::ConfigureNetworks {
                vm_name: name(),
                network_index: 0,
                network_type: name(),
            },
            "configure_networks",
        ),
        (vm::CpiCommandType::CreateDisk { size_mb: 1, disk_path: name() }, "create_disk"),
        (
            vm::CpiCommandType::AttachDisk {
                vm_name: name(),
                controller_name: name(),
                port: 0,
                disk_path: name(),
            },
            "attach_disk",
        ),
        (vm::CpiCommandType::DeleteDisk { vm_name: name(), disk_path: name() }, "delete_disk"),
        (
            vm::CpiCommandType::DetachDisk { vm_name: name(), controller_name: name(), port: 0 },
            "detach_disk",
        ),
        (vm::CpiCommandType::HasDisk { vm_name: name(), disk_path: name() }, "has_disk"),
        (
            vm::CpiCommandType::SetVMMetadata { vm_name: name(), key: name(), value: name() },
            "set_vm_metadata",
        ),
        (
            vm::CpiCommandType::CreateSnapshot { vm_name: name(), snapshot_name: name() },
            "create_snapshot",
        ),
        (
            vm::CpiCommandType::DeleteSnapshot { vm_name: name(), snapshot_name: name() },
            "delete_snapshot",
        ),
        (
            vm::CpiCommandType::HasSnapshot { vm_name: name(), snapshot_name: name() },
            "has_snapshot",
        ),
        (vm::CpiCommandType::GetDisks { vm_name: name() }, "get_disks"),
        (vm::CpiCommandType::GetVM { vm_name: name() }, "get_vm"),
        (vm::CpiCommandType::RebootVM { vm_name: name() }, "reboot_vm"),
        (vm::CpiCommandType::StartVM { vm_name: name() }, "start_vm"),
        (
            vm::CpiCommandType::SnapshotDisk { disk_path: name(), snapshot_name: name() },
            "snapshot_disk",
        ),
        (vm::CpiCommandType::GetSnapshots { vm_name: name() }, "get_snapshots"),
    ];
    for (command, expected) in cases {
        assert_eq!(command.to_string(), expected);
        assert_eq!(command.clone(), command);
        assert_eq!(command.clone().to_string(), expected);
    }
}

#[test]
fn container_command_names() {
    let name = || "web".to_string();
    let cases: Vec<(container::CpiCommandType, &str)> = vec![
        (
            container::CpiCommandType::CreateContainer {
                image: name(),
                name: name(),
                ports: vec!["80:80".to_string()],
                env: std::collections::HashMap::from([("KEY".to_string(), "value".to_string())]),
            },
            "create_container",
        ),
        (container::CpiCommandType::DeleteContainer { name: name() }, "delete_container"),
        (container::CpiCommandType::StartContainer { name: name() }, "start_container"),
        (container::CpiCommandType::StopContainer { name: name() }, "stop_container"),
        (container::CpiCommandType::RestartContainer { name: name() }, "restart_container"),
        (container::CpiCommandType::InspectContainer { name: name() }, "inspect_container"),
        (container::CpiCommandType::ListContainers, "list_containers"),
    ];
    for (command, expected) in cases {
        assert_eq!(command.to_string(), expected);
        assert_eq!(command.clone(), command);
        assert_eq!(command.clone().to_string(), expected);
    }
}

#[test]
fn plain_records_hold_their_fields() {
    let listing = container::ContainerList {
        containers: vec![container::Container {
            id: "c1".to_string(),
            state: "running".to_string(),
            image: "nginx".to_string(),
            name: "web".to_string(),
        }],
    };
    assert_eq!(listing.containers.len(), 1);
    assert_eq!(listing.containers[0].state, "running");
    let command = container::CpiCommand { config: "{}".to_string() };
    assert_eq!(command.config, "{}");
    let login = LoginRequest { email: "a@b.c".to_string(), password: "pw".to_string() };
    assert_eq!(login.email, "a@b.c");
    assert_eq!(login.password, "pw");
    let config = AuthConfig { jwt_secret: "k".to_string(), token_expiry_hours: 24 };
    assert_eq!(config.jwt_secret, "k");
    assert_eq!(config.token_expiry_hours, 24);
}
