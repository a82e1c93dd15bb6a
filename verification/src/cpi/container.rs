//! The commands on containers.

use std::collections::HashMap;
use vstd::prelude::*;

verus! {

/// A command on containers, with its arguments.
#[derive(Debug, Clone, PartialEq, Eq)]
pub enum CpiCommandType {
    CreateContainer { image: String, name: String, ports: Vec<String>, env: HashMap<String, String> },
    DeleteContainer { name: String },
    StartContainer { name: String },
    StopContainer { name: String },
    RestartContainer { name: String },
    InspectContainer { name: String },
    ListContainers,
}

impl CpiCommandType {
    /// The name of the command in snake case.
    pub open spec fn name(&self) -> Seq<char> {
        match self {
            CpiCommandType::CreateContainer { .. } => "create_container"@,
            CpiCommandType::DeleteContainer { .. } => "delete_container"@,
            CpiCommandType::StartContainer { .. } => "start_container"@,
            CpiCommandType::StopContainer { .. } => "stop_container"@,
            CpiCommandType::RestartContainer { .. } => "restart_container"@,
            CpiCommandType::InspectContainer { .. } => "inspect_container"@,
            CpiCommandType::ListContainers => "list_containers"@,
        }
    }

    /// The name of the command in snake case.
    pub fn to_string(&self) -> (name: String)
        ensures
            name@ == self.name(),
    {
        match self {
            CpiCommandType::CreateContainer { .. } => "create_container".to_string(),
            CpiCommandType::DeleteContainer { .. } => "delete_container".to_string(),
            CpiCommandType::StartContainer { .. } => "start_container".to_string(),
            CpiCommandType::StopContainer { .. } => "stop_container".to_string(),
            CpiCommandType::RestartContainer { .. } => "restart_container".to_string(),
            CpiCommandType::InspectContainer { .. } => "inspect_container".to_string(),
            CpiCommandType::ListContainers => "list_containers".to_string(),
        }
    }
}

/// A container, as a listing shows it.
#[derive(Debug)]
pub struct Container {
    pub id: String,
    pub state: String,
    pub image: String,
    pub name: String,
}

/// A listing of containers.
#[derive(Debug)]
pub struct ContainerList {
    pub containers: Vec<Container>,
}

/// A command, as its configuration text.
pub struct CpiCommand {
    pub config: String,
}

/// The interface that runs one command.
#[allow(dead_code)]
pub struct CpiApi {
    cmd: CpiCommand,
}

} // verus!
