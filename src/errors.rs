use vstd::prelude::*;

verus! {

/// Identifies which metric source failed.
#[derive(Debug, Clone, Copy, PartialEq, Eq, Structural)]
pub enum SystemError {
    MemoryInfoUnavailable,
    DiskInfoUnavailable,
    NetworkTrafficUnavailable,
    TemperatureSensorsUnavailable,
    DockerConnectionFailed,
    DockerListContainersFailed,
    UptimeUnavailable,
}

/// The human-readable description of each source failure.
pub open spec fn message_of(e: SystemError) -> Seq<char> {
    match e {
        SystemError::MemoryInfoUnavailable => "Failed to retrieve memory information."@,
        SystemError::DiskInfoUnavailable => "Failed to retrieve disk information."@,
        SystemError::NetworkTrafficUnavailable => "Failed to retrieve network traffic information."@,
        SystemError::TemperatureSensorsUnavailable => "Failed to read temperature sensors."@,
        SystemError::DockerConnectionFailed => "Failed to connect to Docker."@,
        SystemError::DockerListContainersFailed => "Failed to list Docker containers."@,
        SystemError::UptimeUnavailable => "Failed to retrieve uptime information."@,
    }
}

impl SystemError {
    pub fn message(&self) -> (r: &'static str)
        ensures
            r@ == message_of(*self),
    {
        match self {
            SystemError::MemoryInfoUnavailable => "Failed to retrieve memory information.",
            SystemError::DiskInfoUnavailable => "Failed to retrieve disk information.",
            SystemError::NetworkTrafficUnavailable => "Failed to retrieve network traffic information.",
            SystemError::TemperatureSensorsUnavailable => "Failed to read temperature sensors.",
            SystemError::DockerConnectionFailed => "Failed to connect to Docker.",
            SystemError::DockerListContainersFailed => "Failed to list Docker containers.",
            SystemError::UptimeUnavailable => "Failed to retrieve uptime information.",
        }
    }
}

} // verus!
