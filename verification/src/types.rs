//! The data that crosses the crate's boundary: requests, responses, the
//! registry's functions, and the errors every component reports.

use vstd::prelude::*;
use vstd::string::*;

verus! {

/// Lifecycle state of one microVM.
#[derive(Clone, Copy, Debug, PartialEq, Eq, Structural)]
pub enum VmState {
    Starting,
    Ready,
    Busy,
    Stopping,
    Failed,
}

impl VmState {
    /// The edges of the lifecycle graph. No edge leads back to `Starting`,
    /// and none leaves `Stopping`.
    pub open spec fn may_become(self, next: VmState) -> bool {
        match (self, next) {
            (VmState::Starting, VmState::Ready) => true,
            (VmState::Starting, VmState::Failed) => true,
            (VmState::Ready, VmState::Busy) => true,
            (VmState::Busy, VmState::Ready) => true,
            (VmState::Busy, VmState::Failed) => true,
            (VmState::Ready, VmState::Stopping) => true,
            (VmState::Failed, VmState::Stopping) => true,
            _ => false,
        }
    }

    /// Whether the lifecycle graph has an edge from `self` to `next`.
    pub fn can_become(self, next: VmState) -> (ok: bool)
        ensures
            ok == self.may_become(next),
    {
        match (self, next) {
            (VmState::Starting, VmState::Ready) => true,
            (VmState::Starting, VmState::Failed) => true,
            (VmState::Ready, VmState::Busy) => true,
            (VmState::Busy, VmState::Ready) => true,
            (VmState::Busy, VmState::Failed) => true,
            (VmState::Ready, VmState::Stopping) => true,
            (VmState::Failed, VmState::Stopping) => true,
            _ => false,
        }
    }

    /// An instance in this state occupies a slot of its pool.
    pub open spec fn is_active(self) -> bool {
        self == VmState::Starting || self == VmState::Ready || self == VmState::Busy
    }
}

/// Component flags of the health report.
#[derive(Clone, Copy, Debug, PartialEq, Eq, Structural)]
pub struct HealthComponents {
    pub firecracker: bool,
    pub dns: bool,
    pub ssl: bool,
    pub cdn: bool,
    pub monitoring: bool,
}

/// The health report of the service.
#[derive(Debug)]
pub struct HealthResponse {
    pub platform: String,
    pub status: String,
    pub version: String,
    pub timestamp: String,
    pub components: HealthComponents,
}

/// A request to register (or replace) a function.
#[derive(Debug)]
pub struct CreateFunctionRequest {
    pub name: String,
    pub code: String,
    pub runtime: String,
}

/// The answer to a successful registration.
#[derive(Debug)]
pub struct CreateFunctionResponse {
    pub name: String,
    pub created: bool,
}

/// The registry's contents, as listed.
#[derive(Debug)]
pub struct FunctionListResponse {
    pub functions: Vec<Function>,
}

/// The result of one invocation: the JSON document the sandbox returned.
#[derive(Debug)]
pub struct InvokeResponse {
    pub result: String,
}

/// The inventory of instances, as listed.
#[derive(Debug)]
pub struct VmListResponse {
    pub vms: Option<Vec<VmInfo>>,
}

/// A registered function.
#[derive(Debug)]
pub struct Function {
    pub name: String,
    pub code: String,
    pub runtime: String,
    pub created_at: String,
}

/// What a `Function` holds, as mathematical text.
pub struct FunctionView {
    pub name: Seq<char>,
    pub code: Seq<char>,
    pub runtime: Seq<char>,
    pub created_at: Seq<char>,
}

impl View for Function {
    type V = FunctionView;

    open spec fn view(&self) -> FunctionView {
        FunctionView {
            name: self.name@,
            code: self.code@,
            runtime: self.runtime@,
            created_at: self.created_at@,
        }
    }
}

impl Clone for Function {
    fn clone(&self) -> (copy: Self)
        ensures
            copy == *self,
    {
        Function {
            name: self.name.clone(),
            code: self.code.clone(),
            runtime: self.runtime.clone(),
            created_at: self.created_at.clone(),
        }
    }
}

/// One line of the instance inventory.
#[derive(Debug)]
pub struct VmInfo {
    pub id: String,
    pub state: VmState,
    pub ip_address: Option<String>,
    pub port: Option<u16>,
    pub created_at: String,
    pub last_used: String,
}

/// Boot parameters shared by every instance of one manager.
#[derive(Debug)]
pub struct VmConfig {
    pub vcpu_count: u8,
    pub mem_size_mib: u32,
    pub kernel_path: String,
    pub rootfs_path: String,
    pub v8_host_path: String,
}

impl Default for VmConfig {
    fn default() -> (config: Self)
        ensures
            config.vcpu_count == 1,
            config.mem_size_mib == 128,
            config.kernel_path@ == "/opt/firecracker/vmlinux.bin"@,
            config.rootfs_path@ == "/opt/firecracker/rootfs.ext4"@,
            config.v8_host_path@ == "/opt/firecracker/v8-host"@,
    {
        VmConfig {
            vcpu_count: 1,
            mem_size_mib: 128,
            kernel_path: String::from_str("/opt/firecracker/vmlinux.bin"),
            rootfs_path: String::from_str("/opt/firecracker/rootfs.ext4"),
            v8_host_path: String::from_str("/opt/firecracker/v8-host"),
        }
    }
}

impl Clone for VmConfig {
    fn clone(&self) -> (copy: Self)
        ensures
            copy == *self,
    {
        VmConfig {
            vcpu_count: self.vcpu_count,
            mem_size_mib: self.mem_size_mib,
            kernel_path: self.kernel_path.clone(),
            rootfs_path: self.rootfs_path.clone(),
            v8_host_path: self.v8_host_path.clone(),
        }
    }
}

/// Everything that can go wrong between a request and its answer.
#[derive(Debug)]
pub enum HyperdriveError {
    /// The hypervisor could not bring an instance up.
    VmCreationFailed(String),
    /// An instance was asked for something its state does not allow.
    VmNotReady(String),
    /// The sandbox ran the call and reported a failure.
    FunctionExecutionFailed(String),
    /// No instance became available in time.
    PoolExhausted,
    /// The host's file system or process layer failed.
    Io(String),
    /// The sandbox could not be reached, or did not answer in time.
    Network(String),
    /// An instance was to be called before its agent's host was known.
    NoIpAddress,
    /// An instance was to be called before its agent's port was known.
    NoPort,
}

impl HyperdriveError {
    /// The error is `VmNotReady` with exactly this detail.
    pub open spec fn is_not_ready(self, detail: Seq<char>) -> bool {
        self matches HyperdriveError::VmNotReady(d) && d@ == detail
    }

    /// The error is `VmCreationFailed` with exactly this detail.
    pub open spec fn is_creation_failed(self, detail: Seq<char>) -> bool {
        self matches HyperdriveError::VmCreationFailed(d) && d@ == detail
    }

    /// The error is `FunctionExecutionFailed` with exactly this detail.
    pub open spec fn is_execution_failed(self, detail: Seq<char>) -> bool {
        self matches HyperdriveError::FunctionExecutionFailed(d) && d@ == detail
    }

    /// The error is `Network` with exactly this detail.
    pub open spec fn is_network(self, detail: Seq<char>) -> bool {
        self matches HyperdriveError::Network(d) && d@ == detail
    }

    /// The human-readable text of the error.
    pub open spec fn message_text(self) -> Seq<char> {
        match self {
            HyperdriveError::VmCreationFailed(detail) => "VM creation failed: "@ + detail@,
            HyperdriveError::VmNotReady(detail) => "VM not ready: "@ + detail@,
            HyperdriveError::FunctionExecutionFailed(detail) => "Function execution failed: "@
                + detail@,
            HyperdriveError::PoolExhausted => "Pool exhausted"@,
            HyperdriveError::Io(detail) => "IO error: "@ + detail@,
            HyperdriveError::Network(detail) => "Network error: "@ + detail@,
            HyperdriveError::NoIpAddress => "VM has no IP address"@,
            HyperdriveError::NoPort => "VM has no port"@,
        }
    }

    /// The human-readable text of the error.
    pub fn message(&self) -> (text: String)
        ensures
            text@ == self.message_text(),
    {
        match self {
            HyperdriveError::VmCreationFailed(detail) => String::from_str(
                "VM creation failed: ",
            ).concat(detail.as_str()),
            HyperdriveError::VmNotReady(detail) => String::from_str("VM not ready: ").concat(
                detail.as_str(),
            ),
            HyperdriveError::FunctionExecutionFailed(detail) => String::from_str(
                "Function execution failed: ",
            ).concat(detail.as_str()),
            HyperdriveError::PoolExhausted => String::from_str("Pool exhausted"),
            HyperdriveError::Io(detail) => String::from_str("IO error: ").concat(detail.as_str()),
            HyperdriveError::Network(detail) => String::from_str("Network error: ").concat(
                detail.as_str(),
            ),
            HyperdriveError::NoIpAddress => String::from_str("VM has no IP address"),
            HyperdriveError::NoPort => String::from_str("VM has no port"),
        }
    }
}

} // verus!
