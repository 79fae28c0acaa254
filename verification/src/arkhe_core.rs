//! The kernel's identifiers, capabilities, intents and errors.

use vstd::prelude::*;
use crate::text::{push_char, string_of};

verus! {

/// A decentralised identifier, held as its text `did:<method>:<identifier>`.
pub struct Did(pub String);

impl Did {
    /// The identifier `did:<method>:<identifier>`.
    pub fn new(method: &str, identifier: &str) -> (d: Did)
        ensures
            d.0@ == seq!['d', 'i', 'd', ':'] + method@ + seq![':'] + identifier@,
    {
        let mut s = String::new();
        push_char(&mut s, 'd');
        push_char(&mut s, 'i');
        push_char(&mut s, 'd');
        push_char(&mut s, ':');
        s.append(method);
        push_char(&mut s, ':');
        s.append(identifier);
        assert(s@ =~= seq!['d', 'i', 'd', ':'] + method@ + seq![':'] + identifier@);
        Did(s)
    }
}

/// The number that names an agent.
#[derive(PartialEq, Eq, Structural, Clone, Copy, Debug, Hash)]
pub struct AgentId(pub u64);

/// What an agent may be allowed to do.
#[derive(PartialEq, Eq, Structural, Clone, Copy, Debug)]
pub enum Capability {
    TransferAssets,
    VerifyProofs,
    QueryUniverse,
    DelegateTasks,
    ReadMemory,
    WriteMemory,
}

/// A signed grant of one capability to an agent, valid until `expires_at`.
pub struct CapabilityToken {
    pub agent_id: AgentId,
    pub capability: Capability,
    pub expires_at: u64,
    pub signature: Vec<u8>,
}

/// An asset on some chain.
pub struct AssetRef {
    pub chain: String,
    pub id: String,
}

/// A unit of work handed to another agent; `id` is the 128-bit value of its
/// UUID.
pub struct Task {
    pub id: u128,
    pub description: String,
    pub payload: Vec<u8>,
}

/// What an agent asks the kernel to do.
pub enum Intent {
    TransferAsset { asset: AssetRef, amount: u64, recipient: Did, priority: u8 },
    VerifyProof { proof: Vec<u8>, public_inputs: Vec<u8>, priority: u8 },
    DelegateTask { task: Task, to: AgentId, priority: u8 },
}

/// The kernel's errors.
pub enum KernelError {
    Generic,
    InvalidCapability,
    CapabilityExpired,
    AgentNotFound(String),
    OutOfMemory,
    IpcError(String),
    InvalidSyscall(u32),
    InvalidProof,
    PqcError(String),
    AdapterNotFound,
    UnsupportedAsset(String),
    Timeout,
    InsufficientBalance,
    Serialization(String),
}

impl KernelError {
    /// The message the error displays.
    pub fn message(&self) -> (s: String)
        ensures
            match self {
                KernelError::Generic => s@ == "Generic error"@,
                KernelError::InvalidCapability => s@ == "Invalid capability"@,
                KernelError::CapabilityExpired => s@ == "Capability expired"@,
                KernelError::AgentNotFound(x) => s@ == "Agent not found: "@ + x@,
                KernelError::OutOfMemory => s@ == "Out of memory"@,
                KernelError::IpcError(x) => s@ == "IPC error: "@ + x@,
                KernelError::InvalidSyscall(n) => s@ == "Invalid syscall: "@ + crate::text::decimal(*n as nat),
                KernelError::InvalidProof => s@ == "Invalid proof"@,
                KernelError::PqcError(x) => s@ == "PQC error: "@ + x@,
                KernelError::AdapterNotFound => s@ == "Adapter not found"@,
                KernelError::UnsupportedAsset(x) => s@ == "Unsupported asset: "@ + x@,
                KernelError::Timeout => s@ == "Timeout"@,
                KernelError::InsufficientBalance => s@ == "Insufficient balance"@,
                KernelError::Serialization(x) => s@ == "Serialization error: "@ + x@,
            },
    {
        match self {
            KernelError::Generic => string_of("Generic error"),
            KernelError::InvalidCapability => string_of("Invalid capability"),
            KernelError::CapabilityExpired => string_of("Capability expired"),
            KernelError::AgentNotFound(x) => {
                let mut s = string_of("Agent not found: ");
                s.append(x.as_str());
                s
            },
            KernelError::OutOfMemory => string_of("Out of memory"),
            KernelError::IpcError(x) => {
                let mut s = string_of("IPC error: ");
                s.append(x.as_str());
                s
            },
            KernelError::InvalidSyscall(n) => {
                let mut s = string_of("Invalid syscall: ");
                crate::text::append_decimal(&mut s, *n as u64);
                s
            },
            KernelError::InvalidProof => string_of("Invalid proof"),
            KernelError::PqcError(x) => {
                let mut s = string_of("PQC error: ");
                s.append(x.as_str());
                s
            },
            KernelError::AdapterNotFound => string_of("Adapter not found"),
            KernelError::UnsupportedAsset(x) => {
                let mut s = string_of("Unsupported asset: ");
                s.append(x.as_str());
                s
            },
            KernelError::Timeout => string_of("Timeout"),
            KernelError::InsufficientBalance => string_of("Insufficient balance"),
            KernelError::Serialization(x) => {
                let mut s = string_of("Serialization error: ");
                s.append(x.as_str());
                s
            },
        }
    }
}

} // verus!
