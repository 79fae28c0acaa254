//! The faults that can be injected into replica storage, and how the fault
//! to inject is chosen.

use vstd::prelude::*;
use crate::clock::random_in_range;
use crate::text::string_of;

verus! {

/// A kind of injected fault; a latency fault carries its delay in
/// milliseconds.
#[derive(PartialEq, Eq, Structural, Clone, Copy, Debug)]
pub enum FaultType {
    Timeout,
    NetworkError,
    DataCorruption,
    Latency(u64),
    Partition,
}

/// The error faults, in the order a random pick indexes them.
pub open spec fn error_fault(index: u64) -> FaultType {
    if index == 0 {
        FaultType::Timeout
    } else if index == 1 {
        FaultType::NetworkError
    } else {
        FaultType::DataCorruption
    }
}

impl FaultType {
    /// A latency fault of a random delay from 50 to 499 milliseconds.
    pub fn random_latency() -> (f: FaultType)
        ensures
            f matches FaultType::Latency(ms) && 50 <= ms < 500,
    {
        FaultType::Latency(random_in_range(50, 500))
    }

    /// The error fault with the given index among timeout, network error and
    /// data corruption.
    pub fn error_at(index: u64) -> (f: FaultType)
        requires
            index < 3,
        ensures
            f == error_fault(index),
    {
        if index == 0 {
            FaultType::Timeout
        } else if index == 1 {
            FaultType::NetworkError
        } else {
            FaultType::DataCorruption
        }
    }

    /// A random error fault: a timeout, a network error or data corruption.
    pub fn random_error() -> (f: FaultType)
        ensures
            f == FaultType::Timeout || f == FaultType::NetworkError || f == FaultType::DataCorruption,
    {
        FaultType::error_at(random_in_range(0, 3))
    }

    /// The fault actually injected when the configured one fires: a latency
    /// fault gets the freshly drawn delay, a partition fault becomes the drawn
    /// error fault, and any other fault is injected as configured.
    pub fn effective(&self, latency_ms: u64, error_index: u64) -> (f: FaultType)
        requires
            error_index < 3,
        ensures
            f == (match *self {
                FaultType::Latency(_) => FaultType::Latency(latency_ms),
                FaultType::Partition => error_fault(error_index),
                other => other,
            }),
    {
        match *self {
            FaultType::Latency(_) => FaultType::Latency(latency_ms),
            FaultType::Partition => FaultType::error_at(error_index),
            other => other,
        }
    }

    /// Whether the injected fault fails the operation (rather than only
    /// delaying it).
    pub fn fails_operation(&self) -> (r: bool)
        ensures
            r == (*self is Timeout || *self is NetworkError || *self is DataCorruption),
    {
        match self {
            FaultType::Timeout | FaultType::NetworkError | FaultType::DataCorruption => true,
            _ => false,
        }
    }
}

/// Whatever is configured, an injected fault is never a partition: a
/// partition fault turns into an error fault when it fires.
pub proof fn lemma_effective_never_partition(f: FaultType, latency_ms: u64, error_index: u64)
    requires
        error_index < 3,
    ensures
        (match f {
            FaultType::Latency(_) => FaultType::Latency(latency_ms),
            FaultType::Partition => error_fault(error_index),
            other => other,
        }) != FaultType::Partition,
{
}

/// What an injected fault does to the operation it hits: it waits
/// `delay_ms` milliseconds, then fails with `error` or lets the operation
/// go on.
pub struct FaultOutcome {
    pub delay_ms: u64,
    pub error: Option<String>,
}

impl FaultType {
    /// The effect of this fault when injected: a timeout waits five seconds
    /// and fails, a network error or data corruption fails at once, a
    /// latency fault waits its delay, and a partition does nothing.
    pub fn outcome(&self) -> (o: FaultOutcome)
        ensures
            o.delay_ms == (match *self {
                FaultType::Timeout => 5000,
                FaultType::Latency(ms) => ms,
                _ => 0,
            }),
            match *self {
                FaultType::Timeout => o.error matches Some(e) && e@ == "Timeout simulado"@,
                FaultType::NetworkError => o.error matches Some(e) && e@ == "Erro de rede simulado"@,
                FaultType::DataCorruption => o.error matches Some(e) && e@ == "Corrupção de dados simulada"@,
                _ => o.error is None,
            },
    {
        match *self {
            FaultType::Timeout => FaultOutcome { delay_ms: 5000, error: Some(string_of("Timeout simulado")) },
            FaultType::NetworkError => FaultOutcome { delay_ms: 0, error: Some(string_of("Erro de rede simulado")) },
            FaultType::DataCorruption => FaultOutcome { delay_ms: 0, error: Some(string_of("Corrupção de dados simulada")) },
            FaultType::Latency(ms) => FaultOutcome { delay_ms: ms, error: None },
            FaultType::Partition => FaultOutcome { delay_ms: 0, error: None },
        }
    }
}

} // verus!
