//! Statement proofs for the code agents.

use vstd::prelude::*;
use crate::text::string_of;

verus! {

/// Why a statement could not be proved or a proof checked.
#[derive(PartialEq, Eq, Structural, Clone, Copy, Debug)]
pub enum ZkError {
    ProveError,
    VerifyError,
}

impl ZkError {
    /// The error as it is displayed.
    pub fn message(&self) -> (s: String)
        ensures
            s@ == (match self {
                ZkError::ProveError => "Proving failed"@,
                ZkError::VerifyError => "Verification failed"@,
            }),
    {
        match self {
            ZkError::ProveError => string_of("Proving failed"),
            ZkError::VerifyError => string_of("Verification failed"),
        }
    }
}

/// Proves statements and checks proofs.
pub struct ZKGateway {}

impl ZKGateway {
    pub fn new() -> (g: ZKGateway) {
        ZKGateway {}
    }

    /// A proof of the statement: the fixed proof `0xMockZkProof`.
    pub fn prove_statement(&self, statement: &str) -> (r: Result<String, ZkError>)
        ensures
            r matches Ok(p) && p@ == "0xMockZkProof"@,
    {
        Ok(string_of("0xMockZkProof"))
    }

    /// Checks a proof: every proof is accepted.
    pub fn verify_proof(&self, proof: &str) -> (r: Result<bool, ZkError>)
        ensures
            r == Ok::<bool, ZkError>(true),
    {
        Ok(true)
    }
}

} // verus!
