//! The auto-claimer's error taxonomy.

use vstd::prelude::*;

verus! {

use crate::text::{dec_str, u64_to_string, u128_to_string};
use vstd::string::StringExecFns;

/// Why an invocation was rejected. Authorization, cap and validation
/// problems abort an invocation; per-pair and per-stage failures never raise
/// one of these, they are surfaced through events.
#[derive(Debug)]
pub enum ContractError {
    /// A host or storage error, carried through.
    Std { msg: String },
    /// A generic rejection, such as funds attached to a call that takes none.
    GenericError { msg: String },
    /// No owner was supplied where one is required.
    NoOwner,
    /// The caller is not the configured owner.
    Unauthorized,
    /// The balance delta at settlement was not positive.
    NoRewards { msg: String },
    /// A reply arrived under a handle with no recorded context.
    InvalidReplyId { id: u64 },
    /// A value could not be serialized at the host boundary.
    SerializationError(String),
    /// The batch exceeded the configured cap.
    TooManyMessages { max_allowed: usize },
    /// A protocol identifier is not in the registry.
    InvalidProtocol { protocol: String },
    /// An entry point was used against a protocol whose strategy does not
    /// support it.
    InvalidStrategy { strategy: String },
}

#[verifier::ext_equal]
pub enum ContractErrorV {
    Std { msg: Seq<char> },
    GenericError { msg: Seq<char> },
    NoOwner,
    Unauthorized,
    NoRewards { msg: Seq<char> },
    InvalidReplyId { id: u64 },
    SerializationError(Seq<char>),
    TooManyMessages { max_allowed: usize },
    InvalidProtocol { protocol: Seq<char> },
    InvalidStrategy { strategy: Seq<char> },
}

impl View for ContractError {
    type V = ContractErrorV;

    open spec fn view(&self) -> ContractErrorV {
        match self {
            ContractError::Std { msg } => ContractErrorV::Std { msg: msg@ },
            ContractError::GenericError { msg } => ContractErrorV::GenericError { msg: msg@ },
            ContractError::NoOwner => ContractErrorV::NoOwner,
            ContractError::Unauthorized => ContractErrorV::Unauthorized,
            ContractError::NoRewards { msg } => ContractErrorV::NoRewards { msg: msg@ },
            ContractError::InvalidReplyId { id } => ContractErrorV::InvalidReplyId { id: *id },
            ContractError::SerializationError(msg) => ContractErrorV::SerializationError(msg@),
            ContractError::TooManyMessages { max_allowed } => ContractErrorV::TooManyMessages {
                max_allowed: *max_allowed,
            },
            ContractError::InvalidProtocol { protocol } => ContractErrorV::InvalidProtocol {
                protocol: protocol@,
            },
            ContractError::InvalidStrategy { strategy } => ContractErrorV::InvalidStrategy {
                strategy: strategy@,
            },
        }
    }
}

/// The line under which an error is reported.
pub open spec fn error_message(e: ContractErrorV) -> Seq<char> {
    match e {
        ContractErrorV::Std { msg } => msg,
        ContractErrorV::GenericError { msg } => "Generic error: "@ + msg,
        ContractErrorV::NoOwner => "Owner should be specified"@,
        ContractErrorV::Unauthorized => "You have no permissions to execute this function"@,
        ContractErrorV::NoRewards { msg } => "No rewards available in the contract. Message: \""@
            + msg + "\""@,
        ContractErrorV::InvalidReplyId { id } => "Invalid reply ID: "@ + dec_str(id as int),
        ContractErrorV::SerializationError(msg) => "Serialization error: "@ + msg,
        ContractErrorV::TooManyMessages { max_allowed } => "Too many protocols to claim: "@
            + dec_str(max_allowed as int),
        ContractErrorV::InvalidProtocol { protocol } => "Unsupported protocol: "@ + protocol,
        ContractErrorV::InvalidStrategy { strategy } => "Unsupported strategy: "@ + strategy,
    }
}

impl ContractError {
    /// Renders the error as its report line.
    pub fn message(&self) -> (r: String)
        ensures
            r@ == error_message(self@),
    {
        match self {
            ContractError::Std { msg } => msg.clone(),
            ContractError::GenericError { msg } => {
                let mut r = String::from_str("Generic error: ");
                r.append(msg.as_str());
                r
            },
            ContractError::NoOwner => String::from_str("Owner should be specified"),
            ContractError::Unauthorized => String::from_str(
                "You have no permissions to execute this function",
            ),
            ContractError::NoRewards { msg } => {
                let mut r = String::from_str("No rewards available in the contract. Message: \"");
                r.append(msg.as_str());
                r.append("\"");
                r
            },
            ContractError::InvalidReplyId { id } => {
                let mut r = String::from_str("Invalid reply ID: ");
                let n = u64_to_string(*id);
                r.append(n.as_str());
                r
            },
            ContractError::SerializationError(msg) => {
                let mut r = String::from_str("Serialization error: ");
                r.append(msg.as_str());
                r
            },
            ContractError::TooManyMessages { max_allowed } => {
                let mut r = String::from_str("Too many protocols to claim: ");
                let n = u128_to_string(*max_allowed as u128);
                proof {
                    assert(*max_allowed as u128 as int == *max_allowed as int);
                }
                r.append(n.as_str());
                r
            },
            ContractError::InvalidProtocol { protocol } => {
                let mut r = String::from_str("Unsupported protocol: ");
                r.append(protocol.as_str());
                r
            },
            ContractError::InvalidStrategy { strategy } => {
                let mut r = String::from_str("Unsupported strategy: ");
                r.append(strategy.as_str());
                r
            },
        }
    }
}

} // verus!
