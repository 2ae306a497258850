//! What to submit, and where: the call of the contract's `transfer` and
//! the choice of endpoint and key that goes with a network.

use crate::calldata::ProofCalldata;
use crate::field::Field;
use vstd::prelude::*;
use vstd::string::StringExecFns;

verus! {

/// The network a transaction goes to.
#[derive(Clone, Copy, Debug, PartialEq, Eq, Structural)]
pub enum Network {
    Test,
    Production,
}

/// Where the signing key comes from.
#[derive(Clone, Copy, Debug, PartialEq, Eq, Structural)]
pub enum KeySource {
    /// A key made for this run and thrown away.
    Ephemeral,
    /// The configured key.
    Persistent,
}

/// Why a submission failed.
#[derive(Clone, Copy, Debug, PartialEq, Eq, Structural)]
pub enum ChainSubmissionError {
    /// The endpoint could not be reached or did not answer.
    Rpc,
    /// The key material is malformed, or signing failed.
    Signing,
    /// The contract reverted.
    Reverted,
}

/// A transaction that was broadcast.
#[derive(Debug, PartialEq, Eq)]
pub struct SubmissionResult {
    pub tx_hash: String,
}

/// Endpoint and key for one submission.
#[derive(Debug, PartialEq, Eq)]
pub struct SubmissionPlan {
    pub endpoint: String,
    pub key_source: KeySource,
}

/// The endpoint of a network: a local node for tests, the provider's
/// address with the API key behind it for production.
pub open spec fn rpc_endpoint(network: Network, api_key: Seq<char>) -> Seq<char> {
    match network {
        Network::Test => "localhost:8548"@,
        Network::Production => "https://eth-goerli.alchemyapi.io/v2/"@ + api_key,
    }
}

pub open spec fn key_source(network: Network) -> KeySource {
    match network {
        Network::Test => KeySource::Ephemeral,
        Network::Production => KeySource::Persistent,
    }
}

/// The network that a run is on.
pub fn network_of(test: bool) -> (r: Network)
    ensures
        r == if test {
            Network::Test
        } else {
            Network::Production
        },
{
    if test {
        Network::Test
    } else {
        Network::Production
    }
}

/// Chooses endpoint and key for a network. Nothing else depends on the
/// network.
pub fn plan_submission(network: Network, api_key: &str) -> (r: SubmissionPlan)
    ensures
        r.endpoint@ == rpc_endpoint(network, api_key@),
        r.key_source == key_source(network),
{
    match network {
        Network::Test => SubmissionPlan {
            endpoint: String::from_str("localhost:8548"),
            key_source: KeySource::Ephemeral,
        },
        Network::Production => {
            let mut endpoint = String::from_str("https://eth-goerli.alchemyapi.io/v2/");
            endpoint.append(api_key);
            SubmissionPlan { endpoint, key_source: KeySource::Persistent }
        },
    }
}

/// One positional argument of the call.
#[derive(Debug, PartialEq, Eq)]
pub enum Argument {
    /// `uint256[2]`
    Pair([Field; 2]),
    /// `uint256[2][2]`
    Matrix([[Field; 2]; 2]),
    /// `uint256[]`
    List(Vec<Field>),
}

/// A call of the contract's entry point.
#[derive(Debug, PartialEq, Eq)]
pub struct TransferCall {
    pub method: String,
    pub arguments: Vec<Argument>,
}

/// The arguments of `transfer` for this calldata, in the order of the
/// contract's signature.
pub open spec fn transfer_arguments(calldata: ProofCalldata) -> Seq<Argument> {
    seq![
        Argument::Pair(calldata.pi_a),
        Argument::Matrix(calldata.pi_b),
        Argument::Pair(calldata.pi_c),
        Argument::List(calldata.signals),
    ]
}

/// The call that submits this calldata:
/// `transfer(uint256[2], uint256[2][2], uint256[2], uint256[])`.
pub fn transfer_call(calldata: ProofCalldata) -> (r: TransferCall)
    ensures
        r.method@ == "transfer"@,
        r.arguments@ == transfer_arguments(calldata),
{
    let mut arguments: Vec<Argument> = Vec::new();
    arguments.push(Argument::Pair(calldata.pi_a));
    arguments.push(Argument::Matrix(calldata.pi_b));
    arguments.push(Argument::Pair(calldata.pi_c));
    arguments.push(Argument::List(calldata.signals));
    assert(arguments@ =~= transfer_arguments(calldata));
    TransferCall { method: String::from_str("transfer"), arguments }
}

} // verus!
