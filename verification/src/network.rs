//! How a failed consensus RPC is reported to the consensus layer.

use vstd::prelude::*;

verus! {

/// The client side of the consensus RPCs.
pub struct Network {}

/// What went wrong with an RPC whose peer answers errors of type `E`.
#[derive(Clone, Copy, Debug, PartialEq, Eq, Structural)]
pub enum RpcFailure<E> {
    /// The peer refused the connection: it is not retried at once.
    Unreachable,
    /// The stream failed otherwise, or the answer could not be read.
    Network,
    /// The peer `target` answered with `error`.
    Remote { target: u64, error: E },
}

/// Where an RPC failed.
#[derive(Clone, Copy, Debug, PartialEq, Eq, Structural)]
pub enum RpcStage<E> {
    /// Writing the request or reading the answer; `refused` tells whether
    /// the connection was refused.
    Transport { refused: bool },
    /// Decoding the answer.
    Decode,
    /// The decoded answer is the peer's error `error`.
    Answer { error: E },
}

/// The failure reported for an RPC to `target` that failed at `stage`.
pub open spec fn failure_spec<E>(target: u64, stage: RpcStage<E>) -> RpcFailure<E> {
    match stage {
        RpcStage::Transport { refused } => if refused {
            RpcFailure::Unreachable
        } else {
            RpcFailure::Network
        },
        RpcStage::Decode => RpcFailure::Network,
        RpcStage::Answer { error } => RpcFailure::Remote { target, error },
    }
}

impl Network {
    /// The failure to report for an RPC to `target` that failed at `stage`
    /// (see [`failure_spec`]).
    pub fn rpc_failure<E>(&self, target: u64, stage: RpcStage<E>) -> (f: RpcFailure<E>)
        ensures
            f == failure_spec(target, stage),
    {
        match stage {
            RpcStage::Transport { refused } => if refused {
                RpcFailure::Unreachable
            } else {
                RpcFailure::Network
            },
            RpcStage::Decode => RpcFailure::Network,
            RpcStage::Answer { error } => RpcFailure::Remote { target, error },
        }
    }
}

} // verus!
