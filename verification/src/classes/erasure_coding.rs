//! The erasure coder that a node owns.

use crate::erasure_coding::{
    encode, encodes, reconstruct, reconstruct_error, restores, shards_view, slots_view,
    valid_params, EcError,
};
use vstd::prelude::*;

verus! {

/// A Reed-Solomon code with fixed shard counts.
#[derive(Debug, Clone, Copy)]
pub struct ECService {
    /// Number of data shards, `k`.
    pub shard_count: usize,
    /// Number of parity shards, `m`.
    pub parity_count: usize,
}

impl ECService {
    /// Whether the shard counts are ones that the code accepts.
    pub open spec fn well_formed(&self) -> bool {
        valid_params(self.shard_count as nat, self.parity_count as nat)
    }

    /// Number of shards of each encoded payload, `k + m`.
    pub open spec fn total(&self) -> nat {
        (self.shard_count + self.parity_count) as nat
    }

    /// A code with `shard_count` data shards and `parity_count` parity
    /// shards.
    pub fn new(shard_count: usize, parity_count: usize) -> (res: Self)
        requires
            valid_params(shard_count as nat, parity_count as nat),
        ensures
            res.shard_count == shard_count,
            res.parity_count == parity_count,
            res.well_formed(),
    {
        ECService { shard_count, parity_count }
    }

    /// Encodes `payload` into `k + m` shards of equal length.
    pub fn encode(&self, payload: &Vec<u8>) -> (res: Vec<Vec<u8>>)
        requires
            self.well_formed(),
        ensures
            encodes(
                shards_view(res@),
                payload@,
                self.shard_count as nat,
                self.parity_count as nat,
            ),
    {
        encode(payload, self.shard_count, self.parity_count)
    }

    /// Fills the empty slots of `data` where at least `k` slots are filled.
    pub fn reconstruct(&self, data: &mut Vec<Option<Vec<u8>>>) -> (res: Result<(), EcError>)
        requires
            self.well_formed(),
        ensures
            match reconstruct_error(
                slots_view(old(data)@),
                self.shard_count as nat,
                self.parity_count as nat,
            ) {
                Some(e) => res == Err::<(), EcError>(e) && final(data)@ == old(data)@,
                None => res is Ok && restores(
                    slots_view(old(data)@),
                    slots_view(final(data)@),
                    self.shard_count as nat,
                    self.parity_count as nat,
                ),
            },
    {
        reconstruct(data, self.shard_count, self.parity_count)
    }
}

} // verus!
