//! Reed-Solomon erasure coding of payloads over GF(2^8).
//!
//! A payload is cut into `k` data shards of equal length, padded with zero
//! bytes, and `m` parity shards are computed from them. Any `k` of the
//! `k + m` shards give the others back.

use vstd::prelude::*;

verus! {

/// Why a set of shards cannot be reconstructed.
#[derive(Debug, Clone, Copy, PartialEq, Eq, Structural)]
pub enum EcError {
    /// Fewer slots than the code has shards.
    TooFewShards,
    /// More slots than the code has shards.
    TooManyShards,
    /// A shard that is present has no bytes.
    EmptyShard,
    /// Two shards that are present differ in length.
    IncorrectShardSize,
    /// Fewer shards are present than the code has data shards.
    InsufficientShards,
}

/// The error type of the codec crate, `reed_solomon_erasure::Error`. Its
/// values are passed through and never read.
#[verifier::external_type_specification]
#[verifier::external_body]
pub struct ExCodecError(reed_solomon_erasure::Error);

/// The shard counts that a code over GF(2^8) accepts.
pub open spec fn valid_params(k: nat, m: nat) -> bool {
    1 <= k && 1 <= m && k + m <= 256
}

/// Length of each shard of a payload of `len` bytes cut into `k` shards:
/// `len / k`, rounded up.
pub open spec fn shard_len(len: nat, k: nat) -> nat {
    if k == 0 {
        0
    } else {
        ((len + k - 1) / (k as int)) as nat
    }
}

/// The payload followed by zero bytes up to `k` times the shard length.
pub open spec fn padded(payload: Seq<u8>, k: nat) -> Seq<u8> {
    Seq::new(
        k * shard_len(payload.len(), k),
        |i: int|
            if i < payload.len() {
                payload[i]
            } else {
                0u8
            },
    )
}

/// The `k` data shards of a payload: consecutive pieces of the padded
/// payload.
pub open spec fn data_shards(payload: Seq<u8>, k: nat) -> Seq<Seq<u8>> {
    pieces(padded(payload, k), shard_len(payload.len(), k), k)
}

/// The first `count` consecutive pieces of `size` bytes of `full`.
pub open spec fn pieces(full: Seq<u8>, size: nat, count: nat) -> Seq<Seq<u8>> {
    Seq::new(count, |i: int| Seq::new(size, |j: int| full[i * size + j]))
}

/// The `m` parity shards that `ReedSolomon::encode` of the codec crate
/// writes for the `k` data shards `data`. The bytes are not defined here:
/// they are whatever the codec computes, and [`restores`] says what
/// reconstruction is owed from them.
pub uninterp spec fn rs_parity(k: nat, m: nat, data: Seq<Seq<u8>>) -> Seq<Seq<u8>>;

/// The slots as `ReedSolomon::reconstruct` of the codec crate leaves them,
/// given `k + m` slots of which at least `k` are filled. The bytes are not
/// defined here; [`restores`] says what is known of them.
pub uninterp spec fn rs_restored(k: nat, m: nat, slots: Seq<Option<Seq<u8>>>) -> Seq<
    Option<Seq<u8>>,
>;

/// The data shards followed by their parity shards.
pub open spec fn codeword(k: nat, m: nat, data: Seq<Seq<u8>>) -> Seq<Seq<u8>> {
    data + rs_parity(k, m, data)
}

/// The `k + m` shards of a payload. An empty payload has empty shards.
pub open spec fn encoded(payload: Seq<u8>, k: nat, m: nat) -> Seq<Seq<u8>> {
    if payload.len() == 0 {
        Seq::new(k + m, |i: int| Seq::<u8>::empty())
    } else {
        codeword(k, m, data_shards(payload, k))
    }
}

/// The byte sequences that a vector of shards holds.
pub open spec fn shards_view(shards: Seq<Vec<u8>>) -> Seq<Seq<u8>> {
    Seq::new(shards.len(), |i: int| shards[i]@)
}

/// The byte sequences that a vector of slots holds.
pub open spec fn slots_view(slots: Seq<Option<Vec<u8>>>) -> Seq<Option<Seq<u8>>> {
    Seq::new(
        slots.len(),
        |i: int|
            match slots[i] {
                Some(shard) => Some(shard@),
                None => None,
            },
    )
}

/// Number of filled slots.
pub open spec fn count_present(slots: Seq<Option<Seq<u8>>>) -> nat
    decreases slots.len(),
{
    if slots.len() == 0 {
        0
    } else {
        count_present(slots.drop_last()) + if slots.last() is Some {
            1nat
        } else {
            0nat
        }
    }
}

/// Length of the last filled slot, if any slot is filled.
pub open spec fn last_len(slots: Seq<Option<Seq<u8>>>) -> Option<nat>
    decreases slots.len(),
{
    if slots.len() == 0 {
        None
    } else {
        match slots.last() {
            Some(shard) => Some(shard.len()),
            None => last_len(slots.drop_last()),
        }
    }
}

/// The first fault met when the slots are read in order: a filled slot
/// without bytes, or one whose length differs from the filled slot before it.
pub open spec fn shape_error(slots: Seq<Option<Seq<u8>>>) -> Option<EcError>
    decreases slots.len(),
{
    if slots.len() == 0 {
        None
    } else {
        match shape_error(slots.drop_last()) {
            Some(e) => Some(e),
            None => match slots.last() {
                None => None,
                Some(shard) => if shard.len() == 0 {
                    Some(EcError::EmptyShard)
                } else if last_len(slots.drop_last()) is Some && last_len(slots.drop_last())
                    != Some(shard.len()) {
                    Some(EcError::IncorrectShardSize)
                } else {
                    None
                },
            },
        }
    }
}

/// Why `slots` cannot be reconstructed by a `(k, m)` code, or `None` where
/// they can.
pub open spec fn reconstruct_error(slots: Seq<Option<Seq<u8>>>, k: nat, m: nat) -> Option<
    EcError,
> {
    if slots.len() < k + m {
        Some(EcError::TooFewShards)
    } else if slots.len() > k + m {
        Some(EcError::TooManyShards)
    } else if shape_error(slots) is Some {
        shape_error(slots)
    } else if count_present(slots) == k + m {
        None
    } else if count_present(slots) < k {
        Some(EcError::InsufficientShards)
    } else {
        None
    }
}

/// Whether every filled slot holds the shard of `full` at its position.
pub open spec fn agrees(slots: Seq<Option<Seq<u8>>>, full: Seq<Seq<u8>>) -> bool {
    &&& slots.len() == full.len()
    &&& forall|i: int| 0 <= i < slots.len() && slots[i] is Some ==> slots[i] == Some(#[trigger] full[i])
}

/// All shards of `full`, each in its slot.
pub open spec fn all_present(full: Seq<Seq<u8>>) -> Seq<Option<Seq<u8>>> {
    Seq::new(full.len(), |i: int| Some(full[i]))
}

/// Whether `shards` are `count` byte sequences of `len` bytes each.
pub open spec fn uniform(shards: Seq<Seq<u8>>, count: nat, len: nat) -> bool {
    &&& shards.len() == count
    &&& forall|i: int| 0 <= i < shards.len() ==> (#[trigger] shards[i]).len() == len
}

/// Whether `shards` is the encoding of `payload`: the `k + m` shards that
/// [`encoded`] names, each as long as [`shard_len`] says.
pub open spec fn encodes(shards: Seq<Seq<u8>>, payload: Seq<u8>, k: nat, m: nat) -> bool {
    &&& shards == encoded(payload, k, m)
    &&& uniform(shards, k + m, shard_len(payload.len(), k))
    &&& shards.take(k as int) == data_shards(payload, k)
}

/// Whether `after` is what a successful reconstruction makes of `before`.
///
/// Every slot is filled with a shard of the common length, the slots that
/// were filled keep their shards, and where the filled slots were shards of
/// one codeword, the result is that codeword.
pub open spec fn restores(
    before: Seq<Option<Seq<u8>>>,
    after: Seq<Option<Seq<u8>>>,
    k: nat,
    m: nat,
) -> bool {
    &&& after == rs_restored(k, m, before)
    &&& after.len() == before.len()
    &&& forall|i: int|
        0 <= i < after.len() ==> (#[trigger] after[i]) is Some && Some(after[i]->0.len())
            == last_len(before)
    &&& forall|i: int| 0 <= i < before.len() && before[i] is Some ==> #[trigger] after[i] == before[i]
    &&& forall|data: Seq<Seq<u8>>|
        uniform(data, k, last_len(before)->0) && #[trigger] agrees(before, codeword(k, m, data))
            ==> after == all_present(codeword(k, m, data))
}

/// Consecutive pieces, joined again, are the bytes they were cut from.
pub proof fn lemma_pieces_flatten(full: Seq<u8>, size: nat, count: nat)
    requires
        count * size <= full.len(),
    ensures
        pieces(full, size, count).flatten() == full.take((count * size) as int),
    decreases count,
{
    if count == 0 {
        assert(pieces(full, size, 0) =~= Seq::<Seq<u8>>::empty());
        assert(full.take(0) =~= Seq::<u8>::empty());
    } else {
        let before = (count - 1) as nat;
        let last = Seq::new(size, |j: int| full[before * size + j]);
        assert(before * size + size == count * size) by (nonlinear_arith)
            requires
                before + 1 == count,
        ;
        lemma_pieces_flatten(full, size, before);
        assert(pieces(full, size, count) =~~= pieces(full, size, before).push(last));
        pieces(full, size, before).lemma_flatten_push(last);
        assert(full.take((before * size) as int) + last =~= full.take((count * size) as int));
    }
}

/// The data shards of a payload, joined, are the payload followed by its
/// zero padding.
pub proof fn lemma_data_shards_join(payload: Seq<u8>, k: nat)
    ensures
        data_shards(payload, k).flatten() == padded(payload, k),
{
    let full = padded(payload, k);
    lemma_pieces_flatten(full, shard_len(payload.len(), k), k);
    assert(full.take(full.len() as int) =~= full);
}

/// Slots whose shards all have the length `len`, which is not zero, show no
/// fault, and the last of them, if there is one, has that length.
proof fn lemma_uniform_slots(slots: Seq<Option<Seq<u8>>>, len: nat)
    requires
        len > 0,
        forall|i: int| 0 <= i < slots.len() && slots[i] is Some ==> (#[trigger] slots[i])->0.len() == len,
    ensures
        shape_error(slots) is None,
        count_present(slots) == 0 ==> last_len(slots) is None,
        count_present(slots) > 0 ==> last_len(slots) == Some(len),
    decreases slots.len(),
{
    if slots.len() > 0 {
        let init = slots.drop_last();
        assert forall|i: int| 0 <= i < init.len() && init[i] is Some implies (#[trigger] init[i])->0.len()
            == len by {
            assert(init[i] == slots[i]);
        }
        lemma_uniform_slots(init, len);
        assert(slots.last() == slots[slots.len() - 1]);
    }
}

/// Encoding followed by reconstruction gives every shard back.
///
/// Let `shards` be the encoding of a payload that is not empty, and let
/// `slots` hold at least `k` of those shards, each at its own position. Then
/// reconstruction succeeds on `slots`, and what it leaves is `shards`
/// itself, whose first `k` shards joined are the payload followed by its
/// zero padding.
pub proof fn lemma_reconstruct_inverts_encode(
    payload: Seq<u8>,
    k: nat,
    m: nat,
    shards: Seq<Seq<u8>>,
    slots: Seq<Option<Seq<u8>>>,
    after: Seq<Option<Seq<u8>>>,
)
    requires
        valid_params(k, m),
        payload.len() > 0,
        encodes(shards, payload, k, m),
        agrees(slots, shards),
        count_present(slots) >= k,
    ensures
        reconstruct_error(slots, k, m) is None,
        restores(slots, after, k, m) ==> after == all_present(shards),
        shards.take(k as int).flatten() == padded(payload, k),
{
    let len = shard_len(payload.len(), k);
    let data = data_shards(payload, k);
    lemma_round_up(payload.len() as int, k as int);
    assert forall|i: int| 0 <= i < slots.len() && slots[i] is Some implies (#[trigger] slots[i])->0.len()
        == len by {
        assert(slots[i] == Some(shards[i]));
    }
    lemma_uniform_slots(slots, len);
    lemma_data_shards_join(payload, k);
    assert(uniform(data, k, len));
    assert(shards == codeword(k, m, data));
}

/// Computes the parity shards through `ReedSolomon::new` and
/// `ReedSolomon::encode` of the codec crate, over GF(2^8).
///
/// Not proved, but taken from the codec: on `k + m` shards of one non-zero
/// length, with shard counts that the field allows, it succeeds, leaves the
/// first `k` shards and all lengths as they are, and overwrites the last
/// `m` shards with the parity of the first `k`, which depends on nothing
/// but `k`, `m` and those shards.
#[verifier::external_body]
fn rs_encode(k: usize, m: usize, shards: &mut Vec<Vec<u8>>) -> (res: Result<
    (),
    reed_solomon_erasure::Error,
>)
    requires
        valid_params(k as nat, m as nat),
        old(shards)@.len() > 0,
        old(shards)@[0]@.len() > 0,
        uniform(shards_view(old(shards)@), (k + m) as nat, old(shards)@[0]@.len()),
    ensures
        res is Ok,
        shards_view(final(shards)@) == shards_view(old(shards)@).take(k as int) + rs_parity(
            k as nat,
            m as nat,
            shards_view(old(shards)@).take(k as int),
        ),
        uniform(shards_view(final(shards)@), (k + m) as nat, old(shards)@[0]@.len()),
{
    let codec = reed_solomon_erasure::galois_8::ReedSolomon::new(k, m)?;
    codec.encode(shards)
}

/// Fills the empty slots through `ReedSolomon::new` and
/// `ReedSolomon::reconstruct` of the codec crate, over GF(2^8).
///
/// Not proved, but taken from the codec: on `k + m` slots whose shards
/// have one non-zero length, and of which all or at least `k` are filled,
/// it succeeds and [`restores`] the slots. That the shards of a codeword
/// come back from any `k` of them is the property that makes the code an
/// erasure code.
#[verifier::external_body]
fn rs_reconstruct(k: usize, m: usize, slots: &mut Vec<Option<Vec<u8>>>) -> (res: Result<
    (),
    reed_solomon_erasure::Error,
>)
    requires
        valid_params(k as nat, m as nat),
        reconstruct_error(slots_view(old(slots)@), k as nat, m as nat) is None,
    ensures
        res is Ok,
        slots_view(final(slots)@) == rs_restored(k as nat, m as nat, slots_view(old(slots)@)),
        restores(slots_view(old(slots)@), slots_view(final(slots)@), k as nat, m as nat),
{
    let codec = reed_solomon_erasure::galois_8::ReedSolomon::new(k, m)?;
    codec.reconstruct(slots)
}

/// Rounding `len / k` up adds one exactly where `k` does not divide `len`.
proof fn lemma_round_up(len: int, k: int)
    requires
        len >= 0,
        k > 0,
    ensures
        (len + k - 1) / k == if len % k == 0 {
            len / k
        } else {
            len / k + 1
        },
        len / k <= len,
        len % k != 0 ==> len / k < len,
        len > 0 && len % k == 0 ==> len / k > 0,
{
    let q = len / k;
    let r = len % k;
    vstd::arithmetic::div_mod::lemma_fundamental_div_mod(len, k);
    vstd::arithmetic::div_mod::lemma_mod_bound(len, k);
    assert(len == k * q + r);
    assert(q >= 0) by (nonlinear_arith)
        requires
            len == k * q + r,
            0 <= r < k,
            len >= 0,
            k > 0,
    ;
    assert(q <= len && (r != 0 ==> q < len)) by (nonlinear_arith)
        requires
            len == k * q + r,
            0 <= r < k,
            q >= 0,
            k > 0,
    ;
    assert(len > 0 && r == 0 ==> q > 0) by (nonlinear_arith)
        requires
            len == k * q + r,
            k > 0,
    ;
    if r == 0 {
        vstd::arithmetic::div_mod::lemma_fundamental_div_mod_converse(len + k - 1, k, q, k - 1);
    } else {
        assert(len + k - 1 == (q + 1) * k + (r - 1)) by (nonlinear_arith)
            requires
                len == k * q + r,
        ;
        vstd::arithmetic::div_mod::lemma_fundamental_div_mod_converse(
            len + k - 1,
            k,
            q + 1,
            r - 1,
        );
    }
}

/// `len / k` rounded up.
fn shard_size(len: usize, k: usize) -> (size: usize)
    requires
        k > 0,
    ensures
        size == shard_len(len as nat, k as nat),
        size > 0 <==> len > 0,
        size <= len,
{
    proof {
        lemma_round_up(len as int, k as int);
    }
    if len % k == 0 {
        len / k
    } else {
        len / k + 1
    }
}

/// Encodes `payload` into `shard_count` data shards and `parity_count`
/// parity shards of equal length.
///
/// The payload is padded with zero bytes to a multiple of `shard_count` and
/// cut into the data shards; the parity shards follow them.
pub fn encode(payload: &Vec<u8>, shard_count: usize, parity_count: usize) -> (res: Vec<Vec<u8>>)
    requires
        valid_params(shard_count as nat, parity_count as nat),
    ensures
        encodes(shards_view(res@), payload@, shard_count as nat, parity_count as nat),
{
    let len = payload.len();
    let size = shard_size(len, shard_count);
    let ghost k = shard_count as nat;
    let ghost full = padded(payload@, k);
    let ghost data = data_shards(payload@, k);
    let mut shards: Vec<Vec<u8>> = Vec::new();
    let mut pos: usize = 0;
    let mut i: usize = 0;
    while i < shard_count
        invariant
            i <= shard_count,
            k == shard_count,
            len == payload@.len(),
            size == shard_len(len as nat, k),
            full == padded(payload@, k),
            data == data_shards(payload@, k),
            shards@.len() == i,
            forall|a: int| 0 <= a < i ==> (#[trigger] shards@[a])@ == data[a],
            pos == if i * size < len {
                i * size
            } else {
                len as int
            },
        decreases shard_count - i,
    {
        let mut shard: Vec<u8> = Vec::new();
        let mut j: usize = 0;
        assert(i * size + size <= k * size) by (nonlinear_arith)
            requires
                i < k,
                size >= 0,
        ;
        while j < size
            invariant
                j <= size,
                i < shard_count,
                k == shard_count,
                len == payload@.len(),
                full == padded(payload@, k),
                full.len() == k * size,
                i * size + size <= k * size,
                shard@.len() == j,
                forall|b: int| 0 <= b < j ==> #[trigger] shard@[b] == full[i * size + b],
                pos == if i * size + j < len {
                    i * size + j
                } else {
                    len as int
                },
            decreases size - j,
        {
            if pos < len {
                shard.push(payload[pos]);
                pos += 1;
            } else {
                shard.push(0u8);
            }
            j += 1;
        }
        assert(shard@ =~= data[i as int]);
        shards.push(shard);
        assert((i + 1) * size == i * size + size) by (nonlinear_arith);
        i += 1;
    }
    let mut p: usize = 0;
    while p < parity_count
        invariant
            p <= parity_count,
            k == shard_count,
            shards@.len() == k + p,
            uniform(shards_view(shards@), (k + p) as nat, size as nat),
            shards_view(shards@).take(k as int) =~= data,
            uniform(data, k, size as nat),
        decreases parity_count - p,
    {
        let mut shard: Vec<u8> = Vec::new();
        let mut j: usize = 0;
        while j < size
            invariant
                j <= size,
                shard@.len() == j,
            decreases size - j,
        {
            shard.push(0u8);
            j += 1;
        }
        let ghost before = shards_view(shards@);
        shards.push(shard);
        assert(shards_view(shards@) =~= before.push(shard@));
        assert(shards_view(shards@).take(k as int) =~= before.take(k as int));
        p += 1;
    }
    let ghost zeroed = shards_view(shards@);
    assert(zeroed[0].len() == size);
    if size > 0 {
        // The shards have one non-zero length, so the codec does not fail.
        let _ = rs_encode(shard_count, parity_count, &mut shards);
        assert(shards_view(shards@) == data + rs_parity(k, parity_count as nat, data));
        assert(shards_view(shards@).take(k as int) =~= data);
    } else {
        assert(shards_view(shards@) =~~= encoded(payload@, k, parity_count as nat));
        assert(shards_view(shards@).take(k as int) =~~= data);
    }
    shards
}

/// Reads the slots in order and reports why they cannot be reconstructed,
/// if they cannot.
fn check_slots(slots: &Vec<Option<Vec<u8>>>, shard_count: usize, parity_count: usize) -> (res:
    Option<EcError>)
    requires
        valid_params(shard_count as nat, parity_count as nat),
    ensures
        res == reconstruct_error(slots_view(slots@), shard_count as nat, parity_count as nat),
{
    let total = shard_count + parity_count;
    if slots.len() < total {
        return Some(EcError::TooFewShards);
    }
    if slots.len() > total {
        return Some(EcError::TooManyShards);
    }
    let ghost view = slots_view(slots@);
    let mut fault: Option<EcError> = None;
    let mut len: Option<usize> = None;
    let mut present: usize = 0;
    let mut i: usize = 0;
    while i < slots.len()
        invariant
            i <= slots@.len(),
            view == slots_view(slots@),
            fault == shape_error(view.take(i as int)),
            match len {
                Some(l) => last_len(view.take(i as int)) == Some(l as nat),
                None => last_len(view.take(i as int)) is None,
            },
            present == count_present(view.take(i as int)),
            present <= i,
        decreases slots@.len() - i,
    {
        proof {
            assert(view.take(i + 1).drop_last() =~= view.take(i as int));
            assert(view.take(i + 1).last() == view[i as int]);
        }
        match &slots[i] {
            Some(shard) => {
                if fault.is_none() {
                    if shard.len() == 0 {
                        fault = Some(EcError::EmptyShard);
                    } else {
                        match len {
                            Some(l) => {
                                if l != shard.len() {
                                    fault = Some(EcError::IncorrectShardSize);
                                }
                            },
                            None => {},
                        }
                    }
                }
                len = Some(shard.len());
                present += 1;
            },
            None => {},
        }
        i += 1;
    }
    assert(view.take(i as int) =~= view);
    if fault.is_some() {
        fault
    } else if present == total {
        None
    } else if present < shard_count {
        Some(EcError::InsufficientShards)
    } else {
        None
    }
}

/// Fills the empty slots of `shards` from the filled ones.
///
/// `shards` holds one slot for each of the `shard_count + parity_count`
/// shards, in order. With at least `shard_count` slots filled by shards of
/// one non-zero length every slot is filled; otherwise `shards` is left as
/// it is and the error says why.
pub fn reconstruct(shards: &mut Vec<Option<Vec<u8>>>, shard_count: usize, parity_count: usize) -> (res:
    Result<(), EcError>)
    requires
        valid_params(shard_count as nat, parity_count as nat),
    ensures
        match reconstruct_error(
            slots_view(old(shards)@),
            shard_count as nat,
            parity_count as nat,
        ) {
            Some(e) => res == Err::<(), EcError>(e) && final(shards)@ == old(shards)@,
            None => res is Ok && restores(
                slots_view(old(shards)@),
                slots_view(final(shards)@),
                shard_count as nat,
                parity_count as nat,
            ),
        },
{
    match check_slots(shards, shard_count, parity_count) {
        Some(e) => Err(e),
        None => {
            // The slots passed every test of the codec, so it does not fail.
            let _ = rs_reconstruct(shard_count, parity_count, shards);
            Ok(())
        },
    }
}

} // verus!
