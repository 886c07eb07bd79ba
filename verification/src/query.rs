//! The batch of read-only contract calls for a list of accounts, and the
//! reading of what the aggregated call returns.
//!
//! Call `i` of a batch is the lookup for account `i`, and result `i` of the
//! answer is read as the allocation of account `i`: the pairing is by
//! position alone, and an answer with another number of results than there
//! were calls is refused.

use crate::address::Address;
use crate::amount::{first_word, AllocationValue};
use crate::error::{StatsError, StatsFault};
use crate::scan::{first_where, lemma_first_where_is};
use alloy::providers::bindings::IMulticall3;
use alloy::sol_types::SolCall;
use vstd::prelude::*;
use vstd::utf8::encode_utf8;

verus! {

/// The signature of the method that every call of a batch invokes. It takes
/// one address and returns one unsigned 256-bit integer.
pub const SIGNATURE: &'static str = "allocations(address)";

/// The number of bytes of a method selector.
pub const SELECTOR_BYTES: usize = 4;

/// The number of zero bytes before an address in a word of call data.
pub const ADDRESS_PADDING: usize = 12;

/// The contract that every call of a batch targets,
/// `0x0000000002ba96C69b95E32CAAB8fc38bAB8B3F8`.
pub const CLAIM_CONTRACT: [u8; 20] = [
    0x00, 0x00, 0x00, 0x00, 0x02, 0xba, 0x96, 0xc6, 0x9b, 0x95,
    0xe3, 0x2c, 0xaa, 0xb8, 0xfc, 0x38, 0xba, 0xb8, 0xb3, 0xf8,
];

/// The contract that makes the calls of a batch in one round trip,
/// `0xcA11bde05977b3631167028862bE2a173976CA11`.
pub const MULTICALL_CONTRACT: [u8; 20] = [
    0xca, 0x11, 0xbd, 0xe0, 0x59, 0x77, 0xb3, 0x63, 0x11, 0x67,
    0x02, 0x88, 0x62, 0xbe, 0x2a, 0x17, 0x39, 0x76, 0xca, 0x11,
];

/// One read-only call: the contract to call and the data to call it with.
#[derive(Clone, Debug, PartialEq, Eq)]
pub struct Call {
    pub target: Address,
    pub call_data: Vec<u8>,
}

/// The Keccak-256 digest of `data`.
pub uninterp spec fn keccak256_digest(data: Seq<u8>) -> Seq<u8>;

/// The selector of a method: the first four bytes of the digest of its
/// signature.
pub open spec fn selector_of(signature: Seq<char>) -> Seq<u8> {
    keccak256_digest(encode_utf8(signature)).take(SELECTOR_BYTES as int)
}

/// The data of a call of a method with one address parameter: the selector,
/// then the address as one word, padded with zeros on the left.
pub open spec fn encode_call(selector: Seq<u8>, account: Seq<u8>) -> Seq<u8> {
    selector + Seq::new(ADDRESS_PADDING as nat, |i: int| 0u8) + account
}

/// The data of the allocation lookup for `account`.
pub open spec fn allocation_call_data(account: Seq<u8>) -> Seq<u8> {
    encode_call(selector_of(SIGNATURE@), account)
}

/// Whether `call` is the allocation lookup for `account`.
pub open spec fn is_allocation_call(call: Call, account: Address) -> bool {
    &&& call.target.bytes == CLAIM_CONTRACT
    &&& call.call_data@ == allocation_call_data(account@)
}

/// `keccak256` of alloy-primitives: the digest is thirty-two bytes and
/// depends on the data alone.
#[verifier::external_body]
fn keccak256(data: &[u8]) -> (digest: [u8; 32])
    ensures
        digest@ == keccak256_digest(data@),
{
    alloy::primitives::keccak256(data).0
}

/// The selector of the method with the given signature.
pub fn selector(signature: &str) -> (selector: [u8; 4])
    ensures
        selector@ == selector_of(signature@),
{
    let digest = keccak256(signature.as_bytes());
    let selector = [digest[0], digest[1], digest[2], digest[3]];
    assert(selector@ =~= digest@.take(SELECTOR_BYTES as int));
    selector
}

/// The data of a call of the method with the given selector on `account`.
pub fn call_data(selector: &[u8; 4], account: &Address) -> (data: Vec<u8>)
    ensures
        data@ == encode_call(selector@, account@),
{
    let mut data: Vec<u8> = Vec::new();
    let mut i: usize = 0;
    while i < SELECTOR_BYTES
        invariant
            i <= SELECTOR_BYTES,
            data@ == selector@.take(i as int),
        decreases SELECTOR_BYTES - i,
    {
        data.push(selector[i]);
        i += 1;
    }
    let ghost zeros = Seq::new(ADDRESS_PADDING as nat, |i: int| 0u8);
    let mut i: usize = 0;
    while i < ADDRESS_PADDING
        invariant
            i <= ADDRESS_PADDING,
            zeros == Seq::new(ADDRESS_PADDING as nat, |i: int| 0u8),
            data@ == selector@ + zeros.take(i as int),
        decreases ADDRESS_PADDING - i,
    {
        data.push(0u8);
        i += 1;
    }
    let mut i: usize = 0;
    while i < account.bytes.len()
        invariant
            i <= account.bytes@.len(),
            data@ == selector@ + zeros + account@.take(i as int),
        decreases account.bytes@.len() - i,
    {
        data.push(account.bytes[i]);
        i += 1;
    }
    data
}

/// The batch for `addresses`: one allocation lookup for each, in their order.
pub fn build_calls(addresses: &Vec<Address>) -> (calls: Vec<Call>)
    ensures
        calls@.len() == addresses@.len(),
        forall|i: int|
            0 <= i < calls@.len() ==> is_allocation_call(#[trigger] calls@[i], addresses@[i]),
{
    let selector = selector(SIGNATURE);
    let mut calls: Vec<Call> = Vec::new();
    let mut i: usize = 0;
    while i < addresses.len()
        invariant
            i <= addresses@.len(),
            selector@ == selector_of(SIGNATURE@),
            calls@.len() == i,
            forall|j: int|
                0 <= j < i ==> is_allocation_call(#[trigger] calls@[j], addresses@[j]),
        decreases addresses@.len() - i,
    {
        let call = Call {
            target: Address { bytes: CLAIM_CONTRACT },
            call_data: call_data(&selector, &addresses[i]),
        };
        calls.push(call);
        i += 1;
    }
    calls
}

/// The contracts that `calls` target, in their order.
pub open spec fn targets_of(calls: Seq<Call>) -> Seq<Seq<u8>> {
    Seq::new(calls.len(), |i: int| calls[i].target@)
}

/// The data that `calls` carry, in their order.
pub open spec fn inputs_of(calls: Seq<Call>) -> Seq<Seq<u8>> {
    Seq::new(calls.len(), |i: int| calls[i].call_data@)
}

/// The data of the one call that asks the aggregating contract to make the
/// calls with the given targets and data, in their order, and to return what
/// each of them returns.
pub uninterp spec fn aggregate_call_data(targets: Seq<Seq<u8>>, inputs: Seq<Seq<u8>>) -> Seq<u8>;

/// The return data of each aggregated call, in the order of the calls, as
/// it is laid out in the return data `answer` of the aggregating call; or
/// nothing where `answer` is not laid out as such an answer.
pub uninterp spec fn aggregate_return_data(answer: Seq<u8>) -> Option<Seq<Seq<u8>>>;

/// `abi_encode` of the `aggregate` call in the Multicall3 bindings of
/// alloy-provider, with the calls in the given order.
#[verifier::external_body]
fn encode_aggregate(calls: &Vec<Call>) -> (data: Vec<u8>)
    ensures
        data@ == aggregate_call_data(targets_of(calls@), inputs_of(calls@)),
{
    let calls = calls.iter().map(
        |call|
            IMulticall3::Call {
                target: call.target.bytes.into(),
                callData: call.call_data.clone().into(),
            },
    ).collect();
    IMulticall3::aggregateCall { calls }.abi_encode()
}

/// `abi_decode_returns` of the `aggregate` call in the Multicall3 bindings
/// of alloy-provider: the list of return data, in the order in which the
/// answer holds it.
#[verifier::external_body]
fn decode_aggregate(answer: &[u8]) -> (returned: Option<Vec<Vec<u8>>>)
    ensures
        returned_view(returned) == aggregate_return_data(answer@),
{
    let decoded = IMulticall3::aggregateCall::abi_decode_returns(answer).ok()?;
    Some(decoded.returnData.into_iter().map(|data| data.to_vec()).collect())
}

/// An optional list of return data as plain sequences.
pub open spec fn returned_view(returned: Option<Vec<Vec<u8>>>) -> Option<Seq<Seq<u8>>> {
    match returned {
        Some(returned) => Some(returned.deep_view()),
        None => None,
    }
}

/// Whether `request` is the one aggregated call for `calls`.
pub open spec fn is_aggregate_of(request: Call, calls: Seq<Call>) -> bool {
    &&& request.target.bytes == MULTICALL_CONTRACT
    &&& request.call_data@ == aggregate_call_data(targets_of(calls), inputs_of(calls))
}

/// The one call that carries the whole batch.
pub fn aggregate_request(calls: &Vec<Call>) -> (request: Call)
    ensures
        is_aggregate_of(request, calls@),
{
    Call { target: Address { bytes: MULTICALL_CONTRACT }, call_data: encode_aggregate(calls) }
}

/// What the aggregated call came to, as plain sequences: its return data, or
/// what the transport said.
pub open spec fn outcome_view(outcome: Result<Vec<u8>, String>) -> Result<Seq<u8>, Seq<char>> {
    match outcome {
        Ok(answer) => Ok(answer@),
        Err(cause) => Err(cause@),
    }
}

/// The outcome of a decoding with each value taken by its word.
pub open spec fn values_view(r: Result<Vec<AllocationValue>, StatsError>) -> Result<
    Seq<Seq<u8>>,
    StatsFault,
> {
    match r {
        Ok(values) => Ok(words_of(values@)),
        Err(error) => Err(error@),
    }
}

/// The words of `values`, in their order.
pub open spec fn words_of(values: Seq<AllocationValue>) -> Seq<Seq<u8>> {
    Seq::new(values.len(), |i: int| values[i].word@)
}

/// Whether `data` is too short to hold an unsigned 256-bit integer.
pub open spec fn is_malformed(data: Seq<u8>) -> bool {
    first_word(data).is_none()
}

/// The index of the first result that is malformed, or the number of
/// results where none is.
pub open spec fn first_malformed(returned: Seq<Seq<u8>>) -> int {
    first_where(returned, |data: Seq<u8>| is_malformed(data))
}

/// What the results of a batch of `expected` calls come to: one word per
/// call, in the order of the calls.
///
/// Another number of results than there were calls gives nothing, and so
/// does a result that is malformed: the first such result is named.
pub open spec fn results_of(expected: nat, returned: Seq<Seq<u8>>) -> Result<
    Seq<Seq<u8>>,
    StatsFault,
> {
    if returned.len() != expected {
        Err(
            StatsFault::ReturnCount {
                expected: expected as usize,
                returned: returned.len() as usize,
            },
        )
    } else if first_malformed(returned) < returned.len() {
        Err(StatsFault::MalformedReturn { index: first_malformed(returned) as usize })
    } else {
        Ok(Seq::new(returned.len(), |i: int| first_word(returned[i]).unwrap()))
    }
}

/// What a batch of `expected` calls comes to: one word per call, in the
/// order of the calls, or the first reason for which there is none. A failed
/// call gives nothing, and so does an answer that is not laid out as one.
pub open spec fn decoded(expected: nat, outcome: Result<Seq<u8>, Seq<char>>) -> Result<
    Seq<Seq<u8>>,
    StatsFault,
> {
    match outcome {
        Err(cause) => Err(StatsFault::Transport { cause }),
        Ok(answer) => match aggregate_return_data(answer) {
            None => Err(StatsFault::MalformedAnswer),
            Some(returned) => results_of(expected, returned),
        },
    }
}

/// Reads the results of a batch of `expected` calls: the value that each
/// result holds, in the order of the results, which is that of the calls.
pub fn read_results(expected: usize, returned: &Vec<Vec<u8>>) -> (r: Result<
    Vec<AllocationValue>,
    StatsError,
>)
    ensures
        values_view(r) == results_of(expected as nat, returned.deep_view()),
{
    if returned.len() != expected {
        return Err(StatsError::ReturnCount { expected, returned: returned.len() });
    }
    let ghost results = returned.deep_view();
    let mut values: Vec<AllocationValue> = Vec::new();
    let mut i: usize = 0;
    while i < returned.len()
        invariant
            i <= returned@.len(),
            returned@.len() == expected,
            results == returned.deep_view(),
            values@.len() == i,
            forall|j: int| 0 <= j < i ==> !is_malformed(#[trigger] results[j]),
            forall|j: int|
                0 <= j < i ==> (#[trigger] values@[j]).word@ == first_word(results[j]).unwrap(),
        decreases returned@.len() - i,
    {
        assert(results[i as int] == returned@[i as int]@);
        match AllocationValue::decode(returned[i].as_slice()) {
            Some(value) => {
                values.push(value);
            },
            None => {
                proof {
                    assert(is_malformed(results[i as int]));
                    lemma_first_where_is(
                        results,
                        |data: Seq<u8>| is_malformed(data),
                        i as int,
                    );
                }
                return Err(StatsError::MalformedReturn { index: i });
            },
        }
        i += 1;
    }
    proof {
        lemma_first_where_is(results, |data: Seq<u8>| is_malformed(data), results.len() as int);
        assert(words_of(values@) =~= Seq::new(
            results.len(),
            |i: int| first_word(results[i]).unwrap(),
        ));
    }
    Ok(values)
}

/// Reads the outcome of the aggregated call for `addresses`: the allocation
/// of each address, in the order of the addresses, or the reason for which
/// the whole batch is void.
pub fn get_stats(addresses: &Vec<Address>, outcome: &Result<Vec<u8>, String>) -> (r: Result<
    Vec<AllocationValue>,
    StatsError,
>)
    ensures
        values_view(r) == decoded(addresses@.len(), outcome_view(*outcome)),
{
    match outcome {
        Err(cause) => Err(StatsError::Transport { cause: cause.clone() }),
        Ok(answer) => match decode_aggregate(answer.as_slice()) {
            None => Err(StatsError::MalformedAnswer),
            Some(returned) => read_results(addresses.len(), &returned),
        },
    }
}

} // verus!
