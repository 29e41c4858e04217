//! Paymaster-sponsored EIP-712 transaction requests for zkSync Era.

use vstd::prelude::*;
use crate::abi::{encode_general_paymaster_input, general_calldata};
use crate::address::{convert_address_alloy_to_zksync, Address, ZkAddress};
use crate::hex_text::push_all;
use crate::word::{be_value, U256};

verus! {

/// The transaction type byte of zkSync's EIP-712 transactions.
pub const EIP_712_TX_TYPE: u8 = 113;

/// The gas per pubdata byte that every request offers.
pub const GAS_PER_PUBDATA: u64 = 50_000;

/// What a request is built from.
#[derive(Debug)]
pub struct TransactionParams {
    pub nonce: u64,
    pub from: Address,
    pub to: Address,
    pub gas_limit: u64,
    pub gas_price: u128,
    pub input: Vec<u8>,
    pub chain_id: u64,
    /// The paymaster that pays the fee.
    pub paymaster: ZkAddress,
}

/// The paymaster of a request and the input handed to it.
#[derive(Debug)]
pub struct PaymasterParams {
    pub paymaster: ZkAddress,
    pub paymaster_input: Vec<u8>,
}

/// The zkSync-specific part of an EIP-712 request.
#[derive(Debug)]
pub struct Eip712Meta {
    pub gas_per_pubdata: U256,
    pub factory_deps: Option<Vec<Vec<u8>>>,
    pub custom_signature: Option<Vec<u8>>,
    pub paymaster_params: Option<PaymasterParams>,
}

/// A zkSync transaction request, with the signature fields that signing fills in.
#[derive(Debug)]
pub struct TransactionRequest {
    pub nonce: U256,
    pub from: Option<ZkAddress>,
    pub to: Option<ZkAddress>,
    pub value: U256,
    pub gas_price: U256,
    pub gas: U256,
    pub max_priority_fee_per_gas: Option<U256>,
    pub max_fee_per_gas: Option<U256>,
    pub input: Vec<u8>,
    pub v: Option<u64>,
    pub r: Option<U256>,
    pub s: Option<U256>,
    pub raw: Option<Vec<u8>>,
    pub transaction_type: Option<u64>,
    pub eip712_meta: Option<Eip712Meta>,
    pub chain_id: Option<u64>,
}

/// The signature of a request: `r` and `s` as 32 big-endian bytes each, and the recovery byte `v`.
#[derive(Clone, Copy, Debug)]
pub struct EthSignature {
    pub r: [u8; 32],
    pub s: [u8; 32],
    pub v: u8,
}

/// `meta` is the zkSync part of a request paid by `paymaster` through the general flow:
/// 50 000 gas per pubdata byte, no factory dependencies, no custom signature.
pub open spec fn is_general_paymaster_meta(meta: Eip712Meta, paymaster: Seq<u8>) -> bool {
    &&& meta.gas_per_pubdata.value() == GAS_PER_PUBDATA
    &&& meta.factory_deps matches Some(deps) && deps@.len() == 0
    &&& meta.custom_signature matches Some(sig) && sig@.len() == 0
    &&& meta.paymaster_params matches Some(pp) && pp.paymaster.bytes@ == paymaster
        && pp.paymaster_input@ == general_calldata()
}

/// `tx` is the unsigned request that `params` describe.
pub open spec fn is_request_for(tx: TransactionRequest, params: TransactionParams) -> bool {
    &&& tx.nonce.value() == params.nonce
    &&& tx.from matches Some(a) && a.bytes@ == params.from.bytes@
    &&& tx.to matches Some(a) && a.bytes@ == params.to.bytes@
    &&& tx.value.value() == 0
    &&& tx.gas_price.value() == params.gas_price
    &&& tx.gas.value() == params.gas_limit
    &&& tx.max_priority_fee_per_gas matches Some(f) && f.value() == 0
    &&& tx.max_fee_per_gas is None
    &&& tx.input@ == params.input@
    &&& tx.v is None
    &&& tx.r is None
    &&& tx.s is None
    &&& tx.raw is None
    &&& tx.transaction_type == Some(EIP_712_TX_TYPE as u64)
    &&& tx.eip712_meta matches Some(meta) && is_general_paymaster_meta(meta, params.paymaster.bytes@)
    &&& tx.chain_id == Some(params.chain_id)
}

/// Builds the unsigned EIP-712 request that `params` describe, paid by the paymaster
/// through the general flow.
pub fn create_transaction_request(params: TransactionParams) -> (res: TransactionRequest)
    ensures
        is_request_for(res, params),
        be_value(res.gas_price.be@) == params.gas_price,
        be_value(res.nonce.be@) == params.nonce,
        be_value(res.gas.be@) == params.gas_limit,
        res.chain_id == Some(params.chain_id),
{
    let ghost p = params;
    let meta = Eip712Meta {
        gas_per_pubdata: U256::from_u64(GAS_PER_PUBDATA),
        factory_deps: Some(Vec::new()),
        custom_signature: Some(Vec::new()),
        paymaster_params: Some(
            PaymasterParams {
                paymaster: params.paymaster,
                paymaster_input: encode_general_paymaster_input(),
            },
        ),
    };
    TransactionRequest {
        nonce: U256::from_u64(params.nonce),
        from: Some(convert_address_alloy_to_zksync(params.from)),
        to: Some(convert_address_alloy_to_zksync(params.to)),
        value: U256::zero(),
        gas_price: U256::from_u128(params.gas_price),
        gas: U256::from_u64(params.gas_limit),
        max_priority_fee_per_gas: Some(U256::zero()),
        max_fee_per_gas: None,
        input: params.input,
        v: None,
        r: None,
        s: None,
        raw: None,
        transaction_type: Some(EIP_712_TX_TYPE as u64),
        eip712_meta: Some(meta),
        chain_id: Some(params.chain_id),
    }
}

/// `after` is `before` with nothing but the signature fields changed.
pub open spec fn same_but_signature(before: TransactionRequest, after: TransactionRequest) -> bool {
    &&& after.nonce == before.nonce
    &&& after.from == before.from
    &&& after.to == before.to
    &&& after.value == before.value
    &&& after.gas_price == before.gas_price
    &&& after.gas == before.gas
    &&& after.max_priority_fee_per_gas == before.max_priority_fee_per_gas
    &&& after.max_fee_per_gas == before.max_fee_per_gas
    &&& after.input == before.input
    &&& after.transaction_type == before.transaction_type
    &&& after.eip712_meta == before.eip712_meta
    &&& after.chain_id == before.chain_id
}

/// The raw bytes of a signed request: the EIP-712 type byte, then the RLP encoding.
pub open spec fn raw_transaction(encoded: Seq<u8>) -> Seq<u8> {
    seq![EIP_712_TX_TYPE] + encoded
}

/// Completes the signing of `tx`: records the signature made over its EIP-712 hash and
/// the raw transaction built from `encoded`, the RLP encoding of the signed request.
pub fn sign_transaction(tx: &mut TransactionRequest, signature: &EthSignature, encoded: &Vec<u8>)
    ensures
        same_but_signature(*old(tx), *final(tx)),
        final(tx).raw matches Some(raw) && raw@ == raw_transaction(encoded@) && raw@.len() == 1
            + encoded@.len() && raw@[0] == EIP_712_TX_TYPE && raw@.skip(1) == encoded@,
        final(tx).v == Some(signature.v as u64),
        final(tx).r matches Some(r) && r.be@ == signature.r@ && r.value() == be_value(
            signature.r@,
        ),
        final(tx).s matches Some(s) && s.be@ == signature.s@ && s.value() == be_value(
            signature.s@,
        ),
{
    let mut data: Vec<u8> = Vec::new();
    data.push(EIP_712_TX_TYPE);
    push_all(&mut data, encoded.as_slice());
    assert(data@ =~= raw_transaction(encoded@));
    assert(data@.skip(1) =~= encoded@);
    tx.raw = Some(data);
    tx.v = Some(signature.v as u64);
    tx.r = Some(U256::from_big_endian(&signature.r));
    tx.s = Some(U256::from_big_endian(&signature.s));
}

/// Law: a request built from `params` carries the params' numbers unchanged, with no cap
/// or rounding: the nonce, the gas price, the gas limit and the chain id, as well as
/// the sender, the recipient and the calldata.
pub proof fn lemma_request_keeps_params(tx: TransactionRequest, params: TransactionParams)
    requires
        is_request_for(tx, params),
    ensures
        be_value(tx.nonce.be@) == params.nonce,
        be_value(tx.gas_price.be@) == params.gas_price,
        be_value(tx.gas.be@) == params.gas_limit,
        tx.chain_id == Some(params.chain_id),
        tx.from.unwrap().bytes@ == params.from.bytes@,
        tx.to.unwrap().bytes@ == params.to.bytes@,
        tx.input@ == params.input@,
{
}

/// Law: the raw transaction is the type byte 113 followed by the whole encoding, byte for
/// byte: nothing is cut off or changed.
pub proof fn lemma_raw_transaction_layout(encoded: Seq<u8>)
    ensures
        raw_transaction(encoded).len() == 1 + encoded.len(),
        raw_transaction(encoded)[0] == 113,
        forall|i: int| 0 <= i < encoded.len() ==> #[trigger] raw_transaction(encoded)[i + 1] == encoded[i],
        raw_transaction(encoded).skip(1) == encoded,
{
    assert(raw_transaction(encoded).skip(1) =~= encoded);
}

} // verus!
