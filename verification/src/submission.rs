//! The decisions of the submit-and-retry loops: which nonce a submission starts from,
//! what each attempt offers, and what follows from the node's answer.

use vstd::prelude::*;
use vstd::string::StringSliceAdditionalSpecFns;
use vstd::utf8::encode_utf8;
use crate::address::{Address, ZkAddress};
use crate::transaction::{create_transaction_request, is_request_for, TransactionParams, TransactionRequest};

verus! {

/// `needle` occurs in `hay` as a contiguous run of bytes.
pub open spec fn contains_bytes(hay: Seq<u8>, needle: Seq<u8>) -> bool {
    exists|i: int| 0 <= i <= hay.len() - needle.len() && #[trigger] hay.subrange(i, i + needle.len()) == needle
}

/// Whether `needle` occurs in `hay`.
pub fn find_bytes(hay: &[u8], needle: &[u8]) -> (res: bool)
    ensures
        res == contains_bytes(hay@, needle@),
{
    let n = needle.len();
    let h = hay.len();
    if n > h {
        return false;
    }
    let last = h - n;
    let mut i: usize = 0;
    loop
        invariant
            n == needle@.len(),
            h == hay@.len(),
            last == h - n,
            i <= last,
            forall|j: int| 0 <= j < i ==> #[trigger] hay@.subrange(j, j + n) != needle@,
        decreases last - i,
    {
        if matches_at(hay, needle, i) {
            return true;
        }
        if i == last {
            return false;
        }
        i = i + 1;
    }
}

/// Whether `needle` occurs in `hay` at position `i`.
fn matches_at(hay: &[u8], needle: &[u8], i: usize) -> (res: bool)
    requires
        i + needle@.len() <= hay@.len(),
    ensures
        res == (hay@.subrange(i as int, i + needle@.len()) == needle@),
{
    let n = needle.len();
    let h = hay.len();
    let mut k: usize = 0;
    while k < n
        invariant
            n == needle@.len(),
            h == hay@.len(),
            i + n <= hay@.len(),
            k <= n,
            forall|m: int| 0 <= m < k ==> hay@[i + m] == needle@[m],
        decreases n - k,
    {
        if hay[i + k] != needle[k] {
            assert(hay@.subrange(i as int, i + n)[k as int] != needle@[k as int]);
            return false;
        }
        k = k + 1;
    }
    assert(hay@.subrange(i as int, i + n) =~= needle@);
    true
}

/// What a node's refusal of a transaction says about its nonce.
#[derive(Clone, Copy, Debug, PartialEq, Eq)]
pub enum Rejection {
    /// The nonce is already used: "known transaction" or "nonce too low".
    NonceUsed,
    /// The nonce is ahead of the account: "nonce too high".
    NonceAhead,
    /// Anything else.
    Other,
}

/// The kind of refusal that an error message reports.
pub open spec fn rejection_of(message: Seq<u8>) -> Rejection {
    if contains_bytes(message, encode_utf8("known transaction"@)) || contains_bytes(
        message,
        encode_utf8("nonce too low"@),
    ) {
        Rejection::NonceUsed
    } else if contains_bytes(message, encode_utf8("nonce too high"@)) {
        Rejection::NonceAhead
    } else {
        Rejection::Other
    }
}

/// Classifies the error message with which a node refused a raw transaction.
pub fn classify_rejection(message: &str) -> (res: Rejection)
    ensures
        res == rejection_of(message.spec_bytes()),
        contains_bytes(message.spec_bytes(), encode_utf8("known transaction"@)) ==> res
            == Rejection::NonceUsed,
        contains_bytes(message.spec_bytes(), encode_utf8("nonce too low"@)) ==> res
            == Rejection::NonceUsed,
{
    let m = message.as_bytes();
    if find_bytes(m, "known transaction".as_bytes()) || find_bytes(m, "nonce too low".as_bytes()) {
        Rejection::NonceUsed
    } else if find_bytes(m, "nonce too high".as_bytes()) {
        Rejection::NonceAhead
    } else {
        Rejection::Other
    }
}

/// How one attempt to submit a transaction ended.
#[derive(Clone, Copy, Debug, PartialEq, Eq)]
pub enum SendOutcome {
    /// The node accepted it and it was registered.
    Registered,
    /// The node accepted it but registering it failed.
    NotRegistered,
    /// The node refused it.
    Rejected(Rejection),
    /// Signing left no raw transaction to send.
    NotSigned,
}

/// What a submission loop does next.
#[derive(Clone, Copy, Debug, PartialEq, Eq)]
pub enum NextAttempt {
    /// The transaction is in; the loop ends.
    Finished,
    /// Try again with this nonce.
    Retry(u64),
}

/// The step that follows an attempt made with `nonce`.
pub open spec fn next_attempt_spec(nonce: u64, outcome: SendOutcome) -> NextAttempt {
    match outcome {
        SendOutcome::Registered => NextAttempt::Finished,
        SendOutcome::Rejected(Rejection::NonceUsed) => NextAttempt::Retry((nonce + 1) as u64),
        SendOutcome::Rejected(Rejection::NonceAhead) => NextAttempt::Retry((nonce - 1) as u64),
        _ => NextAttempt::Retry(nonce),
    }
}

/// Decides what follows an attempt made with `nonce`: a registered transaction ends the loop;
/// a used nonce is stepped up, a nonce ahead of the account stepped down, and any other
/// failure is retried with the same nonce.
pub fn next_attempt(nonce: u64, outcome: SendOutcome) -> (res: NextAttempt)
    requires
        outcome == SendOutcome::Rejected(Rejection::NonceUsed) ==> nonce < u64::MAX,
        outcome == SendOutcome::Rejected(Rejection::NonceAhead) ==> nonce > 0,
    ensures
        res == next_attempt_spec(nonce, outcome),
{
    match outcome {
        SendOutcome::Registered => NextAttempt::Finished,
        SendOutcome::Rejected(Rejection::NonceUsed) => NextAttempt::Retry(nonce + 1),
        SendOutcome::Rejected(Rejection::NonceAhead) => NextAttempt::Retry(nonce - 1),
        _ => NextAttempt::Retry(nonce),
    }
}

/// The two transactions that each wallet submits.
#[derive(Clone, Copy, Debug, PartialEq, Eq)]
pub enum Submission {
    /// The airdrop claim, sent first.
    Claim,
    /// The transfer of the claimed tokens, queued right behind the claim.
    Transfer,
}

/// The nonce that a submission starts from, given the account's transaction count.
pub open spec fn first_nonce_spec(kind: Submission, tx_count: u64) -> int {
    match kind {
        Submission::Claim => tx_count as int,
        Submission::Transfer => tx_count + 1,
    }
}

/// The nonce that a submission starts from: the claim takes the account's next nonce,
/// the transfer the one after it.
pub fn first_nonce(kind: Submission, tx_count: u64) -> (res: u64)
    requires
        kind == Submission::Transfer ==> tx_count < u64::MAX,
    ensures
        res == first_nonce_spec(kind, tx_count),
        kind == Submission::Claim ==> res == tx_count,
        kind == Submission::Transfer ==> res == tx_count + 1,
{
    match kind {
        Submission::Claim => tx_count,
        Submission::Transfer => tx_count + 1,
    }
}

/// The gas price an attempt offers: twice what the node reports.
pub fn offered_gas_price(reported: u128) -> (res: u128)
    requires
        reported * 2 <= u128::MAX,
    ensures
        res == reported * 2,
{
    reported * 2
}

/// The request of one attempt: nonce `nonce` from `from` to `to`, at twice the reported
/// gas price, paid by `paymaster`.
pub fn prepare_attempt(
    nonce: u64,
    from: Address,
    to: Address,
    reported_gas_price: u128,
    gas_limit: u64,
    input: &Vec<u8>,
    chain_id: u64,
    paymaster: ZkAddress,
) -> (res: TransactionRequest)
    requires
        reported_gas_price * 2 <= u128::MAX,
    ensures
        is_request_for(
            res,
            TransactionParams {
                nonce,
                from,
                to,
                gas_limit,
                gas_price: (reported_gas_price * 2) as u128,
                input: *input,
                chain_id,
                paymaster,
            },
        ),
{
    let gas_price = offered_gas_price(reported_gas_price);
    let params = TransactionParams {
        nonce,
        from,
        to,
        gas_limit,
        gas_price,
        input: input.clone(),
        chain_id,
        paymaster,
    };
    create_transaction_request(params)
}

/// What a wallet does after one round of claim and transfer.
#[derive(Clone, Copy, Debug, PartialEq, Eq)]
pub enum WalletRound {
    /// Both went through.
    Done,
    /// At least one failed; both are run again.
    RetryBoth,
}

/// A wallet is done once the claim and the transfer of the same round both succeed;
/// otherwise it runs both again.
pub fn wallet_round(claim_ok: bool, transfer_ok: bool) -> (res: WalletRound)
    ensures
        res == (if claim_ok && transfer_ok {
            WalletRound::Done
        } else {
            WalletRound::RetryBoth
        }),
{
    if claim_ok && transfer_ok {
        WalletRound::Done
    } else {
        WalletRound::RetryBoth
    }
}

/// Law: each wallet queues its transfer right behind its claim: from the same
/// transaction count, the transfer starts one nonce after the claim.
pub proof fn lemma_transfer_follows_claim(tx_count: u64)
    ensures
        first_nonce_spec(Submission::Transfer, tx_count) == first_nonce_spec(
            Submission::Claim,
            tx_count,
        ) + 1,
{
}

/// Law: a submission loop ends only when its transaction is registered, and between
/// attempts its nonce moves by at most one.
pub proof fn lemma_retry_progress(nonce: u64, outcome: SendOutcome)
    ensures
        (next_attempt_spec(nonce, outcome) == NextAttempt::Finished) <==> (outcome
            == SendOutcome::Registered),
        next_attempt_spec(nonce, outcome) matches NextAttempt::Retry(m) ==> (outcome
            == SendOutcome::Rejected(Rejection::NonceUsed) && nonce < u64::MAX ==> m == nonce + 1)
            && (outcome == SendOutcome::Rejected(Rejection::NonceAhead) && nonce > 0 ==> m == nonce
            - 1) && (outcome != SendOutcome::Rejected(Rejection::NonceUsed) && outcome
            != SendOutcome::Rejected(Rejection::NonceAhead) ==> m == nonce),
{
}

/// Law: stepping the nonce up after a used-nonce refusal and down after a nonce-ahead
/// refusal brings it back where it was.
pub proof fn lemma_nonce_steps_cancel(nonce: u64)
    requires
        nonce < u64::MAX,
    ensures
        next_attempt_spec(nonce, SendOutcome::Rejected(Rejection::NonceUsed)) matches NextAttempt::Retry(up)
            && next_attempt_spec(up, SendOutcome::Rejected(Rejection::NonceAhead))
            == NextAttempt::Retry(nonce),
{
}

/// Law: a message that reports a used nonce is never read as a nonce ahead, whatever else
/// it says.
pub proof fn lemma_used_nonce_wins(message: Seq<u8>)
    requires
        contains_bytes(message, encode_utf8("nonce too low"@)),
    ensures
        rejection_of(message) == Rejection::NonceUsed,
{
}

/// Law: the claim starts at the account's transaction count, its next unused nonce, and
/// the transfer at the count plus one, for every count.
pub proof fn lemma_first_nonces(tx_count: u64)
    ensures
        first_nonce_spec(Submission::Claim, tx_count) == tx_count,
        first_nonce_spec(Submission::Transfer, tx_count) == tx_count + 1,
{
}

/// Law: `needle` is found in any message that holds it, wherever it stands.
pub proof fn lemma_contains_anywhere(prefix: Seq<u8>, needle: Seq<u8>, suffix: Seq<u8>)
    ensures
        contains_bytes(prefix + needle + suffix, needle),
{
    let hay = prefix + needle + suffix;
    let i = prefix.len() as int;
    assert(hay.subrange(i, i + needle.len()) =~= needle);
}

/// Law: a message that says "known transaction" or "nonce too low" anywhere in it is read
/// as a used nonce; one that says "nonce too high" anywhere, and neither of those, as a
/// nonce ahead of the account.
pub proof fn lemma_rejection_anywhere(prefix: Seq<u8>, suffix: Seq<u8>)
    ensures
        rejection_of(prefix + encode_utf8("known transaction"@) + suffix) == Rejection::NonceUsed,
        rejection_of(prefix + encode_utf8("nonce too low"@) + suffix) == Rejection::NonceUsed,
        !contains_bytes(prefix + encode_utf8("nonce too high"@) + suffix, encode_utf8("known transaction"@))
            && !contains_bytes(prefix + encode_utf8("nonce too high"@) + suffix, encode_utf8("nonce too low"@))
            ==> rejection_of(prefix + encode_utf8("nonce too high"@) + suffix) == Rejection::NonceAhead,
{
    lemma_contains_anywhere(prefix, encode_utf8("known transaction"@), suffix);
    lemma_contains_anywhere(prefix, encode_utf8("nonce too low"@), suffix);
    lemma_contains_anywhere(prefix, encode_utf8("nonce too high"@), suffix);
}

} // verus!
