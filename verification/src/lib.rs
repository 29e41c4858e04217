//! Building blocks of a gasless airdrop claimer for zkSync Era: calldata
//! encoding for the claim and token-transfer calls, construction of
//! paymaster-sponsored EIP-712 transaction requests, and the decisions that
//! drive the submit-and-retry loop of each wallet.

pub mod word;
pub mod hex_text;
pub mod address;
pub mod abi;
pub mod transaction;
pub mod submission;
pub mod wallet;
