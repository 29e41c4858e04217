# airdrop_rescue

Claims a zkSync Era airdrop for wallets that hold no ETH, and forwards the claimed
tokens to a safe address. Every transaction is an EIP-712 request whose fee a
paymaster pays through the general paymaster flow.

## Layout

- `src/` — the verified library (Verus):
  - `word.rs`: big-endian 256-bit words and their laws;
  - `hex_text.rs`: hexadecimal text and its decoding;
  - `address.rs`: addresses, their EIP-55 text, secret keys and signers;
  - `abi.rs`: calldata of `claim`, `transfer` and `general`, with decoding laws;
  - `transaction.rs`: building and completing EIP-712 transaction requests;
  - `submission.rs`: nonces, gas price and the retry decisions of a submission;
  - `wallet.rs`: wallet parameters, airdrop lookup and decimal amounts.
- `app/` — the program: reads the settings and the JSON files, talks to the node,
  signs with the zkSync crypto, and runs the submission loops.
- `tests/` — tests of the library.

## Settings

The program reads these from the environment (a `.env` file is loaded first):
`PROVIDER_URL`, `CHAIN_ID`, `CLAIM_CONTRACT_ADDRESS`, `TOKEN_CONTRACT_ADDRESS`,
`RECIPIENT_ADDRESS`, `PAYMASTER_ADDRESS`, `CLAIM_GAZ_LIMIT`, `TRANSFER_GAZ_LIMIT`.
It expects `wallets.json` (`{"private_keys": [...]}`) and `airdrop_data.json`
(addresses in EIP-55 form mapped to a list of `{userId, tokenAmount, merkleIndex,
merkleProof}` entries) in the working directory.
