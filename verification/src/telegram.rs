//! The text of the Telegram notice sent when a solution has been mined.

use vstd::prelude::*;
use crate::eth::TxReport;
use crate::miner::{backend_name, Solution};
use crate::text::{decimal, hex_encode, hex_lower, push_decimal};

verus! {

/// The notice for a mined solution: the wallet, the backend, the nonce, the digest,
/// the number of hashes, a link to the transaction and its block.
pub open spec fn success_text(wallet: Seq<u8>, solution: Solution, tx: TxReport) -> Seq<char> {
    "HASH256 mined successfully\n\nWallet: 0x"@ + hex_lower(wallet) + "\nBackend: "@ + backend_name(
        solution.backend,
    ) + "\nNonce: "@ + decimal(solution.nonce as nat) + "\nHash: "@ + solution.hash@
        + "\nHashes: "@ + decimal(solution.hashes as nat) + "\nTX: https://etherscan.io/tx/0x"@
        + hex_lower(tx.tx_hash@) + "\nBlock: "@ + decimal(tx.block_number as nat)
}

/// The notice for a mined solution, addresses and hashes shown as `0x` and
/// lowercase hexadecimal digits.
pub fn success_message(wallet: &[u8; 20], solution: &Solution, tx: &TxReport) -> (r: String)
    ensures
        r@ == success_text(wallet@, *solution, *tx),
{
    let mut text = String::from_str("HASH256 mined successfully\n\nWallet: 0x");
    let wallet_hex = hex_encode(wallet.as_slice());
    text.append(wallet_hex.as_str());
    text.append("\nBackend: ");
    text.append(solution.backend.as_str());
    text.append("\nNonce: ");
    push_decimal(&mut text, solution.nonce);
    text.append("\nHash: ");
    text.append(solution.hash.as_str());
    text.append("\nHashes: ");
    push_decimal(&mut text, solution.hashes);
    text.append("\nTX: https://etherscan.io/tx/0x");
    let tx_hex = hex_encode(tx.tx_hash.as_slice());
    text.append(tx_hex.as_str());
    text.append("\nBlock: ");
    push_decimal(&mut text, tx.block_number);
    text
}

/// The address of the Bot API method that sends a message.
pub open spec fn send_message_url_text(bot_token: Seq<char>) -> Seq<char> {
    "https://api.telegram.org/bot"@ + bot_token + "/sendMessage"@
}

pub fn send_message_url(bot_token: &str) -> (r: String)
    ensures
        r@ == send_message_url_text(bot_token@),
{
    let mut url = String::from_str("https://api.telegram.org/bot");
    url.append(bot_token);
    url.append("/sendMessage");
    url
}

} // verus!
