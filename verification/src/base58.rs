//! Base-58 text of peer identities, as the RPC endpoint prints and reads them.
//! The conversion itself is the `bs58` crate's, with its default alphabet.

use vstd::prelude::*;

verus! {

/// The base-58 text that `bs58` gives for a byte string.
pub uninterp spec fn base58_text(bytes: Seq<u8>) -> Seq<char>;

/// The byte string that `bs58` reads from a text, if it accepts the text.
pub uninterp spec fn base58_bytes(text: Seq<char>) -> Option<Seq<u8>>;

/// `bs58::encode(..).into_string()`: the base-58 text of `bytes`. The text
/// depends on the bytes alone.
#[verifier::external_body]
pub(crate) fn encode(bytes: &Vec<u8>) -> (text: String)
    ensures
        text@ == base58_text(bytes@),
{
    bs58::encode(bytes).into_string()
}

/// `bs58::decode(..).into_vec()`: the bytes that `text` stands for, or nothing
/// if `text` is not base-58. The outcome depends on the text alone.
#[verifier::external_body]
pub(crate) fn decode(text: &String) -> (bytes: Option<Vec<u8>>)
    ensures
        match bytes {
            Some(b) => base58_bytes(text@) == Some(b@),
            None => base58_bytes(text@).is_none(),
        },
{
    bs58::decode(text).into_vec().ok()
}

} // verus!
