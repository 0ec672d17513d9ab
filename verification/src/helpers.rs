//! Small helpers: generated ids, limits on uploads, and the status of the
//! cycles balance.

use crate::hexadecimal::{encode_hex, hex_text};
use crate::logging::{decimal_text, push_decimal};
use sha2::{Digest, Sha256};
use vstd::prelude::*;
use vstd::string::*;

verus! {

/// Bytes in a mebibyte.
pub const BYTES_PER_MB: usize = 1048576;

/// The SHA-256 digest of `data`.
pub uninterp spec fn sha256(data: Seq<u8>) -> Seq<u8>;

/// Calls `Sha256::digest`: the SHA-256 digest of the bytes.
#[verifier::external_body]
fn sha256_digest(data: &[u8]) -> (digest: Vec<u8>)
    ensures
        digest@ == sha256(data@),
{
    Sha256::digest(data).to_vec()
}

/// The hash of a file: its SHA-256 digest in hexadecimal.
pub fn calculate_file_hash(file_data: &[u8]) -> (hash: String)
    ensures
        hash@ == hex_text(sha256(file_data@)),
{
    let digest = sha256_digest(file_data);
    encode_hex(digest.as_slice())
}

/// A document id made from a timestamp.
pub fn generate_document_id(timestamp: u64) -> (id: String)
    ensures
        id@ == "document_"@ + decimal_text(timestamp as nat),
{
    let mut id = String::from_str("document_");
    push_decimal(&mut id, timestamp);
    id
}

/// An institution id made from a timestamp.
pub fn generate_institution_id(timestamp: u64) -> (id: String)
    ensures
        id@ == "INST_"@ + decimal_text(timestamp as nat),
{
    let mut id = String::from_str("INST_");
    push_decimal(&mut id, timestamp);
    id
}

/// Checks a file's size against a limit given in mebibytes.
pub fn validate_file_size(file_size: usize, max_size_mb: usize) -> (outcome: Result<(), String>)
    requires
        max_size_mb * BYTES_PER_MB <= usize::MAX,
    ensures
        outcome.is_err() == (file_size > max_size_mb * BYTES_PER_MB),
        outcome.is_err() ==> outcome.unwrap_err()@ == "File size exceeds "@ + decimal_text(
            max_size_mb as nat,
        ) + "MB limit"@,
{
    let max_size_bytes = max_size_mb * BYTES_PER_MB;
    if file_size > max_size_bytes {
        let mut message = String::from_str("File size exceeds ");
        push_decimal(&mut message, max_size_mb as u64);
        message.append("MB limit");
        return Err(message);
    }
    Ok(())
}

/// The status that a cycles balance stands for.
pub open spec fn cycles_status(cycles: u128) -> Seq<char> {
    if cycles < 1_000_000_000 {
        "CRITICAL"@
    } else if cycles < 10_000_000_000 {
        "LOW"@
    } else {
        "NORMAL"@
    }
}

/// The status of a cycles balance: critical under a billion, low under ten
/// billion, normal from there.
pub fn get_cycles_status(cycles: u128) -> (status: &'static str)
    ensures
        status@ == cycles_status(cycles),
{
    if cycles < 1_000_000_000 {
        "CRITICAL"
    } else if cycles < 10_000_000_000 {
        "LOW"
    } else {
        "NORMAL"
    }
}

} // verus!
