//! The persisted record for a matched keypair.
//!
//! One match becomes one self-delimited text block holding the
//! timestamp, the address and the private key, each on its own labelled
//! line, closed by a `---` separator. The library builds the block;
//! appending it to the wallet file is the caller's concern.

use vstd::prelude::*;

use crate::patterns::contains_seq;
use crate::patterns::ends_with;

verus! {

/// A matched (address, private key, timestamp) triple awaiting
/// persistence.
pub struct MatchRecord {
    pub address: String,
    pub private_key: String,
    pub timestamp: String,
}

/// The exact text block persisted for one match.
pub open spec fn spec_wallet_block(
    timestamp: Seq<char>,
    address: Seq<char>,
    private_key: Seq<char>,
) -> Seq<char> {
    "Timestamp: "@ + timestamp + "\nAddress: "@ + address + "\nPrivate key: "@ + private_key
        + "\n---\n\n"@
}

/// Lays out one match as its complete, self-delimited block.
pub fn format_wallet_entry(record: &MatchRecord) -> (r: String)
    ensures
        r@ == spec_wallet_block(record.timestamp@, record.address@, record.private_key@),
{
    let r = String::from_str("Timestamp: ").concat(record.timestamp.as_str()).concat(
        "\nAddress: ",
    ).concat(record.address.as_str()).concat("\nPrivate key: ").concat(
        record.private_key.as_str(),
    ).concat("\n---\n\n");
    proof {
        assert(r@ =~= spec_wallet_block(record.timestamp@, record.address@, record.private_key@));
    }
    r
}

/// Law: the block for one match carries that match's address and private
/// key verbatim, and is closed by the block delimiter, so consecutive
/// appended blocks stay self-delimited.
pub proof fn lemma_wallet_block_well_formed(
    timestamp: Seq<char>,
    address: Seq<char>,
    private_key: Seq<char>,
)
    ensures
        contains_seq(spec_wallet_block(timestamp, address, private_key), address),
        contains_seq(spec_wallet_block(timestamp, address, private_key), private_key),
        ends_with(spec_wallet_block(timestamp, address, private_key), "\n---\n\n"@),
{
    let block = spec_wallet_block(timestamp, address, private_key);
    let addr_at: int = "Timestamp: "@.len() + timestamp.len() + "\nAddress: "@.len() as int;
    assert(block.subrange(addr_at, addr_at + address.len()) =~= address);
    let key_at: int = addr_at + address.len() + "\nPrivate key: "@.len();
    assert(block.subrange(key_at, key_at + private_key.len()) =~= private_key);
    let tail_at: int = block.len() - "\n---\n\n"@.len();
    assert(block.subrange(tail_at, block.len() as int) =~= "\n---\n\n"@);
}

} // verus!
