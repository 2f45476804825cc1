use crate::codec::{decimal_text, encode_hex, hex_encoded, parse_u64, u64_decimal, u64_text_value};
use crate::database_service::{block_root_hash_key, opt_bytes, DatabaseService};
use vstd::prelude::*;
use vstd::string::StringExecFns;

verus! {

/// The answer to a query for the digest at `block_number`, given the last processed
/// position, the store's current digest and the position's certified digest.
pub open spec fn root_hash_response(
    block_number: u64,
    last_checked: u64,
    current_root: Option<Seq<u8>>,
    certified: Option<Seq<u8>>,
) -> Seq<char> {
    if block_number == last_checked {
        match current_root {
            Some(h) => hex_encoded(h),
            None => Seq::<char>::empty(),
        }
    } else if block_number < last_checked && block_number > 0 {
        match certified {
            Some(h) => hex_encoded(h),
            None => "Block root hash not found for block number: "@ + decimal_text(
                block_number as nat,
            ),
        }
    } else {
        "Invalid block number"@
    }
}

/// The digest query that peers send: `GET /rootHash?blockNumber=<n>`.
pub struct GET;

impl GET {
    /// The position asked for, read from the `blockNumber` parameter; `None` where it is
    /// missing or not a `u64`.
    pub fn block_number_param(param: Option<&str>) -> (r: Option<u64>)
        ensures
            param is None ==> r is None,
            param matches Some(p) ==> r == u64_text_value(p@),
    {
        match param {
            Some(p) => parse_u64(p),
            None => None,
        }
    }

    /// The store key of the certified digest that the answer for `block_number` needs,
    /// if it needs one.
    pub fn certified_key_needed(block_number: u64, last_checked: u64) -> (r: Option<Vec<u8>>)
        ensures
            (block_number < last_checked && block_number > 0) ==> (r matches Some(k) && k@
                == block_root_hash_key(block_number)),
            !(block_number < last_checked && block_number > 0) ==> r is None,
    {
        if block_number < last_checked && block_number > 0 {
            Some(DatabaseService::block_root_hash_key(block_number))
        } else {
            None
        }
    }

    /// The body of the answer: the current digest in hex for the current position, the
    /// certified digest in hex for an earlier one, or a message saying why there is none.
    pub fn handle_root_hash(
        block_number: u64,
        last_checked: u64,
        current_root: &Option<Vec<u8>>,
        certified: &Option<Vec<u8>>,
    ) -> (r: String)
        ensures
            r@ == root_hash_response(
                block_number,
                last_checked,
                opt_bytes(*current_root),
                opt_bytes(*certified),
            ),
    {
        if block_number == last_checked {
            match current_root {
                Some(hash) => encode_hex(hash.as_slice()),
                None => String::new(),
            }
        } else if block_number < last_checked && block_number > 0 {
            match certified {
                Some(hash) => encode_hex(hash.as_slice()),
                None => {
                    let mut message = String::from_str(
                        "Block root hash not found for block number: ",
                    );
                    let digits = u64_decimal(block_number);
                    message.append(digits.as_str());
                    message
                },
            }
        } else {
            String::from_str("Invalid block number")
        }
    }
}

} // verus!
