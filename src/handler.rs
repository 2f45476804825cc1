use crate::balance::{big_decimal_value, Balance};
use crate::codec::{decode_hex, hex_decoded, is_hex_text};
use crate::database_service::{
    block_root_hash_key, certified_in, command_effect, commands_effect, is_position_put,
    is_put, last_checked_block_key, DatabaseService, StoreCommand, StoreState,
};
use crate::quorum::{PeerReply, QuorumRound};
use vstd::prelude::*;
use vstd::string::StringExecFns;
use vstd::slice::slice_subrange;
use vstd::utf8::encode_utf8;

verus! {

/// The characters that `char::is_whitespace` accepts (Unicode White_Space).
pub open spec fn is_white_space(c: char) -> bool {
    ||| '\t' <= c <= '\r'
    ||| c == ' '
    ||| c == '\u{85}'
    ||| c == '\u{a0}'
    ||| c == '\u{1680}'
    ||| '\u{2000}' <= c <= '\u{200a}'
    ||| c == '\u{2028}'
    ||| c == '\u{2029}'
    ||| c == '\u{202f}'
    ||| c == '\u{205f}'
    ||| c == '\u{3000}'
}

pub open spec fn trim_start(s: Seq<char>) -> Seq<char>
    decreases s.len(),
{
    if s.len() > 0 && is_white_space(s[0]) {
        trim_start(s.drop_first())
    } else {
        s
    }
}

pub open spec fn trim_end(s: Seq<char>) -> Seq<char>
    decreases s.len(),
{
    if s.len() > 0 && is_white_space(s.last()) {
        trim_end(s.drop_last())
    } else {
        s
    }
}

/// Relies on `str::trim`: it drops leading and trailing white space, as
/// `char::is_whitespace` defines it.
#[verifier::external_body]
fn trim_text(s: &str) -> (r: &str)
    ensures
        r@ == trim_end(trim_start(s@)),
{
    s.trim()
}

/// Hex text with an optional `0x` in front; the prefix is dropped before decoding.
pub open spec fn without_0x(b: Seq<u8>) -> Seq<u8> {
    if b.len() >= 2 && b[0] == 48 && b[1] == 120 {
        b.skip(2)
    } else {
        b
    }
}

/// What a peer's reply body says: an empty body (after trimming) is no digest, hex
/// text is a digest, and anything else is an unusable reply.
pub fn peer_reply_from_body(body: &str) -> (r: PeerReply)
    ensures
        ({
            let t = trim_end(trim_start(body@));
            if t.len() == 0 {
                r is NoDigest
            } else if is_hex_text(encode_utf8(t)) {
                r matches PeerReply::Digest(d) && d@ == hex_decoded(encode_utf8(t))
            } else {
                r is Unreachable
            }
        }),
{
    let trimmed = trim_text(body);
    if trimmed.is_empty() {
        return PeerReply::NoDigest;
    }
    match decode_hex(trimmed.as_bytes()) {
        Some(d) => PeerReply::Digest(d),
        None => PeerReply::Unreachable,
    }
}

/// Whether the feed's position has moved past the last processed one, so that a
/// checkpoint is due.
pub fn checkpoint_due(last_checked: u64, current: u64) -> (r: bool)
    ensures
        r == (current > last_checked),
{
    current > last_checked
}

/// The validation round for a position, over `peer_count` peers; there is none to
/// run when the store has no digest.
pub fn start_round(peer_count: usize, local_root: Option<Vec<u8>>) -> (r: Option<QuorumRound>)
    requires
        peer_count <= usize::MAX / 2,
    ensures
        local_root is None <==> r is None,
        r matches Some(round) ==> round.total() == peer_count && round.asked() == 0
            && round.counted() == peer_count && round.matches() == 0 && round.local_root_view()
            == local_root->0@,
{
    match local_root {
        Some(root) => Some(QuorumRound::new(peer_count, root)),
        None => None,
    }
}

/// How a checkpoint ended.
#[derive(Debug, PartialEq, Eq, Structural)]
pub enum CheckpointOutcome {
    /// The store had no digest: nothing to certify.
    NoLocalRoot,
    /// Quorum agreed and the digest is now certified for the position.
    Certified,
    /// Quorum agreed; the position already had a certified digest, which stays.
    AlreadyCertified,
    /// Quorum was not reached: everything since the last flush is discarded.
    RolledBack,
}

/// Ends the checkpoint of `block_number` after its round (`certified_stored` is the
/// position's certified digest as read from the store): on quorum the local digest is
/// certified, unless one already is; without quorum the unsaved writes are reverted.
/// Either way the store is flushed after.
pub fn conclude_checkpoint(
    db: &mut DatabaseService,
    block_number: u64,
    round: &Option<QuorumRound>,
    certified_stored: &Option<Vec<u8>>,
) -> (r: CheckpointOutcome)
    requires
        round matches Some(rd) ==> rd.reached() || rd.asked() >= rd.total(),
    ensures
        round is None ==> r == CheckpointOutcome::NoLocalRoot && final(db).pending() == old(
            db,
        ).pending().push(StoreCommand::Flush),
        round matches Some(rd) && !rd.reached() ==> r == CheckpointOutcome::RolledBack
            && final(db).pending() == old(db).pending().push(StoreCommand::Revert).push(
            StoreCommand::Flush,
        ),
        round matches Some(rd) && rd.reached() && certified_stored is Some ==> r
            == CheckpointOutcome::AlreadyCertified && final(db).pending() == old(db).pending().push(
            StoreCommand::Flush,
        ),
        round matches Some(rd) && rd.reached() && certified_stored is None ==> r
            == CheckpointOutcome::Certified,
        round is Some && round->0.reached() && certified_stored is None
            && round->0.local_root_view().len() > 0 ==> ({
            let n = old(db).pending().len() as int;
            &&& final(db).pending().len() == n + 2
            &&& final(db).pending().subrange(0, n) == old(db).pending()
            &&& is_put(
                final(db).pending()[n],
                block_root_hash_key(block_number),
                round->0.local_root_view(),
            )
            &&& final(db).pending()[n + 1] == StoreCommand::Flush
        }),
{
    let outcome = match round {
        None => CheckpointOutcome::NoLocalRoot,
        Some(rd) => {
            if !rd.is_certified() {
                db.revert_unsaved_changes();
                CheckpointOutcome::RolledBack
            } else if certified_stored.is_some() {
                CheckpointOutcome::AlreadyCertified
            } else {
                let _ = db.set_block_root_hash(block_number, rd.local_root().as_slice());
                CheckpointOutcome::Certified
            }
        },
    };
    let ghost mid = db.pending();
    db.flush();
    proof {
        if let Some(rd) = round {
            if rd.reached() && certified_stored.is_none() && rd.local_root_view().len() > 0 {
                let n = old(db).pending().len() as int;
                assert(db.pending().subrange(0, n) =~= old(db).pending());
            }
        }
    }
    outcome
}

/// Writes that are not a flush keep the durable contents as they were.
pub proof fn lemma_unflushed_writes_keep_saved(s: StoreState, written: Seq<StoreCommand>)
    requires
        forall|i: int| 0 <= i < written.len() ==> !(#[trigger] written[i] is Flush),
    ensures
        commands_effect(s, written).saved == s.saved,
    decreases written.len(),
{
    if written.len() > 0 {
        assert(!(written[written.len() - 1] is Flush));
        lemma_unflushed_writes_keep_saved(s, written.drop_last());
    }
}

/// When a round ends without quorum, the revert and flush that close it bring the
/// store back to its contents at the last flush, whatever was written since
/// (balances and the last processed position alike), and leave the durable contents
/// as they were. In particular a store with no unsaved writes when the checkpoint
/// began is exactly as it was.
pub proof fn lemma_rollback_restores(s: StoreState, written: Seq<StoreCommand>)
    requires
        forall|i: int| 0 <= i < written.len() ==> !(#[trigger] written[i] is Flush),
    ensures
        commands_effect(s, written + seq![StoreCommand::Revert, StoreCommand::Flush]).data
            == s.saved,
        commands_effect(s, written + seq![StoreCommand::Revert, StoreCommand::Flush]).saved
            == s.saved,
        s.data == s.saved ==> commands_effect(
            s,
            written + seq![StoreCommand::Revert, StoreCommand::Flush],
        ).data == s.data,
{
    let all = written + seq![StoreCommand::Revert, StoreCommand::Flush];
    lemma_unflushed_writes_keep_saved(s, written);
    assert(all.drop_last().drop_last() =~= written);
    assert(all.drop_last().last() == StoreCommand::Revert);
    assert(all.last() == StoreCommand::Flush);
    let before = commands_effect(s, written);
    assert(commands_effect(s, all.drop_last()) == command_effect(before, StoreCommand::Revert));
    assert(commands_effect(s, all) == command_effect(
        commands_effect(s, all.drop_last()),
        StoreCommand::Flush,
    ));
}

/// The key of the last processed position is never the key of a certified digest.
pub proof fn lemma_position_key_differs(block_number: u64)
    ensures
        last_checked_block_key() != block_root_hash_key(block_number),
{
    reveal_strlit("lastCheckedBlock");
    reveal_strlit("blockRootHash_");
    let a = crate::database_service::LAST_CHECKED_BLOCK_KEY@;
    let b = crate::database_service::BLOCK_ROOT_PREFIX@ + crate::codec::decimal_text(
        block_number as nat,
    );
    assert(a[0] == 'l');
    assert(b[0] == 'b');
    assert(encode_utf8(a)[0] == 108u8) by {
        assert((108u32 & 0x7f) == 108u32) by (bit_vector);
    }
    assert(encode_utf8(b)[0] == 98u8) by {
        assert((98u32 & 0x7f) == 98u32) by (bit_vector);
    }
}

/// Validating again a position whose certified digest is already saved leaves that
/// digest in place, whatever the peers answer: the checkpoint writes the position
/// under its own key, then either only flushes or reverts and flushes.
pub proof fn lemma_recertification_keeps_digest(
    s: StoreState,
    block_number: u64,
    digest: Seq<u8>,
    position: u64,
    cs: Seq<StoreCommand>,
)
    requires
        certified_in(s.data, block_number) == Some(digest),
        certified_in(s.saved, block_number) == Some(digest),
        cs.len() >= 2,
        is_position_put(cs[0], position),
        cs.skip(1) == seq![StoreCommand::Flush] || cs.skip(1) == seq![
            StoreCommand::Revert,
            StoreCommand::Flush,
        ],
    ensures
        certified_in(commands_effect(s, cs).data, block_number) == Some(digest),
        certified_in(commands_effect(s, cs).saved, block_number) == Some(digest),
{
    lemma_position_key_differs(block_number);
    let first = seq![cs[0]];
    assert(commands_effect(s, first) == command_effect(s, cs[0])) by {
        assert(first.drop_last() =~= Seq::<StoreCommand>::empty());
        assert(first.last() == cs[0]);
        reveal_with_fuel(commands_effect, 2);
    }
    let after_put = command_effect(s, cs[0]);
    assert(certified_in(after_put.data, block_number) == Some(digest));
    assert(cs.skip(1)[0] == cs[1]);
    if cs.skip(1) == seq![StoreCommand::Flush] {
        assert(cs.skip(1).len() == 1);
        assert(cs.drop_last() =~= first);
        assert(cs.last() == StoreCommand::Flush);
    } else {
        assert(cs.skip(1).len() == 2);
        assert(cs.skip(1)[1] == cs[2]);
        assert(cs.drop_last().drop_last() =~= first);
        assert(cs.drop_last().last() == StoreCommand::Revert);
        assert(cs.last() == StoreCommand::Flush);
        assert(commands_effect(s, cs.drop_last()) == command_effect(after_put, StoreCommand::Revert));
    }
}

/// Lower-case form of a text, as `str::to_lowercase` gives it.
pub uninterp spec fn lower_of(s: Seq<char>) -> Seq<char>;

/// Relies on `str::to_lowercase`: its result depends on the characters alone.
#[verifier::external_body]
fn lowercase(s: &str) -> (r: String)
    ensures
        r@ == lower_of(s@),
{
    s.to_lowercase()
}

/// The `amount` field of a transaction payload, as found there.
pub enum AmountField {
    /// A string, to be read as a decimal number.
    Text(String),
    /// A non-negative integer literal.
    Whole(u64),
    /// Missing, or neither of the above.
    Unusable,
}

/// The fields of a transaction payload that the ledger reads.
pub struct Payload {
    pub action: Option<String>,
    pub amount: AmountField,
    pub receiver: Option<String>,
}

/// A transfer ready for the ledger.
pub struct TransferRequest {
    pub sender: Vec<u8>,
    pub receiver: Vec<u8>,
    pub amount: Balance,
}

/// Why a payload leads to no transfer.
#[derive(Debug, PartialEq, Eq, Structural)]
pub enum PayloadIssue {
    /// The action is not a transfer; such payloads are ignored.
    NotTransfer,
    BadAmount,
    MissingReceiver,
    BadSender,
    BadReceiver,
}

pub open spec fn amount_value(f: AmountField) -> Option<nat> {
    match f {
        AmountField::Text(t) => big_decimal_value(t@),
        AmountField::Whole(n) => Some(n as nat),
        AmountField::Unusable => None,
    }
}

pub open spec fn is_transfer_action(action: Option<String>) -> bool {
    action matches Some(a) && lower_of(a@) == "transfer"@
}

/// Address bytes written as hex text, with an optional `0x` in front.
pub open spec fn address_text(text: Seq<char>) -> Seq<u8> {
    without_0x(encode_utf8(text))
}

fn strip_0x(text: &str) -> (r: &[u8])
    ensures
        r@ == address_text(text@),
{
    let b = text.as_bytes();
    if b.len() >= 2 && b[0] == 48 && b[1] == 120 {
        slice_subrange(b, 2, b.len())
    } else {
        b
    }
}

/// Reads a transfer out of a payload sent by `sender_hex`. The action must be
/// `transfer` in any case; the amount a decimal string or a whole number; the
/// receiver and the sender hex text, with or without `0x`.
pub fn decode_transfer(sender_hex: &str, payload: &Payload) -> (r: Result<
    TransferRequest,
    PayloadIssue,
>)
    ensures
        !is_transfer_action(payload.action) ==> r == Err::<TransferRequest, PayloadIssue>(
            PayloadIssue::NotTransfer,
        ),
        is_transfer_action(payload.action) && amount_value(payload.amount) is None ==> r == Err::<
            TransferRequest,
            PayloadIssue,
        >(PayloadIssue::BadAmount),
        is_transfer_action(payload.action) && amount_value(payload.amount) is Some
            && payload.receiver is None ==> r == Err::<TransferRequest, PayloadIssue>(
            PayloadIssue::MissingReceiver,
        ),
        is_transfer_action(payload.action) && amount_value(payload.amount) is Some
            && payload.receiver is Some && !is_hex_text(address_text(sender_hex@)) ==> r == Err::<
            TransferRequest,
            PayloadIssue,
        >(PayloadIssue::BadSender),
        is_transfer_action(payload.action) && amount_value(payload.amount) is Some
            && payload.receiver is Some && is_hex_text(address_text(sender_hex@)) && !is_hex_text(
            address_text(payload.receiver->0@),
        ) ==> r == Err::<TransferRequest, PayloadIssue>(PayloadIssue::BadReceiver),
        r matches Ok(req) ==> {
            &&& is_transfer_action(payload.action)
            &&& amount_value(payload.amount) == Some(req.amount@)
            &&& payload.receiver is Some
            &&& is_hex_text(address_text(sender_hex@))
            &&& is_hex_text(address_text(payload.receiver->0@))
            &&& req.sender@ == hex_decoded(address_text(sender_hex@))
            &&& req.receiver@ == hex_decoded(address_text(payload.receiver->0@))
        },
        (is_transfer_action(payload.action) && amount_value(payload.amount) is Some
            && payload.receiver is Some && is_hex_text(address_text(sender_hex@)) && is_hex_text(
            address_text(payload.receiver->0@),
        )) ==> r is Ok,
{
    let is_transfer = match &payload.action {
        Some(a) => {
            let lowered = lowercase(a.as_str());
            let expected = String::from_str("transfer");
            lowered == expected
        },
        None => false,
    };
    if !is_transfer {
        return Err(PayloadIssue::NotTransfer);
    }
    let amount = match &payload.amount {
        AmountField::Text(t) => match Balance::parse_decimal(t.as_str()) {
            Some(b) => b,
            None => {
                return Err(PayloadIssue::BadAmount);
            },
        },
        AmountField::Whole(n) => Balance::from_u64(*n),
        AmountField::Unusable => {
            return Err(PayloadIssue::BadAmount);
        },
    };
    let receiver_hex = match &payload.receiver {
        Some(r) => r,
        None => {
            return Err(PayloadIssue::MissingReceiver);
        },
    };
    let sender = match decode_hex(strip_0x(sender_hex)) {
        Some(v) => v,
        None => {
            return Err(PayloadIssue::BadSender);
        },
    };
    let receiver = match decode_hex(strip_0x(receiver_hex.as_str())) {
        Some(v) => v,
        None => {
            return Err(PayloadIssue::BadReceiver);
        },
    };
    Ok(TransferRequest { sender, receiver, amount })
}

} // verus!
