use crate::balance::{is_minimal_be, Balance};
use crate::quorum::slices_equal;
use crate::codec::{be_prefix_value, be_value, decimal_text, u64_decimal, u64_from_be, u64_to_be};
use vstd::prelude::*;
use vstd::slice::slice_to_vec;
use vstd::string::StringExecFns;
use vstd::utf8::encode_utf8;

verus! {

/// Key under which the last processed position is kept.
pub const LAST_CHECKED_BLOCK_KEY: &'static str = "lastCheckedBlock";

/// Prefix of the keys under which certified digests are kept, one per position.
pub const BLOCK_ROOT_PREFIX: &'static str = "blockRootHash_";

/// One operation on the ledger store, in the order the ledger issues them.
#[derive(Debug, PartialEq, Eq)]
pub enum StoreCommand {
    /// Write `value` under `key`; unsaved until the next flush.
    Put { key: Vec<u8>, value: Vec<u8> },
    /// Make every unsaved write durable.
    Flush,
    /// Discard every write since the last flush.
    Revert,
}

/// The store as the ledger sees it: its current contents, and the contents as of
/// the last flush.
pub struct StoreState {
    pub data: Map<Seq<u8>, Seq<u8>>,
    pub saved: Map<Seq<u8>, Seq<u8>>,
}

pub open spec fn command_effect(s: StoreState, c: StoreCommand) -> StoreState {
    match c {
        StoreCommand::Put { key, value } => StoreState {
            data: s.data.insert(key@, value@),
            saved: s.saved,
        },
        StoreCommand::Flush => StoreState { data: s.data, saved: s.data },
        StoreCommand::Revert => StoreState { data: s.saved, saved: s.saved },
    }
}

/// The store after the commands `cs`, in order, starting from `s`.
pub open spec fn commands_effect(s: StoreState, cs: Seq<StoreCommand>) -> StoreState
    decreases cs.len(),
{
    if cs.len() == 0 {
        s
    } else {
        command_effect(commands_effect(s, cs.drop_last()), cs.last())
    }
}

pub open spec fn is_put(c: StoreCommand, key: Seq<u8>, value: Seq<u8>) -> bool {
    c matches StoreCommand::Put { key: k, value: v } && k@ == key && v@ == value
}

/// A write of a balance record: the shortest big-endian bytes of `amount`.
pub open spec fn is_balance_put(c: StoreCommand, address: Seq<u8>, amount: nat) -> bool {
    c matches StoreCommand::Put { key: k, value: v } && k@ == address && be_value(v@) == amount
        && is_minimal_be(v@)
}

/// The two writes of a transfer: the sender's new balance, then the receiver's.
pub open spec fn transfer_writes(
    cs: Seq<StoreCommand>,
    sender: Seq<u8>,
    receiver: Seq<u8>,
    sender_after: nat,
    receiver_after: nat,
) -> bool {
    &&& cs.len() == 2
    &&& is_balance_put(cs[0], sender, sender_after)
    &&& is_balance_put(cs[1], receiver, receiver_after)
}

/// A write of the last processed position: eight big-endian bytes.
pub open spec fn is_position_put(c: StoreCommand, block_number: u64) -> bool {
    c matches StoreCommand::Put { key: k, value: v } && k@ == last_checked_block_key()
        && v@.len() == 8 && be_value(v@) == block_number
}

pub open spec fn last_checked_block_key() -> Seq<u8> {
    encode_utf8(LAST_CHECKED_BLOCK_KEY@)
}

pub open spec fn block_root_hash_key(block_number: u64) -> Seq<u8> {
    encode_utf8(BLOCK_ROOT_PREFIX@ + decimal_text(block_number as nat))
}

/// Balance held by a stored record; no record is a zero balance.
pub open spec fn record_balance(record: Option<Seq<u8>>) -> nat {
    match record {
        Some(v) => be_value(v),
        None => 0,
    }
}

/// Last processed position held by a stored record: the first eight bytes, big-endian;
/// zero where there is no record or a shorter one.
pub open spec fn record_position(record: Option<Seq<u8>>) -> u64 {
    match record {
        Some(v) => if v.len() >= 8 {
            be_prefix_value(v, 8) as u64
        } else {
            0
        },
        None => 0,
    }
}

pub open spec fn lookup(m: Map<Seq<u8>, Seq<u8>>, key: Seq<u8>) -> Option<Seq<u8>> {
    if m.contains_key(key) {
        Some(m[key])
    } else {
        None
    }
}

/// Balance of `address` in the store contents `m`.
pub open spec fn balance_in(m: Map<Seq<u8>, Seq<u8>>, address: Seq<u8>) -> nat {
    record_balance(lookup(m, address))
}

/// Last processed position in the store contents `m`.
pub open spec fn last_checked_in(m: Map<Seq<u8>, Seq<u8>>) -> u64 {
    record_position(lookup(m, last_checked_block_key()))
}

/// Certified digest of `block_number` in the store contents `m`.
pub open spec fn certified_in(m: Map<Seq<u8>, Seq<u8>>, block_number: u64) -> Option<Seq<u8>> {
    lookup(m, block_root_hash_key(block_number))
}

pub open spec fn opt_bytes(o: Option<Vec<u8>>) -> Option<Seq<u8>> {
    match o {
        Some(v) => Some(v@),
        None => None,
    }
}

/// Why the ledger refused an operation.
#[derive(Debug, PartialEq, Eq, Structural)]
pub enum InvalidArgument {
    EmptyAddress,
    EmptySender,
    EmptyReceiver,
    EmptyRootHash,
}

/// The ledger: balances, the last processed position and certified digests, kept in
/// a key-value store that computes a digest of its contents. The ledger decides what
/// to write and queues the store commands; whoever holds the store carries them out
/// in order and hands back what it reads.
pub struct DatabaseService {
    commands: Vec<StoreCommand>,
}

impl DatabaseService {
    /// Store commands issued and not yet taken.
    pub closed spec fn pending(&self) -> Seq<StoreCommand> {
        self.commands@
    }

    pub fn new() -> (r: DatabaseService)
        ensures
            r.pending() == Seq::<StoreCommand>::empty(),
    {
        DatabaseService { commands: Vec::new() }
    }

    /// Hands over the queued store commands, oldest first.
    pub fn take_commands(&mut self) -> (r: Vec<StoreCommand>)
        ensures
            r@ == old(self).pending(),
            final(self).pending() == Seq::<StoreCommand>::empty(),
    {
        let mut taken: Vec<StoreCommand> = Vec::new();
        std::mem::swap(&mut taken, &mut self.commands);
        taken
    }

    /// Store key of the last processed position.
    pub fn last_checked_block_key() -> (r: Vec<u8>)
        ensures
            r@ == last_checked_block_key(),
    {
        slice_to_vec(LAST_CHECKED_BLOCK_KEY.as_bytes())
    }

    /// Store key of the certified digest of `block_number`.
    pub fn block_root_hash_key(block_number: u64) -> (r: Vec<u8>)
        ensures
            r@ == block_root_hash_key(block_number),
    {
        let mut text = String::from_str(BLOCK_ROOT_PREFIX);
        let digits = u64_decimal(block_number);
        text.append(digits.as_str());
        slice_to_vec(text.as_str().as_bytes())
    }

    /// Balance held by the stored record of `address` (`stored`, as read from the store).
    pub fn get_balance(address: &[u8], stored: &Option<Vec<u8>>) -> (r: Result<
        Balance,
        InvalidArgument,
    >)
        ensures
            address@.len() == 0 ==> r == Err::<Balance, InvalidArgument>(
                InvalidArgument::EmptyAddress,
            ),
            address@.len() > 0 ==> (r matches Ok(b) && b@ == record_balance(opt_bytes(*stored))),
    {
        if address.len() == 0 {
            return Err(InvalidArgument::EmptyAddress);
        }
        match stored {
            Some(bytes) => Ok(Balance::from_be_bytes(bytes.as_slice())),
            None => Ok(Balance::zero()),
        }
    }

    /// Overwrites the balance of `address`.
    pub fn set_balance(&mut self, address: &[u8], balance: &Balance) -> (r: Result<(), InvalidArgument>)
        ensures
            address@.len() == 0 ==> r == Err::<(), InvalidArgument>(InvalidArgument::EmptyAddress)
                && final(self).pending() == old(self).pending(),
            address@.len() > 0 ==> r is Ok && final(self).pending().len() == old(self).pending().len()
                + 1 && final(self).pending().drop_last() == old(self).pending() && is_balance_put(
                final(self).pending().last(),
                address@,
                balance@,
            ),
    {
        if address.len() == 0 {
            return Err(InvalidArgument::EmptyAddress);
        }
        let value = balance.to_be_bytes();
        self.commands.push(StoreCommand::Put { key: slice_to_vec(address), value });
        proof {
            assert(self.commands@.drop_last() =~= old(self).commands@);
        }
        Ok(())
    }

    /// Moves `amount` from `sender` to `receiver` (their stored records given), unless
    /// the sender holds less. Insufficient funds is an answer, `Ok(false)`, not an error.
    /// The two writes come out as one pair; a transfer to oneself changes nothing.
    pub fn transfer(
        &mut self,
        sender: &[u8],
        receiver: &[u8],
        amount: &Balance,
        sender_stored: &Option<Vec<u8>>,
        receiver_stored: &Option<Vec<u8>>,
    ) -> (r: Result<bool, InvalidArgument>)
        ensures
            sender@.len() == 0 ==> r == Err::<bool, InvalidArgument>(InvalidArgument::EmptySender),
            sender@.len() > 0 && receiver@.len() == 0 ==> r == Err::<bool, InvalidArgument>(
                InvalidArgument::EmptyReceiver,
            ),
            sender@.len() > 0 && receiver@.len() > 0 ==> r == Ok::<bool, InvalidArgument>(
                amount@ <= record_balance(opt_bytes(*sender_stored)),
            ),
            !(r == Ok::<bool, InvalidArgument>(true) && sender@ != receiver@) ==> final(self).pending()
                == old(self).pending(),
            r == Ok::<bool, InvalidArgument>(true) && sender@ != receiver@ ==> {
                let n = old(self).pending().len() as int;
                &&& final(self).pending().subrange(0, n) == old(self).pending()
                &&& transfer_writes(
                    final(self).pending().skip(n),
                    sender@,
                    receiver@,
                    (record_balance(opt_bytes(*sender_stored)) - amount@) as nat,
                    record_balance(opt_bytes(*receiver_stored)) + amount@,
                )
            },
    {
        if sender.len() == 0 {
            return Err(InvalidArgument::EmptySender);
        }
        if receiver.len() == 0 {
            return Err(InvalidArgument::EmptyReceiver);
        }
        let sender_balance = match sender_stored {
            Some(bytes) => Balance::from_be_bytes(bytes.as_slice()),
            None => Balance::zero(),
        };
        if sender_balance.less_than(amount) {
            return Ok(false);
        }
        if slices_equal(sender, receiver) {
            return Ok(true);
        }
        let receiver_balance = match receiver_stored {
            Some(bytes) => Balance::from_be_bytes(bytes.as_slice()),
            None => Balance::zero(),
        };
        let sender_after = sender_balance.minus(amount);
        let receiver_after = receiver_balance.plus(amount);
        let ghost n = old(self).commands@.len() as int;
        self.commands.push(
            StoreCommand::Put { key: slice_to_vec(sender), value: sender_after.to_be_bytes() },
        );
        self.commands.push(
            StoreCommand::Put { key: slice_to_vec(receiver), value: receiver_after.to_be_bytes() },
        );
        proof {
            assert(self.commands@.subrange(0, n) =~= old(self).commands@);
            assert(self.commands@.skip(n).len() == 2);
        }
        Ok(true)
    }

    /// The last processed position held by its stored record (`stored`, as read).
    pub fn get_last_checked_block(stored: &Option<Vec<u8>>) -> (r: u64)
        ensures
            r == record_position(opt_bytes(*stored)),
    {
        match stored {
            Some(bytes) => if bytes.len() >= 8 {
                u64_from_be(bytes.as_slice())
            } else {
                0
            },
            None => 0,
        }
    }

    /// Records `block_number` as the last processed position (unsaved until a flush).
    pub fn set_last_checked_block(&mut self, block_number: u64)
        ensures
            final(self).pending() == old(self).pending().push(final(self).pending().last()),
            is_position_put(final(self).pending().last(), block_number),
    {
        let value = u64_to_be(block_number);
        self.commands.push(
            StoreCommand::Put { key: DatabaseService::last_checked_block_key(), value },
        );
    }

    /// Records `root_hash` as the certified digest of `block_number`; an empty digest
    /// is refused.
    pub fn set_block_root_hash(&mut self, block_number: u64, root_hash: &[u8]) -> (r: Result<
        (),
        InvalidArgument,
    >)
        ensures
            root_hash@.len() == 0 ==> r == Err::<(), InvalidArgument>(InvalidArgument::EmptyRootHash)
                && final(self).pending() == old(self).pending(),
            root_hash@.len() > 0 ==> r is Ok && final(self).pending() == old(self).pending().push(
                final(self).pending().last(),
            ) && is_put(
                final(self).pending().last(),
                block_root_hash_key(block_number),
                root_hash@,
            ),
    {
        if root_hash.len() == 0 {
            return Err(InvalidArgument::EmptyRootHash);
        }
        self.commands.push(
            StoreCommand::Put {
                key: DatabaseService::block_root_hash_key(block_number),
                value: slice_to_vec(root_hash),
            },
        );
        Ok(())
    }

    /// Makes every write so far durable.
    pub fn flush(&mut self)
        ensures
            final(self).pending() == old(self).pending().push(StoreCommand::Flush),
    {
        self.commands.push(StoreCommand::Flush);
    }

    /// Discards every write since the last flush.
    pub fn revert_unsaved_changes(&mut self)
        ensures
            final(self).pending() == old(self).pending().push(StoreCommand::Revert),
    {
        self.commands.push(StoreCommand::Revert);
    }
}

/// A transfer of `amount` between two distinct accounts, carried out by its two
/// writes, leaves the sender `amount` poorer and the receiver `amount` richer, keeps
/// the sum of the two balances, and touches no other record and nothing durable.
pub proof fn lemma_transfer_moves_amount(
    s: StoreState,
    sender: Seq<u8>,
    receiver: Seq<u8>,
    amount: nat,
    cs: Seq<StoreCommand>,
)
    requires
        sender != receiver,
        amount <= balance_in(s.data, sender),
        transfer_writes(
            cs,
            sender,
            receiver,
            (balance_in(s.data, sender) - amount) as nat,
            balance_in(s.data, receiver) + amount,
        ),
    ensures
        balance_in(commands_effect(s, cs).data, sender) == balance_in(s.data, sender) - amount,
        balance_in(commands_effect(s, cs).data, receiver) == balance_in(s.data, receiver) + amount,
        balance_in(commands_effect(s, cs).data, sender) + balance_in(
            commands_effect(s, cs).data,
            receiver,
        ) == balance_in(s.data, sender) + balance_in(s.data, receiver),
        forall|k: Seq<u8>|
            k != sender && k != receiver ==> lookup(commands_effect(s, cs).data, k) == lookup(
                s.data,
                k,
            ),
        commands_effect(s, cs).saved == s.saved,
{
    assert(cs.drop_last().drop_last() =~= Seq::<StoreCommand>::empty());
    assert(cs.drop_last() =~= seq![cs[0]]);
    reveal_with_fuel(commands_effect, 3);
}

} // verus!
