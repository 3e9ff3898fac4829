//! What holds of every ledger: appending keeps a chain valid, accepted blocks
//! are sealed, insolvent transfers are refused, and a change to a sealed block
//! shows unless SHA-256 collides.

use vstd::prelude::*;
use crate::balances::{
    balance_of, ledger_balances, lemma_replay_push, lemma_single_transaction, transfer,
};
use crate::base16::lemma_hex_string_injective;
use crate::block::{
    block_content, block_transactions, lemma_content_tells_amount, lemma_content_tells_nonce,
    lemma_content_tells_timestamp, reward_transaction, sealed, BlockView, BLOCK_REWARD,
};
use crate::blockchain::{
    append_outcome, block_valid_at, chain_valid, genesis_outcome, well_formed, AppendError,
    BlockchainView,
};
use crate::digest::sha256;
use crate::transaction::{coinbase, TransactionView};

verus! {

/// Two different contents with the same SHA-256 digest.
pub open spec fn collide(a: Seq<u8>, b: Seq<u8>) -> bool {
    a != b && sha256(a) == sha256(b)
}

/// The transaction that a block appended to `before` holds.
pub open spec fn appended_transaction(
    before: BlockchainView,
    supplied: Option<TransactionView>,
) -> TransactionView {
    block_transactions(before.reward_address, supplied)[0]
}

/// A transfer between two different accounts takes the amount from the
/// sender, gives it to the recipient, and leaves every other account alone.
pub proof fn lemma_transfer_moves_amount(
    balances: Map<Seq<char>, int>,
    tx: TransactionView,
    other: Seq<char>,
)
    requires
        tx.from != tx.to,
        other != tx.from,
        other != tx.to,
    ensures
        balance_of(transfer(balances, tx), tx.from) == balance_of(balances, tx.from) - tx.amount,
        balance_of(transfer(balances, tx), tx.to) == balance_of(balances, tx.to) + tx.amount,
        balance_of(transfer(balances, tx), other) == balance_of(balances, other),
        transfer(balances, tx).contains_key(other) == balances.contains_key(other),
{
}

/// A transfer to oneself leaves every balance as it was.
pub proof fn lemma_transfer_to_oneself(
    balances: Map<Seq<char>, int>,
    tx: TransactionView,
    account: Seq<char>,
)
    requires
        tx.from == tx.to,
    ensures
        balance_of(transfer(balances, tx), account) == balance_of(balances, account),
{
}

/// A fresh ledger is well-formed and valid, its genesis block is sealed, and
/// its balances are the reward, taken from the issuer and given to the miner.
pub proof fn lemma_fresh_ledger(timestamp: Seq<char>, miner: Seq<char>, ledger: BlockchainView)
    requires
        genesis_outcome(timestamp, miner, Some(ledger)),
    ensures
        well_formed(ledger),
        chain_valid(ledger.chain, ledger.difficulty),
        sealed(ledger.chain[0], ledger.difficulty),
        ledger_balances(ledger.chain) == transfer(Map::empty(), reward_transaction(miner)),
        miner != coinbase() ==> balance_of(ledger_balances(ledger.chain), miner) == BLOCK_REWARD,
        miner != coinbase() ==> balance_of(ledger_balances(ledger.chain), coinbase())
            == -BLOCK_REWARD,
{
    let nothing = Map::<Seq<char>, int>::empty();
    let genesis = ledger.chain[0];
    assert(ledger.chain =~= Seq::<BlockView>::empty().push(genesis));
    lemma_replay_push(nothing, Seq::empty(), genesis);
    lemma_single_transaction(nothing, reward_transaction(miner));
}

/// Appending keeps a well-formed ledger well-formed and a valid chain valid,
/// whether the block is accepted or refused.
pub proof fn lemma_append_keeps_valid(
    before: BlockchainView,
    timestamp: Seq<char>,
    supplied: Option<TransactionView>,
    after: BlockchainView,
    result: Result<(), AppendError>,
)
    requires
        well_formed(before),
        append_outcome(before, timestamp, supplied, after, result),
    ensures
        well_formed(after),
        chain_valid(before.chain, before.difficulty) ==> chain_valid(
            after.chain,
            after.difficulty,
        ),
{
    if result is Ok {
        let block = after.chain.last();
        lemma_replay_push(Map::empty(), before.chain, block);
        assert forall|i: int| 0 <= i < after.chain.len() implies (#[trigger] after.chain[i]).index
            == i by {
            if i < before.chain.len() {
                assert(after.chain[i] == before.chain[i]);
            }
        }
        if chain_valid(before.chain, before.difficulty) {
            assert forall|i: int| 1 <= i < after.chain.len() implies #[trigger] block_valid_at(
                after.chain,
                i,
                after.difficulty,
            ) by {
                if i < before.chain.len() {
                    assert(block_valid_at(before.chain, i, before.difficulty));
                }
            }
        }
    }
}

/// Whether `ledger` can come of making a fresh ledger and then appending
/// `appends` times, each time accepted or refused.
pub open spec fn grown(ledger: BlockchainView, appends: nat) -> bool
    decreases appends,
{
    if appends == 0 {
        exists|timestamp: Seq<char>, miner: Seq<char>| #[trigger]
            genesis_outcome(timestamp, miner, Some(ledger))
    } else {
        exists|
            before: BlockchainView,
            timestamp: Seq<char>,
            supplied: Option<TransactionView>,
            result: Result<(), AppendError>,
        |
            grown(before, (appends - 1) as nat) && #[trigger] append_outcome(
                before,
                timestamp,
                supplied,
                ledger,
                result,
            )
    }
}

/// A ledger that is made fresh and then only appended to is well-formed and
/// valid. Its genesis block names the previous hash `"0"`, and every block of
/// it, the genesis block too, is sealed at the ledger's target: the stored
/// hash is the digest of the stored fields and has the leading zeros.
pub proof fn lemma_grown_ledger_valid(ledger: BlockchainView, appends: nat)
    requires
        grown(ledger, appends),
    ensures
        well_formed(ledger),
        chain_valid(ledger.chain, ledger.difficulty),
        ledger.chain[0].previous_hash == "0"@,
        forall|i: int|
            0 <= i < ledger.chain.len() ==> sealed(#[trigger] ledger.chain[i], ledger.difficulty),
    decreases appends,
{
    if appends == 0 {
        let (timestamp, miner) = choose|timestamp: Seq<char>, miner: Seq<char>| #[trigger]
            genesis_outcome(timestamp, miner, Some(ledger));
        lemma_fresh_ledger(timestamp, miner, ledger);
    } else {
        let (before, timestamp, supplied, result) = choose|
            before: BlockchainView,
            timestamp: Seq<char>,
            supplied: Option<TransactionView>,
            result: Result<(), AppendError>,
        |
            grown(before, (appends - 1) as nat) && #[trigger] append_outcome(
                before,
                timestamp,
                supplied,
                ledger,
                result,
            );
        lemma_grown_ledger_valid(before, (appends - 1) as nat);
        lemma_append_keeps_valid(before, timestamp, supplied, ledger, result);
        if result is Ok {
            assert forall|i: int| 0 <= i < ledger.chain.len() implies sealed(
                #[trigger] ledger.chain[i],
                ledger.difficulty,
            ) by {
                if i < before.chain.len() {
                    assert(ledger.chain[i] == before.chain[i]);
                }
            }
        }
    }
}

/// An accepted block stands at the end of the chain, numbered by its
/// position, linked to the block that was last, and sealed: its stored hash
/// is the digest of its fields and meets the target. The blocks before it are
/// as they were.
pub proof fn lemma_accepted_block_sealed(
    before: BlockchainView,
    timestamp: Seq<char>,
    supplied: Option<TransactionView>,
    after: BlockchainView,
)
    requires
        append_outcome(before, timestamp, supplied, after, Ok(())),
    ensures
        after.chain.drop_last() == before.chain,
        after.chain.last().index == before.chain.len(),
        after.chain.last().previous_hash == before.chain.last().hash,
        after.chain.last().transactions == seq![appended_transaction(before, supplied)],
        sealed(after.chain.last(), after.difficulty),
{
}

/// After an accepted block the balances are those before it with the block's
/// one transaction applied: the supplied transfer, or else the reward.
pub proof fn lemma_accepted_block_balances(
    before: BlockchainView,
    timestamp: Seq<char>,
    supplied: Option<TransactionView>,
    after: BlockchainView,
)
    requires
        append_outcome(before, timestamp, supplied, after, Ok(())),
    ensures
        ledger_balances(after.chain) == transfer(
            ledger_balances(before.chain),
            appended_transaction(before, supplied),
        ),
{
    let block = after.chain.last();
    lemma_replay_push(Map::empty(), before.chain, block);
    lemma_single_transaction(
        ledger_balances(before.chain),
        appended_transaction(before, supplied),
    );
}

/// A transfer whose sender, not the reward issuer, has a balance below the
/// amount is refused, and the ledger stays as it was.
pub proof fn lemma_insolvent_transfer_refused(
    before: BlockchainView,
    timestamp: Seq<char>,
    tx: TransactionView,
    after: BlockchainView,
    result: Result<(), AppendError>,
)
    requires
        append_outcome(before, timestamp, Some(tx), after, result),
        tx.from != coinbase(),
        balance_of(ledger_balances(before.chain), tx.from) < tx.amount,
    ensures
        result == Err::<(), AppendError>(AppendError::InvalidTransaction),
        after == before,
        after.chain.len() == before.chain.len(),
{
}

/// A transfer that is not validly signed is refused, unless it comes from
/// the reward issuer, and the ledger stays as it was.
pub proof fn lemma_unsigned_transfer_refused(
    before: BlockchainView,
    timestamp: Seq<char>,
    tx: TransactionView,
    after: BlockchainView,
    result: Result<(), AppendError>,
)
    requires
        append_outcome(before, timestamp, Some(tx), after, result),
        tx.from != coinbase(),
        !crate::transaction::signature_valid(tx),
    ensures
        result == Err::<(), AppendError>(AppendError::InvalidTransaction),
        after == before,
{
}

/// A block after the genesis block whose content is changed while its stored
/// hash is kept leaves the chain valid only if the old and the new content
/// collide.
pub proof fn lemma_changed_content_shows(
    chain: Seq<BlockView>,
    difficulty: nat,
    position: int,
    changed: BlockView,
)
    requires
        chain_valid(chain, difficulty),
        1 <= position < chain.len(),
        changed.hash == chain[position].hash,
        block_content(changed) != block_content(chain[position]),
    ensures
        chain_valid(chain.update(position, changed), difficulty) ==> collide(
            block_content(changed),
            block_content(chain[position]),
        ),
{
    let tampered = chain.update(position, changed);
    if chain_valid(tampered, difficulty) {
        assert(block_valid_at(chain, position, difficulty));
        assert(block_valid_at(tampered, position, difficulty));
        lemma_hex_string_injective(
            sha256(block_content(changed)),
            sha256(block_content(chain[position])),
        );
    }
}

/// Changing the timestamp of a block after the genesis block, with its stored
/// hash kept, makes the chain invalid unless SHA-256 collides.
pub proof fn lemma_changed_timestamp_shows(
    chain: Seq<BlockView>,
    difficulty: nat,
    position: int,
    timestamp: Seq<char>,
)
    requires
        chain_valid(chain, difficulty),
        1 <= position < chain.len(),
        timestamp != chain[position].timestamp,
    ensures
        chain_valid(
            chain.update(position, BlockView { timestamp, ..chain[position] }),
            difficulty,
        ) ==> collide(
            block_content(BlockView { timestamp, ..chain[position] }),
            block_content(chain[position]),
        ),
{
    let changed = BlockView { timestamp, ..chain[position] };
    if block_content(changed) == block_content(chain[position]) {
        lemma_content_tells_timestamp(chain[position], timestamp);
    }
    lemma_changed_content_shows(chain, difficulty, position, changed);
}

/// Changing the nonce of a block after the genesis block, with its stored
/// hash kept, makes the chain invalid unless SHA-256 collides.
pub proof fn lemma_changed_nonce_shows(
    chain: Seq<BlockView>,
    difficulty: nat,
    position: int,
    nonce: nat,
)
    requires
        chain_valid(chain, difficulty),
        1 <= position < chain.len(),
        nonce != chain[position].nonce,
    ensures
        chain_valid(chain.update(position, BlockView { nonce, ..chain[position] }), difficulty)
            ==> collide(
            block_content(BlockView { nonce, ..chain[position] }),
            block_content(chain[position]),
        ),
{
    let changed = BlockView { nonce, ..chain[position] };
    if block_content(changed) == block_content(chain[position]) {
        lemma_content_tells_nonce(chain[position], nonce);
    }
    lemma_changed_content_shows(chain, difficulty, position, changed);
}

/// A block with the amount of its transaction at `item` replaced.
pub open spec fn with_amount(block: BlockView, item: int, amount: nat) -> BlockView {
    BlockView {
        transactions: block.transactions.update(
            item,
            TransactionView { amount, ..block.transactions[item] },
        ),
        ..block
    }
}

/// Changing the amount of a transaction in a block after the genesis block,
/// with the stored hash kept, makes the chain invalid unless SHA-256 collides.
pub proof fn lemma_changed_amount_shows(
    chain: Seq<BlockView>,
    difficulty: nat,
    position: int,
    item: int,
    amount: nat,
)
    requires
        chain_valid(chain, difficulty),
        1 <= position < chain.len(),
        0 <= item < chain[position].transactions.len(),
        amount != chain[position].transactions[item].amount,
    ensures
        chain_valid(chain.update(position, with_amount(chain[position], item, amount)), difficulty)
            ==> collide(
            block_content(with_amount(chain[position], item, amount)),
            block_content(chain[position]),
        ),
{
    let changed = with_amount(chain[position], item, amount);
    if block_content(changed) == block_content(chain[position]) {
        lemma_content_tells_amount(chain[position], item, amount);
    }
    lemma_changed_content_shows(chain, difficulty, position, changed);
}

/// Changing the previous hash of a block after the genesis block makes the
/// chain invalid: the block no longer names the hash of its predecessor.
pub proof fn lemma_changed_previous_hash_shows(
    chain: Seq<BlockView>,
    difficulty: nat,
    position: int,
    previous_hash: Seq<char>,
)
    requires
        chain_valid(chain, difficulty),
        1 <= position < chain.len(),
        previous_hash != chain[position].previous_hash,
    ensures
        !chain_valid(
            chain.update(position, BlockView { previous_hash, ..chain[position] }),
            difficulty,
        ),
{
    let tampered = chain.update(position, BlockView { previous_hash, ..chain[position] });
    assert(block_valid_at(chain, position, difficulty));
    assert(!block_valid_at(tampered, position, difficulty));
}

} // verus!
