//! Blocks: hash-linked containers of transactions, sealed by proof of work.

use vstd::prelude::*;
use crate::digest::{calculate_hash, digest_hex, has_leading_zeros, meets_difficulty};
use crate::text::{
    decimal, lemma_cancel_around, lemma_cancel_front, lemma_decimal_injective,
    lemma_utf8_injective, push_decimal, push_str, utf8,
};
use crate::transaction::{
    coinbase, lemma_rendering_tells_amount, transaction_rendering, Transaction, TransactionView,
};

verus! {

/// What a block without a supplied transaction pays to the miner.
pub const BLOCK_REWARD: u64 = 50;

/// The number of hexadecimal digits in a digest. No target above it can be met.
pub const DIGEST_DIGITS: usize = 64;

/// One block of the chain. Its fields are fixed when it is mined.
#[derive(Debug)]
pub struct Block {
    index: u64,
    timestamp: String,
    previous_hash: String,
    hash: String,
    nonce: u64,
    transactions: Vec<Transaction>,
}

/// A block as a mathematical value.
pub ghost struct BlockView {
    pub index: nat,
    pub timestamp: Seq<char>,
    pub previous_hash: Seq<char>,
    pub hash: Seq<char>,
    pub nonce: nat,
    pub transactions: Seq<TransactionView>,
}

/// The views of a sequence of transactions, in order.
pub open spec fn transaction_views(transactions: Seq<Transaction>) -> Seq<TransactionView> {
    Seq::new(transactions.len(), |i: int| transactions[i]@)
}

impl View for Block {
    type V = BlockView;

    closed spec fn view(&self) -> BlockView {
        BlockView {
            index: self.index as nat,
            timestamp: self.timestamp@,
            previous_hash: self.previous_hash@,
            hash: self.hash@,
            nonce: self.nonce as nat,
            transactions: transaction_views(self.transactions@),
        }
    }
}

/// The view of a block that may be absent.
pub open spec fn option_block_view(block: Option<Block>) -> Option<BlockView> {
    match block {
        Some(b) => Some(b@),
        None => None,
    }
}

/// The view of a transaction that may be absent.
pub open spec fn option_transaction_view(transaction: Option<Transaction>) -> Option<
    TransactionView,
> {
    match transaction {
        Some(tx) => Some(tx@),
        None => None,
    }
}

/// The reward transaction: `BLOCK_REWARD` from the issuer to `miner`, unsigned.
pub open spec fn reward_transaction(miner: Seq<char>) -> TransactionView {
    TransactionView {
        from: coinbase(),
        to: miner,
        amount: BLOCK_REWARD as nat,
        signature: None,
        public_key: None,
    }
}

/// What a new block holds: the supplied transaction alone, or else the reward.
pub open spec fn block_transactions(
    miner: Seq<char>,
    supplied: Option<TransactionView>,
) -> Seq<TransactionView> {
    match supplied {
        Some(tx) => seq![tx],
        None => seq![reward_transaction(miner)],
    }
}

/// The canonical texts of the transactions, separated by a comma and a space.
pub open spec fn list_items_rendering(transactions: Seq<TransactionView>) -> Seq<u8>
    decreases transactions.len(),
{
    if transactions.len() == 0 {
        Seq::empty()
    } else if transactions.len() == 1 {
        transaction_rendering(transactions[0])
    } else {
        list_items_rendering(transactions.drop_last()) + utf8(", "@) + transaction_rendering(
            transactions.last(),
        )
    }
}

/// The canonical text of a transaction list: the items in square brackets.
pub open spec fn list_rendering(transactions: Seq<TransactionView>) -> Seq<u8> {
    utf8("["@) + list_items_rendering(transactions) + utf8("]"@)
}

/// The text of the list items before the one at `position`, separator included.
pub open spec fn items_before(transactions: Seq<TransactionView>, position: int) -> Seq<u8> {
    if position == 0 {
        Seq::empty()
    } else {
        list_items_rendering(transactions.take(position)) + utf8(", "@)
    }
}

/// The text of the list items after the one at `position`, separators included.
pub open spec fn items_after(transactions: Seq<TransactionView>, position: int) -> Seq<u8>
    decreases transactions.len(),
{
    if transactions.len() == 0 || transactions.len() <= position + 1 {
        Seq::empty()
    } else {
        items_after(transactions.drop_last(), position) + utf8(", "@) + transaction_rendering(
            transactions.last(),
        )
    }
}

/// The text of the items is the text of one item between the texts of those
/// before it and of those after it.
pub proof fn lemma_items_around(transactions: Seq<TransactionView>, position: int)
    requires
        0 <= position < transactions.len(),
    ensures
        list_items_rendering(transactions) == items_before(transactions, position)
            + transaction_rendering(transactions[position]) + items_after(transactions, position),
    decreases transactions.len(),
{
    if position < transactions.len() - 1 {
        let shorter = transactions.drop_last();
        lemma_items_around(shorter, position);
        assert(shorter.take(position) =~= transactions.take(position));
    }
}

/// The texts around an item do not depend on the item.
pub proof fn lemma_items_around_unchanged(
    transactions: Seq<TransactionView>,
    position: int,
    item: TransactionView,
)
    requires
        0 <= position < transactions.len(),
    ensures
        items_before(transactions.update(position, item), position) == items_before(
            transactions,
            position,
        ),
        items_after(transactions.update(position, item), position) == items_after(
            transactions,
            position,
        ),
    decreases transactions.len(),
{
    let changed = transactions.update(position, item);
    assert(changed.take(position) =~= transactions.take(position));
    if transactions.len() > position + 1 {
        lemma_items_around_unchanged(transactions.drop_last(), position, item);
        assert(changed.drop_last() =~= transactions.drop_last().update(position, item));
    }
}

/// Two lists that differ in the amount of one transaction alone have
/// different canonical texts.
pub proof fn lemma_list_tells_amount(
    transactions: Seq<TransactionView>,
    position: int,
    amount: nat,
)
    requires
        0 <= position < transactions.len(),
        list_rendering(transactions) == list_rendering(
            transactions.update(
                position,
                TransactionView { amount, ..transactions[position] },
            ),
        ),
    ensures
        amount == transactions[position].amount,
{
    let item = transactions[position];
    let other = TransactionView { amount, ..item };
    let changed = transactions.update(position, other);
    lemma_cancel_around(
        utf8("["@),
        list_items_rendering(transactions),
        list_items_rendering(changed),
        utf8("]"@),
    );
    lemma_items_around(transactions, position);
    lemma_items_around(changed, position);
    lemma_items_around_unchanged(transactions, position, other);
    lemma_cancel_around(
        items_before(transactions, position),
        transaction_rendering(item),
        transaction_rendering(other),
        items_after(transactions, position),
    );
    lemma_rendering_tells_amount(item, amount);
}

/// The part of a block's hashed content that the nonce search leaves alone:
/// index, timestamp, transaction list and previous hash, in this order.
pub open spec fn block_preamble(
    index: nat,
    timestamp: Seq<char>,
    transactions: Seq<TransactionView>,
    previous_hash: Seq<char>,
) -> Seq<u8> {
    decimal(index) + utf8(timestamp) + list_rendering(transactions) + utf8(previous_hash)
}

/// The content that a block's hash is taken of: the preamble, then the nonce.
pub open spec fn block_content(block: BlockView) -> Seq<u8> {
    block_preamble(block.index, block.timestamp, block.transactions, block.previous_hash)
        + decimal(block.nonce)
}

/// A block is sealed when its stored hash is the digest of its content and
/// meets the target.
pub open spec fn sealed(block: BlockView, difficulty: nat) -> bool {
    &&& block.hash == digest_hex(block_content(block))
    &&& has_leading_zeros(block.hash, difficulty)
}

/// Whether `nonce` after `preamble` gives a digest that meets the target.
pub open spec fn solves(preamble: Seq<u8>, nonce: nat, difficulty: nat) -> bool {
    has_leading_zeros(digest_hex(preamble + decimal(nonce)), difficulty)
}

/// The outcome of the nonce search for the given block data. A target above
/// the length of a digest yields nothing. Otherwise the block carries the
/// least 64-bit nonce that solves, with the digest it gives, which has 64
/// characters, and there is no block only if no 64-bit nonce solves.
pub open spec fn mined(
    index: nat,
    timestamp: Seq<char>,
    transactions: Seq<TransactionView>,
    previous_hash: Seq<char>,
    difficulty: nat,
    outcome: Option<BlockView>,
) -> bool {
    let preamble = block_preamble(index, timestamp, transactions, previous_hash);
    if difficulty > DIGEST_DIGITS {
        outcome is None
    } else {
        match outcome {
            Some(block) => {
                &&& block.index == index
                &&& block.timestamp == timestamp
                &&& block.transactions == transactions
                &&& block.previous_hash == previous_hash
                &&& block.nonce <= u64::MAX
                &&& solves(preamble, block.nonce, difficulty)
                &&& forall|n: nat| n < block.nonce ==> !solves(preamble, n, difficulty)
                &&& block.hash == digest_hex(preamble + decimal(block.nonce))
                &&& block.hash.len() == DIGEST_DIGITS
            },
            None => forall|n: nat| n <= u64::MAX ==> !solves(preamble, n, difficulty),
        }
    }
}

/// Two blocks that differ in the timestamp alone have different contents.
pub proof fn lemma_content_tells_timestamp(block: BlockView, timestamp: Seq<char>)
    requires
        block_content(block) == block_content(BlockView { timestamp, ..block }),
    ensures
        timestamp == block.timestamp,
{
    let back = list_rendering(block.transactions) + utf8(block.previous_hash) + decimal(
        block.nonce,
    );
    let front = decimal(block.index);
    assert(block_content(block) =~= front + utf8(block.timestamp) + back);
    assert(block_content(BlockView { timestamp, ..block }) =~= front + utf8(timestamp) + back);
    lemma_cancel_around(front, utf8(block.timestamp), utf8(timestamp), back);
    lemma_utf8_injective(block.timestamp, timestamp);
}

/// Two blocks that differ in the nonce alone have different contents.
pub proof fn lemma_content_tells_nonce(block: BlockView, nonce: nat)
    requires
        block_content(block) == block_content(BlockView { nonce, ..block }),
    ensures
        nonce == block.nonce,
{
    lemma_cancel_front(
        block_preamble(block.index, block.timestamp, block.transactions, block.previous_hash),
        decimal(block.nonce),
        decimal(nonce),
    );
    lemma_decimal_injective(block.nonce, nonce);
}

/// Two blocks that differ in the previous hash alone have different contents.
pub proof fn lemma_content_tells_previous_hash(block: BlockView, previous_hash: Seq<char>)
    requires
        block_content(block) == block_content(BlockView { previous_hash, ..block }),
    ensures
        previous_hash == block.previous_hash,
{
    let front = decimal(block.index) + utf8(block.timestamp) + list_rendering(block.transactions);
    let back = decimal(block.nonce);
    lemma_cancel_around(front, utf8(block.previous_hash), utf8(previous_hash), back);
    lemma_utf8_injective(block.previous_hash, previous_hash);
}

/// Two blocks that differ in the amount of one transaction alone have
/// different contents.
pub proof fn lemma_content_tells_amount(block: BlockView, position: int, amount: nat)
    requires
        0 <= position < block.transactions.len(),
        block_content(block) == block_content(
            BlockView {
                transactions: block.transactions.update(
                    position,
                    TransactionView { amount, ..block.transactions[position] },
                ),
                ..block
            },
        ),
    ensures
        amount == block.transactions[position].amount,
{
    let changed = block.transactions.update(
        position,
        TransactionView { amount, ..block.transactions[position] },
    );
    let other = BlockView { transactions: changed, ..block };
    let front = decimal(block.index) + utf8(block.timestamp);
    let back = utf8(block.previous_hash) + decimal(block.nonce);
    assert(block_content(block) =~= front + list_rendering(block.transactions) + back);
    assert(block_content(other) =~= front + list_rendering(changed) + back);
    lemma_cancel_around(front, list_rendering(block.transactions), list_rendering(changed), back);
    lemma_list_tells_amount(block.transactions, position, amount);
}

/// A mined block is sealed at the target it was mined for.
pub proof fn lemma_mined_is_sealed(
    index: nat,
    timestamp: Seq<char>,
    transactions: Seq<TransactionView>,
    previous_hash: Seq<char>,
    difficulty: nat,
    block: BlockView,
)
    requires
        mined(index, timestamp, transactions, previous_hash, difficulty, Some(block)),
    ensures
        sealed(block, difficulty),
{
}

/// Appends the canonical text of the transaction list to `buf`.
pub fn render_list(buf: &mut Vec<u8>, transactions: &Vec<Transaction>)
    ensures
        final(buf)@ == old(buf)@ + list_rendering(transaction_views(transactions@)),
{
    let ghost before = buf@;
    let ghost views = transaction_views(transactions@);
    push_str(buf, "[");
    let mut i: usize = 0;
    while i < transactions.len()
        invariant
            i <= transactions.len(),
            views == transaction_views(transactions@),
            buf@ == before + utf8("["@) + list_items_rendering(views.take(i as int)),
        decreases transactions.len() - i,
    {
        if i > 0 {
            push_str(buf, ", ");
        }
        transactions[i].render(buf);
        proof {
            let done = views.take(i + 1);
            assert(done.drop_last() =~= views.take(i as int));
            assert(buf@ =~= before + utf8("["@) + list_items_rendering(done));
        }
        i += 1;
    }
    push_str(buf, "]");
    proof {
        assert(views.take(i as int) =~= views);
    }
}

impl Clone for Block {
    fn clone(&self) -> (copy: Self)
        ensures
            copy@ == self@,
    {
        let mut transactions: Vec<Transaction> = Vec::new();
        let mut i: usize = 0;
        while i < self.transactions.len()
            invariant
                i <= self.transactions.len(),
                transactions@.len() == i,
                forall|j: int| 0 <= j < i ==> transactions@[j] == self.transactions@[j],
            decreases self.transactions.len() - i,
        {
            transactions.push(self.transactions[i].clone());
            i += 1;
        }
        assert(transaction_views(transactions@) =~= transaction_views(self.transactions@));
        Block {
            index: self.index,
            timestamp: self.timestamp.clone(),
            previous_hash: self.previous_hash.clone(),
            hash: self.hash.clone(),
            nonce: self.nonce,
            transactions,
        }
    }
}

/// Calls `chrono::Utc::now` and formats the instant with `to_rfc3339`. The
/// text depends on the clock, so nothing is said of it.
#[verifier::external_body]
pub(crate) fn current_timestamp() -> String {
    chrono::Utc::now().to_rfc3339()
}

impl Block {
    /// Puts a block together from stored fields, checking nothing.
    pub fn from_parts(
        index: u64,
        timestamp: String,
        previous_hash: String,
        hash: String,
        nonce: u64,
        transactions: Vec<Transaction>,
    ) -> (block: Block)
        ensures
            block@ == (BlockView {
                index: index as nat,
                timestamp: timestamp@,
                previous_hash: previous_hash@,
                hash: hash@,
                nonce: nonce as nat,
                transactions: transaction_views(transactions@),
            }),
    {
        Block { index, timestamp, previous_hash, hash, nonce, transactions }
    }

    /// The position of the block in its chain.
    pub fn index(&self) -> (index: u64)
        ensures
            index == self@.index,
    {
        self.index
    }

    /// The time at which mining of the block began.
    pub fn timestamp(&self) -> (timestamp: &String)
        ensures
            timestamp@ == self@.timestamp,
    {
        &self.timestamp
    }

    /// The stored hash of the block before this one.
    pub fn previous_hash(&self) -> (previous_hash: &String)
        ensures
            previous_hash@ == self@.previous_hash,
    {
        &self.previous_hash
    }

    /// The stored hash of the block.
    pub fn hash(&self) -> (hash: &String)
        ensures
            hash@ == self@.hash,
    {
        &self.hash
    }

    /// The nonce that the search found.
    pub fn nonce(&self) -> (nonce: u64)
        ensures
            nonce == self@.nonce,
    {
        self.nonce
    }

    /// The transactions of the block, in the order in which they are hashed.
    pub fn transactions(&self) -> (transactions: &Vec<Transaction>)
        ensures
            transaction_views(transactions@) == self@.transactions,
    {
        &self.transactions
    }

    /// The bytes of the block's content up to the nonce.
    fn preamble(
        index: u64,
        timestamp: &String,
        transactions: &Vec<Transaction>,
        previous_hash: &String,
    ) -> (bytes: Vec<u8>)
        ensures
            bytes@ == block_preamble(
                index as nat,
                timestamp@,
                transaction_views(transactions@),
                previous_hash@,
            ),
    {
        let mut bytes: Vec<u8> = Vec::new();
        push_decimal(&mut bytes, index);
        push_str(&mut bytes, timestamp.as_str());
        render_list(&mut bytes, transactions);
        push_str(&mut bytes, previous_hash.as_str());
        bytes
    }

    /// Recomputes the hash of the block from its stored fields.
    pub fn compute_hash(&self) -> (hash: String)
        ensures
            hash@ == digest_hex(block_content(self@)),
    {
        let mut content = Block::preamble(
            self.index,
            &self.timestamp,
            &self.transactions,
            &self.previous_hash,
        );
        push_decimal(&mut content, self.nonce);
        calculate_hash(content.as_slice())
    }

    /// Whether the stored hash is the digest of the stored fields and meets
    /// the target of `difficulty` leading zeros.
    pub fn is_sealed(&self, difficulty: usize) -> (yes: bool)
        ensures
            yes == sealed(self@, difficulty as nat),
    {
        let hash = self.compute_hash();
        self.hash == hash && meets_difficulty(hash.as_str(), difficulty)
    }

    /// Mines a block with the given timestamp. The block holds `transaction`
    /// alone if one is supplied, and else the reward for `miner_address`. The
    /// search tries the nonces from zero upwards and stops at the first whose
    /// digest meets the target.
    pub fn mine(
        index: u64,
        timestamp: String,
        miner_address: &str,
        previous_hash: String,
        difficulty: usize,
        transaction: Option<Transaction>,
    ) -> (block: Option<Block>)
        ensures
            mined(
                index as nat,
                timestamp@,
                block_transactions(
                    miner_address@,
                    option_transaction_view(transaction),
                ),
                previous_hash@,
                difficulty as nat,
                option_block_view(block),
            ),
    {
        if difficulty > DIGEST_DIGITS {
            return None;
        }
        let mut transactions: Vec<Transaction> = Vec::new();
        match transaction {
            Some(supplied) => {
                transactions.push(supplied);
            },
            None => {
                transactions.push(
                    Transaction {
                        from: "COINBASE".to_owned(),
                        to: miner_address.to_owned(),
                        amount: BLOCK_REWARD,
                        signature: None,
                        public_key: None,
                    },
                );
            },
        }
        let ghost views = transaction_views(transactions@);
        let preamble = Block::preamble(index, &timestamp, &transactions, &previous_hash);
        let mut content: Vec<u8> = Vec::new();
        let mut nonce: u64 = 0;
        loop
            invariant
                difficulty <= DIGEST_DIGITS,
                views == transaction_views(transactions@),
                views == block_transactions(miner_address@, option_transaction_view(transaction)),
                preamble@ == block_preamble(index as nat, timestamp@, views, previous_hash@),
                forall|n: nat| n < nonce ==> !solves(preamble@, n, difficulty as nat),
            decreases u64::MAX - nonce,
        {
            content.clear();
            content.extend_from_slice(preamble.as_slice());
            push_decimal(&mut content, nonce);
            assert(content@ =~= preamble@ + decimal(nonce as nat));
            let hash = calculate_hash(content.as_slice());
            if meets_difficulty(hash.as_str(), difficulty) {
                return Some(Block { index, timestamp, previous_hash, hash, nonce, transactions });
            }
            if nonce == u64::MAX {
                return None;
            }
            nonce += 1;
        }
    }

    /// Mines a block stamped with the current time.
    pub fn new(
        index: u64,
        miner_address: &str,
        previous_hash: String,
        difficulty: usize,
        transaction: Option<Transaction>,
    ) -> (block: Option<Block>)
        ensures
            exists|timestamp: Seq<char>|
                #[trigger] mined(
                    index as nat,
                    timestamp,
                    block_transactions(
                        miner_address@,
                        option_transaction_view(transaction),
                    ),
                    previous_hash@,
                    difficulty as nat,
                    option_block_view(block),
                ),
    {
        let timestamp = current_timestamp();
        Block::mine(index, timestamp, miner_address, previous_hash, difficulty, transaction)
    }
}

} // verus!
