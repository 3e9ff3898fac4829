//! The ledger: an ordered chain of blocks that grows by appending mined blocks.

use vstd::prelude::*;
use vstd::hash_map::StringHashMap;
use crate::balances::{
    apply_transfer, balance_of, block_views, ledger_balances, ledger_fits, lemma_replay_push,
    lemma_single_transaction, tallies, tally, transactions_fit,
};
use crate::block::{
    block_transactions, current_timestamp, mined, option_transaction_view, reward_transaction,
    sealed, BlockView, BLOCK_REWARD,
};
use crate::transaction::{coinbase, signature_valid, TransactionView};
pub use crate::block::Block;
pub use crate::transaction::Transaction;

verus! {

/// The target with which a new ledger is made.
pub const DIFFICULTY: usize = 4;

/// The ledger: its blocks, its proof-of-work target and the account that
/// block rewards are paid to.
pub struct Blockchain {
    chain: Vec<Block>,
    difficulty: usize,
    reward_address: String,
}

/// A ledger as a mathematical value.
pub ghost struct BlockchainView {
    pub chain: Seq<BlockView>,
    pub difficulty: nat,
    pub reward_address: Seq<char>,
}

/// Why a block was not appended.
#[derive(Debug, Clone, Copy, PartialEq, Eq, Structural)]
pub enum AppendError {
    /// The supplied transaction is not signed validly, or its sender lacks the funds.
    InvalidTransaction,
    /// A balance would leave the range of a signed 64-bit integer.
    BalanceOverflow,
    /// No 64-bit nonce gives a digest that meets the target.
    NonceSpaceExhausted,
}

/// The text that tells a user of `error`.
pub open spec fn error_text(error: AppendError) -> Seq<char> {
    match error {
        AppendError::InvalidTransaction => "transaction is not valid"@,
        AppendError::BalanceOverflow => "a balance does not fit 64 bits"@,
        AppendError::NonceSpaceExhausted => "no nonce meets the target"@,
    }
}

impl AppendError {
    /// The error in words.
    pub fn message(&self) -> (text: String)
        ensures
            text@ == error_text(*self),
    {
        match self {
            AppendError::InvalidTransaction => "transaction is not valid".to_owned(),
            AppendError::BalanceOverflow => "a balance does not fit 64 bits".to_owned(),
            AppendError::NonceSpaceExhausted => "no nonce meets the target".to_owned(),
        }
    }
}

/// What every ledger satisfies: there is a genesis block, each block's index
/// is its position, and the balances can be derived in 64 bits.
pub open spec fn well_formed(ledger: BlockchainView) -> bool {
    &&& ledger.chain.len() > 0
    &&& forall|i: int| 0 <= i < ledger.chain.len() ==> (#[trigger] ledger.chain[i]).index == i
    &&& ledger_fits(ledger.chain)
}

/// Whether the block at position `i` names the stored hash of the block
/// before it and is sealed at the target.
pub open spec fn block_valid_at(chain: Seq<BlockView>, i: int, difficulty: nat) -> bool {
    &&& chain[i].previous_hash == chain[i - 1].hash
    &&& sealed(chain[i], difficulty)
}

/// Structural validity of a chain: every block after the genesis block is
/// linked to its predecessor and sealed. The genesis block is trusted.
pub open spec fn chain_valid(chain: Seq<BlockView>, difficulty: nat) -> bool {
    forall|i: int| 1 <= i < chain.len() ==> #[trigger] block_valid_at(chain, i, difficulty)
}

/// Whether a supplied transaction may enter a block: it comes from the reward
/// issuer, or it is validly signed and the sender's balance, zero for an
/// account without history, is at least the amount.
pub open spec fn acceptable(tx: TransactionView, balances: Map<Seq<char>, int>) -> bool {
    ||| tx.from == coinbase()
    ||| {
        &&& signature_valid(tx)
        &&& balance_of(balances, tx.from) >= tx.amount
    }
}

/// The outcome of making a ledger at `timestamp`: the ledger of the mined
/// genesis block alone, or nothing where the search found no nonce.
pub open spec fn genesis_outcome(
    timestamp: Seq<char>,
    miner: Seq<char>,
    outcome: Option<BlockchainView>,
) -> bool {
    let transactions = block_transactions(miner, None);
    match outcome {
        Some(ledger) => {
            &&& ledger.difficulty == DIFFICULTY
            &&& ledger.reward_address == miner
            &&& ledger.chain.len() == 1
            &&& mined(0, timestamp, transactions, "0"@, DIFFICULTY as nat, Some(ledger.chain[0]))
        },
        None => mined(0, timestamp, transactions, "0"@, DIFFICULTY as nat, None),
    }
}

/// The outcome of appending at `timestamp`. A supplied transaction that is
/// not acceptable is refused; so is a block whose transactions would take a
/// balance out of range. Otherwise the block is mined on the last block, and
/// appended if the search found a nonce. Every refusal leaves the ledger as it was.
pub open spec fn append_outcome(
    before: BlockchainView,
    timestamp: Seq<char>,
    supplied: Option<TransactionView>,
    after: BlockchainView,
    result: Result<(), AppendError>,
) -> bool {
    let balances = ledger_balances(before.chain);
    let transactions = block_transactions(before.reward_address, supplied);
    let index = before.chain.len();
    let previous_hash = before.chain.last().hash;
    if supplied is Some && !acceptable(supplied.unwrap(), balances) {
        result == Err::<(), AppendError>(AppendError::InvalidTransaction) && after == before
    } else if !transactions_fit(balances, transactions) {
        result == Err::<(), AppendError>(AppendError::BalanceOverflow) && after == before
    } else {
        match result {
            Ok(_) => {
                &&& after.difficulty == before.difficulty
                &&& after.reward_address == before.reward_address
                &&& after.chain.len() == before.chain.len() + 1
                &&& after.chain.drop_last() == before.chain
                &&& mined(
                    index,
                    timestamp,
                    transactions,
                    previous_hash,
                    before.difficulty,
                    Some(after.chain.last()),
                )
            },
            Err(error) => {
                &&& error == AppendError::NonceSpaceExhausted
                &&& after == before
                &&& mined(index, timestamp, transactions, previous_hash, before.difficulty, None)
            },
        }
    }
}

/// A block at position zero with empty texts, nonce zero and no transaction.
pub open spec fn hollow_block() -> BlockView {
    BlockView {
        index: 0,
        timestamp: Seq::empty(),
        previous_hash: Seq::empty(),
        hash: Seq::empty(),
        nonce: 0,
        transactions: Seq::empty(),
    }
}

/// The ledger of the hollow block alone, with target zero and an empty
/// reward address. It is well-formed and holds no balance.
pub open spec fn hollow_ledger() -> BlockchainView {
    BlockchainView { chain: seq![hollow_block()], difficulty: 0, reward_address: Seq::empty() }
}

/// The view of a ledger that may be absent.
pub open spec fn option_ledger_view(ledger: Option<Blockchain>) -> Option<BlockchainView> {
    match ledger {
        Some(l) => Some(l@),
        None => None,
    }
}

impl View for Blockchain {
    type V = BlockchainView;

    closed spec fn view(&self) -> BlockchainView {
        BlockchainView {
            chain: block_views(self.chain@),
            difficulty: self.difficulty as nat,
            reward_address: self.reward_address@,
        }
    }
}

/// Decides whether `tx` may enter a block, given the balances before it.
pub fn is_transaction_valid(tx: &Transaction, balances: &StringHashMap<i64>) -> (valid: bool)
    ensures
        valid == acceptable(tx@, tallies(balances@)),
{
    if tx.is_coinbase() {
        return true;
    }
    if !tx.verify_transaction_signature() {
        return false;
    }
    match balances.get(tx.from.as_str()) {
        Some(balance) => *balance >= 0 && *balance as u64 >= tx.amount,
        None => tx.amount == 0,
    }
}

impl Blockchain {
    #[verifier::type_invariant]
    spec fn holds_together(&self) -> bool {
        well_formed(self@)
    }

    /// A ledger of one empty block, to stand in a place whose ledger is taken
    /// out, extended and put back.
    fn hollow() -> (ledger: Blockchain)
        ensures
            ledger@ == hollow_ledger(),
    {
        let block = Block::from_parts(
            0,
            String::new(),
            String::new(),
            String::new(),
            0,
            Vec::new(),
        );
        let mut chain: Vec<Block> = Vec::new();
        chain.push(block);
        proof {
            assert(block@.transactions =~= Seq::<TransactionView>::empty());
            assert(block_views(chain@) =~= seq![hollow_block()]);
            lemma_replay_push(Map::empty(), Seq::empty(), hollow_block());
        }
        Blockchain { chain, difficulty: 0, reward_address: String::new() }
    }

    /// Makes a ledger whose genesis block is mined at `timestamp` and pays the
    /// reward to `miner_address`.
    pub fn new_at(timestamp: String, miner_address: &str) -> (ledger: Option<Blockchain>)
        ensures
            genesis_outcome(timestamp@, miner_address@, option_ledger_view(ledger)),
            ledger is Some ==> well_formed(ledger.unwrap()@),
            ledger is Some ==> chain_valid(ledger.unwrap()@.chain, ledger.unwrap()@.difficulty),
    {
        let genesis = match Block::mine(
            0,
            timestamp,
            miner_address,
            "0".to_owned(),
            DIFFICULTY,
            None,
        ) {
            Some(block) => block,
            None => {
                return None;
            },
        };
        let mut chain: Vec<Block> = Vec::new();
        chain.push(genesis);
        proof {
            let views = block_views(chain@);
            let nothing = Map::<Seq<char>, int>::empty();
            assert(views =~= Seq::<BlockView>::empty().push(genesis@));
            lemma_replay_push(nothing, Seq::empty(), genesis@);
            lemma_single_transaction(nothing, reward_transaction(miner_address@));
        }
        Some(Blockchain { chain, difficulty: DIFFICULTY, reward_address: miner_address.to_owned() })
    }

    /// Makes a ledger whose genesis block is mined now.
    pub fn new(miner_address: &str) -> (ledger: Option<Blockchain>)
        ensures
            exists|timestamp: Seq<char>| #[trigger]
                genesis_outcome(timestamp, miner_address@, option_ledger_view(ledger)),
            ledger is Some ==> well_formed(ledger.unwrap()@),
            ledger is Some ==> chain_valid(ledger.unwrap()@.chain, ledger.unwrap()@.difficulty),
    {
        let timestamp = current_timestamp();
        Blockchain::new_at(timestamp, miner_address)
    }

    /// Takes a stored ledger, if its parts make a well-formed one. Whether the
    /// chain is valid is not looked at: `is_valid` tells.
    pub fn from_parts(chain: Vec<Block>, difficulty: usize, reward_address: String) -> (ledger:
        Option<Blockchain>)
        ensures
            ledger is Some <==> well_formed(
                BlockchainView {
                    chain: block_views(chain@),
                    difficulty: difficulty as nat,
                    reward_address: reward_address@,
                },
            ),
            ledger is Some ==> ledger.unwrap()@ == (BlockchainView {
                chain: block_views(chain@),
                difficulty: difficulty as nat,
                reward_address: reward_address@,
            }),
    {
        if chain.len() == 0 {
            return None;
        }
        let ghost views = block_views(chain@);
        let mut i: usize = 0;
        while i < chain.len()
            invariant
                i <= chain.len(),
                views == block_views(chain@),
                forall|k: int| 0 <= k < i ==> (#[trigger] views[k]).index == k,
            decreases chain.len() - i,
        {
            if chain[i].index() != i as u64 {
                assert(views[i as int].index != i);
                return None;
            }
            i += 1;
        }
        if tally(&chain).is_none() {
            return None;
        }
        Some(Blockchain { chain, difficulty, reward_address })
    }

    /// The proof-of-work target of this ledger.
    pub fn difficulty(&self) -> (difficulty: usize)
        ensures
            difficulty == self@.difficulty,
    {
        self.difficulty
    }

    /// The account to which block rewards are paid.
    pub fn reward_address(&self) -> (address: &String)
        ensures
            address@ == self@.reward_address,
    {
        &self.reward_address
    }

    /// The number of blocks, the genesis block included.
    pub fn len(&self) -> (len: usize)
        ensures
            len == self@.chain.len(),
            len > 0,
    {
        proof {
            use_type_invariant(self);
        }
        self.chain.len()
    }

    /// A copy of the blocks, in chain order. With the target and the reward
    /// address they are the parts from which `from_parts` makes the ledger again.
    pub fn to_blocks(&self) -> (blocks: Vec<Block>)
        ensures
            block_views(blocks@) == self@.chain,
            well_formed(self@),
    {
        proof {
            use_type_invariant(self);
        }
        let mut blocks: Vec<Block> = Vec::new();
        let mut i: usize = 0;
        while i < self.chain.len()
            invariant
                i <= self.chain.len(),
                blocks@.len() == i,
                forall|k: int| 0 <= k < i ==> blocks@[k]@ == self.chain@[k]@,
            decreases self.chain.len() - i,
        {
            blocks.push(self.chain[i].clone());
            i += 1;
        }
        blocks
    }

    /// Checks the chain: every block after the genesis block must name the
    /// stored hash of its predecessor, reproduce its own stored hash from its
    /// fields, and meet the target. Signatures and balances are not checked.
    pub fn is_valid(&self) -> (valid: bool)
        ensures
            valid == chain_valid(self@.chain, self@.difficulty),
    {
        let ghost views = block_views(self.chain@);
        let mut i: usize = 1;
        while i < self.chain.len()
            invariant
                1 <= i,
                views == block_views(self.chain@),
                forall|k: int| 1 <= k < i ==> #[trigger] block_valid_at(
                    views,
                    k,
                    self.difficulty as nat,
                ),
            decreases self.chain.len() - i,
        {
            let current = &self.chain[i];
            let previous = &self.chain[i - 1];
            let linked = *current.previous_hash() == *previous.hash();
            if !linked || !current.is_sealed(self.difficulty) {
                assert(!block_valid_at(views, i as int, self.difficulty as nat));
                return false;
            }
            i += 1;
        }
        true
    }

    /// Derives the balance of every account that occurs in a transaction, by
    /// replaying the chain. The reward issuer is an account like any other.
    pub fn get_balances(&self) -> (balances: StringHashMap<i64>)
        ensures
            tallies(balances@) == ledger_balances(self@.chain),
    {
        proof {
            use_type_invariant(self);
        }
        tally(&self.chain).unwrap()
    }

    /// The derived balance of `address`, zero for an account without history.
    pub fn balance_of(&self, address: &str) -> (balance: i64)
        ensures
            balance == balance_of(ledger_balances(self@.chain), address@),
    {
        let balances = self.get_balances();
        match balances.get(address) {
            Some(value) => *value,
            None => 0,
        }
    }

    /// Appends a block mined at `timestamp`. With a transaction, the block
    /// holds it alone, provided it is acceptable; without, it holds the reward.
    pub fn add_block_at(&mut self, timestamp: String, transaction: Option<Transaction>) -> (result:
        Result<(), AppendError>)
        ensures
            append_outcome(
                old(self)@,
                timestamp@,
                option_transaction_view(transaction),
                final(self)@,
                result,
            ),
            well_formed(old(self)@),
            well_formed(final(self)@),
            chain_valid(old(self)@.chain, old(self)@.difficulty) ==> chain_valid(
                final(self)@.chain,
                final(self)@.difficulty,
            ),
            result is Ok ==> sealed(final(self)@.chain.last(), final(self)@.difficulty),
    {
        proof {
            use_type_invariant(&*self);
        }
        let ghost before = self@;
        let mut balances = tally(&self.chain).unwrap();
        let fits = match &transaction {
            Some(tx) => {
                if !is_transaction_valid(tx, &balances) {
                    return Err(AppendError::InvalidTransaction);
                }
                apply_transfer(&mut balances, tx)
            },
            None => {
                let reward = Transaction {
                    from: "COINBASE".to_owned(),
                    to: self.reward_address.clone(),
                    amount: BLOCK_REWARD,
                    signature: None,
                    public_key: None,
                };
                apply_transfer(&mut balances, &reward)
            },
        };
        proof {
            let start = ledger_balances(before.chain);
            match option_transaction_view(transaction) {
                Some(tx) => {
                    lemma_single_transaction(start, tx);
                },
                None => {
                    lemma_single_transaction(start, reward_transaction(before.reward_address));
                },
            }
        }
        if !fits {
            return Err(AppendError::BalanceOverflow);
        }
        let last = &self.chain[self.chain.len() - 1];
        let index: u64 = last.index() + 1;
        let block = match Block::mine(
            index,
            timestamp,
            self.reward_address.as_str(),
            last.hash().clone(),
            self.difficulty,
            transaction,
        ) {
            Some(block) => block,
            None => {
                return Err(AppendError::NonceSpaceExhausted);
            },
        };
        let mut taken = Blockchain::hollow();
        core::mem::swap(self, &mut taken);
        let Blockchain { mut chain, difficulty, reward_address } = taken;
        chain.push(block);
        proof {
            assert(block_views(chain@) =~= before.chain.push(block@));
            lemma_replay_push(Map::empty(), before.chain, block@);
        }
        *self = Blockchain { chain, difficulty, reward_address };
        proof {
            let after = self@;
            assert(after.chain.drop_last() =~= before.chain);
            assert forall|i: int| 1 <= i < after.chain.len() && chain_valid(
                before.chain,
                before.difficulty,
            ) implies #[trigger] block_valid_at(after.chain, i, after.difficulty) by {
                if i < before.chain.len() {
                    assert(block_valid_at(before.chain, i, before.difficulty));
                }
            }
        }
        Ok(())
    }

    /// Appends a block mined now. See `add_block_at`.
    pub fn add_block(&mut self, transaction: Option<Transaction>) -> (result: Result<
        (),
        AppendError,
    >)
        ensures
            exists|timestamp: Seq<char>| #[trigger]
                append_outcome(
                    old(self)@,
                    timestamp,
                    option_transaction_view(transaction),
                    final(self)@,
                    result,
                ),
            well_formed(old(self)@),
            well_formed(final(self)@),
            chain_valid(old(self)@.chain, old(self)@.difficulty) ==> chain_valid(
                final(self)@.chain,
                final(self)@.difficulty,
            ),
            result is Ok ==> sealed(final(self)@.chain.last(), final(self)@.difficulty),
    {
        let timestamp = current_timestamp();
        self.add_block_at(timestamp, transaction)
    }
}

} // verus!
