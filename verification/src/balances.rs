//! Account balances, derived by replaying every transaction of a chain in order.

use vstd::prelude::*;
use vstd::hash_map::StringHashMap;
use crate::block::{transaction_views, Block, BlockView};
use crate::transaction::{Transaction, TransactionView};

verus! {

/// The balance of `account` in `balances`: zero for an account without an entry.
pub open spec fn balance_of(balances: Map<Seq<char>, int>, account: Seq<char>) -> int {
    if balances.contains_key(account) {
        balances[account]
    } else {
        0
    }
}

/// Whether `value` can be held in a signed 64-bit integer.
pub open spec fn fits_i64(value: int) -> bool {
    i64::MIN <= value <= i64::MAX
}

/// `balances` after `amount` is taken from `account`.
pub open spec fn debit(balances: Map<Seq<char>, int>, account: Seq<char>, amount: nat) -> Map<
    Seq<char>,
    int,
> {
    balances.insert(account, balance_of(balances, account) - amount)
}

/// `balances` after `amount` is given to `account`.
pub open spec fn credit(balances: Map<Seq<char>, int>, account: Seq<char>, amount: nat) -> Map<
    Seq<char>,
    int,
> {
    balances.insert(account, balance_of(balances, account) + amount)
}

/// `balances` after `tx`: the sender is debited, then the recipient credited.
/// The reward issuer is debited like any other sender.
pub open spec fn transfer(balances: Map<Seq<char>, int>, tx: TransactionView) -> Map<
    Seq<char>,
    int,
> {
    credit(debit(balances, tx.from, tx.amount), tx.to, tx.amount)
}

/// Whether both steps of `tx` leave balances that fit 64 bits.
pub open spec fn transfer_fits(balances: Map<Seq<char>, int>, tx: TransactionView) -> bool {
    &&& fits_i64(balance_of(balances, tx.from) - tx.amount)
    &&& fits_i64(balance_of(debit(balances, tx.from, tx.amount), tx.to) + tx.amount)
}

/// `balances` after the transactions, applied in order.
pub open spec fn replay_transactions(
    balances: Map<Seq<char>, int>,
    transactions: Seq<TransactionView>,
) -> Map<Seq<char>, int>
    decreases transactions.len(),
{
    if transactions.len() == 0 {
        balances
    } else {
        transfer(replay_transactions(balances, transactions.drop_last()), transactions.last())
    }
}

/// Whether every step of replaying the transactions fits 64 bits.
pub open spec fn transactions_fit(
    balances: Map<Seq<char>, int>,
    transactions: Seq<TransactionView>,
) -> bool
    decreases transactions.len(),
{
    if transactions.len() == 0 {
        true
    } else {
        &&& transactions_fit(balances, transactions.drop_last())
        &&& transfer_fits(
            replay_transactions(balances, transactions.drop_last()),
            transactions.last(),
        )
    }
}

/// `balances` after the transactions of the blocks, block by block.
pub open spec fn replay_blocks(balances: Map<Seq<char>, int>, blocks: Seq<BlockView>) -> Map<
    Seq<char>,
    int,
>
    decreases blocks.len(),
{
    if blocks.len() == 0 {
        balances
    } else {
        replay_transactions(replay_blocks(balances, blocks.drop_last()), blocks.last().transactions)
    }
}

/// Whether every step of replaying the blocks fits 64 bits.
pub open spec fn blocks_fit(balances: Map<Seq<char>, int>, blocks: Seq<BlockView>) -> bool
    decreases blocks.len(),
{
    if blocks.len() == 0 {
        true
    } else {
        &&& blocks_fit(balances, blocks.drop_last())
        &&& transactions_fit(replay_blocks(balances, blocks.drop_last()), blocks.last().transactions)
    }
}

/// The balances that a chain gives: the replay of all its blocks from nothing.
pub open spec fn ledger_balances(chain: Seq<BlockView>) -> Map<Seq<char>, int> {
    replay_blocks(Map::empty(), chain)
}

/// Whether the balances of a chain can be derived in 64 bits.
pub open spec fn ledger_fits(chain: Seq<BlockView>) -> bool {
    blocks_fit(Map::empty(), chain)
}

/// The balances that a table of 64-bit totals holds.
pub open spec fn tallies(table: Map<Seq<char>, i64>) -> Map<Seq<char>, int> {
    Map::new(
        |account: Seq<char>| table.contains_key(account),
        |account: Seq<char>| table[account] as int,
    )
}

/// The views of a sequence of blocks, in order.
pub open spec fn block_views(blocks: Seq<Block>) -> Seq<BlockView> {
    Seq::new(blocks.len(), |i: int| blocks[i]@)
}

/// Replaying one transaction is one transfer.
pub proof fn lemma_single_transaction(balances: Map<Seq<char>, int>, tx: TransactionView)
    ensures
        replay_transactions(balances, seq![tx]) == transfer(balances, tx),
        transactions_fit(balances, seq![tx]) == transfer_fits(balances, tx),
{
    let one = seq![tx];
    assert(replay_transactions(balances, one.drop_last()) == balances);
    assert(transactions_fit(balances, one.drop_last()));
}

/// Replaying a chain with one more block replays that block's transactions
/// on the balances of the chain before it.
pub proof fn lemma_replay_push(
    balances: Map<Seq<char>, int>,
    blocks: Seq<BlockView>,
    block: BlockView,
)
    ensures
        replay_blocks(balances, blocks.push(block)) == replay_transactions(
            replay_blocks(balances, blocks),
            block.transactions,
        ),
        blocks_fit(balances, blocks.push(block)) == (blocks_fit(balances, blocks)
            && transactions_fit(replay_blocks(balances, blocks), block.transactions)),
{
    let longer = blocks.push(block);
    assert(longer.drop_last() =~= blocks);
}

/// If the transactions fit, so do the first `count` of them.
pub proof fn lemma_transactions_fit_prefix(
    balances: Map<Seq<char>, int>,
    transactions: Seq<TransactionView>,
    count: int,
)
    requires
        transactions_fit(balances, transactions),
        0 <= count <= transactions.len(),
    ensures
        transactions_fit(balances, transactions.take(count)),
    decreases transactions.len(),
{
    if count == transactions.len() {
        assert(transactions.take(count) =~= transactions);
    } else {
        lemma_transactions_fit_prefix(balances, transactions.drop_last(), count);
        assert(transactions.drop_last().take(count) =~= transactions.take(count));
    }
}

/// If the blocks fit, so do the first `count` of them.
pub proof fn lemma_blocks_fit_prefix(
    balances: Map<Seq<char>, int>,
    blocks: Seq<BlockView>,
    count: int,
)
    requires
        blocks_fit(balances, blocks),
        0 <= count <= blocks.len(),
    ensures
        blocks_fit(balances, blocks.take(count)),
    decreases blocks.len(),
{
    if count == blocks.len() {
        assert(blocks.take(count) =~= blocks);
    } else {
        lemma_blocks_fit_prefix(balances, blocks.drop_last(), count);
        assert(blocks.drop_last().take(count) =~= blocks.take(count));
    }
}

/// The total of `account` in `table`, zero if there is none.
fn total_of(table: &StringHashMap<i64>, account: &str) -> (total: i64)
    ensures
        total == balance_of(tallies(table@), account@),
{
    match table.get(account) {
        Some(value) => *value,
        None => 0,
    }
}

/// Applies `tx` to `table` if both of its steps fit 64 bits. Where the debit
/// does not fit, the table is left as it was; where the debit fits and the
/// credit does not, the table is left with the debit made.
pub fn apply_transfer(table: &mut StringHashMap<i64>, tx: &Transaction) -> (fits: bool)
    ensures
        fits == transfer_fits(tallies(old(table)@), tx@),
        fits ==> tallies(final(table)@) == transfer(tallies(old(table)@), tx@),
        !fits_i64(balance_of(tallies(old(table)@), tx@.from) - tx@.amount) ==> final(table)@
            == old(table)@,
        !fits && fits_i64(balance_of(tallies(old(table)@), tx@.from) - tx@.amount) ==> tallies(
            final(table)@,
        ) == debit(tallies(old(table)@), tx@.from, tx@.amount),
{
    let sender: i128 = total_of(table, tx.from.as_str()) as i128;
    let debited: i128 = sender - tx.amount as i128;
    if debited < i64::MIN as i128 {
        return false;
    }
    table.insert(tx.from.clone(), debited as i64);
    let recipient: i128 = total_of(table, tx.to.as_str()) as i128;
    let credited: i128 = recipient + tx.amount as i128;
    if credited > i64::MAX as i128 {
        return false;
    }
    table.insert(tx.to.clone(), credited as i64);
    true
}

/// Replays the blocks from an empty table. `None` if a step does not fit.
pub fn tally(blocks: &Vec<Block>) -> (table: Option<StringHashMap<i64>>)
    ensures
        table is Some <==> ledger_fits(block_views(blocks@)),
        table is Some ==> tallies(table.unwrap()@) == ledger_balances(block_views(blocks@)),
{
    let ghost views = block_views(blocks@);
    let mut table: StringHashMap<i64> = StringHashMap::new();
    let mut i: usize = 0;
    while i < blocks.len()
        invariant
            i <= blocks.len(),
            views == block_views(blocks@),
            blocks_fit(Map::empty(), views.take(i as int)),
            tallies(table@) == replay_blocks(Map::empty(), views.take(i as int)),
        decreases blocks.len() - i,
    {
        let transactions = blocks[i].transactions();
        let ghost start = tallies(table@);
        let ghost items = views[i as int].transactions;
        let mut j: usize = 0;
        while j < transactions.len()
            invariant
                j <= transactions.len(),
                i < blocks.len(),
                views == block_views(blocks@),
                items == views[i as int].transactions,
                items == transaction_views(transactions@),
                blocks_fit(Map::empty(), views.take(i as int)),
                start == replay_blocks(Map::empty(), views.take(i as int)),
                transactions_fit(start, items.take(j as int)),
                tallies(table@) == replay_transactions(start, items.take(j as int)),
            decreases transactions.len() - j,
        {
            let fits = apply_transfer(&mut table, &transactions[j]);
            proof {
                let done = items.take(j + 1);
                assert(done.drop_last() =~= items.take(j as int));
                if !fits {
                    if ledger_fits(views) {
                        lemma_blocks_fit_prefix(Map::empty(), views, i + 1);
                        let upto = views.take(i + 1);
                        assert(upto.drop_last() =~= views.take(i as int));
                        lemma_transactions_fit_prefix(start, items, j + 1);
                    }
                }
            }
            if !fits {
                return None;
            }
            j += 1;
        }
        proof {
            assert(items.take(j as int) =~= items);
            let upto = views.take(i + 1);
            assert(upto.drop_last() =~= views.take(i as int));
        }
        i += 1;
    }
    assert(views.take(i as int) =~= views);
    Some(table)
}

} // verus!
