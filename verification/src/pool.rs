//! The pending pool: transactions in the order they arrived, and the payload
//! they are joined into when a block is sealed.

use vstd::prelude::*;
use vstd::string::*;

verus! {

/// The character that separates transactions in a block's payload.
pub const DELIMITER: char = ';';

/// The texts held by a vector of strings, in order.
pub open spec fn texts(strings: Seq<String>) -> Seq<Seq<char>> {
    Seq::new(strings.len(), |i: int| strings[i]@)
}

/// The transactions in order, with a delimiter between each two neighbours
/// and none at either end. No transactions give the empty payload.
pub open spec fn joined(transactions: Seq<Seq<char>>) -> Seq<char>
    decreases transactions.len(),
{
    if transactions.len() == 0 {
        Seq::empty()
    } else if transactions.len() == 1 {
        transactions[0]
    } else {
        joined(transactions.drop_last()) + seq![DELIMITER] + transactions.last()
    }
}

/// Joins the transactions, in order, into one payload.
pub fn join_transactions(transactions: &Vec<String>) -> (payload: String)
    ensures
        payload@ == joined(texts(transactions@)),
{
    let ghost all = texts(transactions@);
    let mut payload = String::new();
    let mut i: usize = 0;
    while i < transactions.len()
        invariant
            i <= transactions.len(),
            all == texts(transactions@),
            payload@ == joined(all.take(i as int)),
        decreases transactions.len() - i,
    {
        if i > 0 {
            proof {
                reveal_strlit(";");
            }
            payload.append(";");
        }
        payload.append(transactions[i].as_str());
        proof {
            let before = all.take(i as int);
            let after = all.take(i + 1);
            assert(after.drop_last() =~= before);
            assert(after.last() == transactions@[i as int]@);
            if i > 0 {
                assert(";"@ =~= seq![DELIMITER]);
            } else {
                assert(payload@ =~= after[0]);
            }
        }
        i += 1;
    }
    assert(all.take(i as int) =~= all);
    payload
}

} // verus!
