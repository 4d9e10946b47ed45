//! Identifiers and configuration helpers for harnesses around the keeper.

use vstd::prelude::*;
use crate::block::sizes_sorted;
use crate::keeper::PlasmaStateInitParams;
use crate::ledger::{spec_new_account, Account};
use crate::tx::TokenId;

verus! {

/// Index of an Ethereum-side test account.
#[derive(Copy, Clone, PartialEq, Eq, Hash, Debug, Structural)]
pub struct ETHAccountId(pub usize);

/// Index of an L2-side test account.
#[derive(Copy, Clone, PartialEq, Eq, Hash, Debug, Structural)]
pub struct ZKSyncAccountId(pub usize);

/// A token under test.
#[derive(Copy, Clone, PartialEq, Eq, Hash, Debug, Structural)]
pub struct Token(pub TokenId);

/// Whether a harness both commits and verifies each block, or only commits.
#[derive(PartialEq, Eq, Clone, Copy, Debug, Structural)]
pub enum BlockProcessing {
    CommitAndVerify,
    NoVerify,
}

/// Initial ledger state with one account: the fee account.
pub fn genesis_state(fee_account_address: &Vec<u8>) -> (r: PlasmaStateInitParams)
    ensures
        r.accounts@.len() == 1,
        r.accounts@[0]@ == spec_new_account(fee_account_address@),
        r.last_block_number == 0,
        r.unprocessed_priority_op == 0,
{
    let operator_account = Account::default_with_address(fee_account_address);
    let mut params = PlasmaStateInitParams::new();
    params.insert_account(0, operator_account);
    params
}

/// Sorted, duplicate-free, and holding every product of an operation count
/// below the cap with a per-operation chunk cost.
pub open spec fn is_product_table(r: Seq<usize>, max_ops: nat, costs: Seq<usize>) -> bool {
    &&& sizes_sorted(r)
    &&& (forall|i: int, j: int| 0 <= i < j < r.len() ==> r[i] != r[j])
    &&& (forall|x: nat, c: int|
        x < max_ops && 0 <= c < costs.len() ==> r.contains((#[trigger] (x * costs[c])) as usize))
}

/// Inserts a value into a sorted duplicate-free vector, keeping it so.
fn insert_sorted_unique(v: &mut Vec<usize>, value: usize)
    requires
        sizes_sorted(old(v)@),
        forall|i: int, j: int| 0 <= i < j < old(v)@.len() ==> old(v)@[i] != old(v)@[j],
    ensures
        sizes_sorted(final(v)@),
        forall|i: int, j: int| 0 <= i < j < final(v)@.len() ==> final(v)@[i] != final(v)@[j],
        forall|x: usize| final(v)@.contains(x) <==> (old(v)@.contains(x) || x == value),
{
    let n = v.len();
    let mut i: usize = 0;
    while i < n && v[i] < value
        invariant
            n == v@.len(),
            i <= n,
            forall|q: int| 0 <= q < i ==> (#[trigger] v@[q]) < value,
        decreases n - i,
    {
        i += 1;
    }
    if i < n && v[i] == value {
        proof {
            assert(v@.contains(value));
        }
        return;
    }
    v.insert(i, value);
    proof {
        assert(v@[i as int] == value);
        assert(forall|q: int| 0 <= q < i ==> v@[q] == old(v)@[q]);
        assert(forall|q: int| i < q < v@.len() ==> v@[q] == old(v)@[q - 1]);
        assert(forall|q: int| i < q < v@.len() ==> v@[q] > value);
        assert(sizes_sorted(v@));
        assert forall|x: usize| v@.contains(x) <==> (old(v)@.contains(x) || x == value) by {
            if v@.contains(x) {
                let w = choose|w: int| 0 <= w < v@.len() && v@[w] == x;
                if w < i {
                    assert(old(v)@[w] == x);
                } else if w > i {
                    assert(old(v)@[w - 1] == x);
                }
            }
            if old(v)@.contains(x) {
                let w = choose|w: int| 0 <= w < old(v)@.len() && old(v)@[w] == x;
                if w < i {
                    assert(v@[w] == x);
                } else {
                    assert(v@[w + 1] == x);
                }
            }
        }
    }
}

/// The block size classes a deployment derives from its operation kinds:
/// every product of an operation count below the cap with a per-operation
/// chunk cost, ascending and duplicate-free.
pub fn supported_block_chunks_sizes(max_ops_in_block: usize, ops_chunks: &Vec<usize>) -> (r: Vec<
    usize,
>)
    requires
        max_ops_in_block * 6 <= usize::MAX,
        forall|c: int| 0 <= c < ops_chunks@.len() ==> (#[trigger] ops_chunks@[c]) <= 6,
    ensures
        is_product_table(r@, max_ops_in_block as nat, ops_chunks@),
{
    let mut r: Vec<usize> = Vec::new();
    let m = ops_chunks.len();
    let mut x: usize = 0;
    while x < max_ops_in_block
        invariant
            x <= max_ops_in_block,
            max_ops_in_block * 6 <= usize::MAX,
            m == ops_chunks@.len(),
            forall|c: int| 0 <= c < m ==> (#[trigger] ops_chunks@[c]) <= 6,
            sizes_sorted(r@),
            forall|i: int, j: int| 0 <= i < j < r@.len() ==> r@[i] != r@[j],
            forall|x2: nat, c: int|
                x2 < x && 0 <= c < m ==> r@.contains((#[trigger] (x2 * ops_chunks@[c])) as usize),
        decreases max_ops_in_block - x,
    {
        let mut c: usize = 0;
        while c < m
            invariant
                x < max_ops_in_block,
                max_ops_in_block * 6 <= usize::MAX,
                c <= m,
                m == ops_chunks@.len(),
                forall|c2: int| 0 <= c2 < m ==> (#[trigger] ops_chunks@[c2]) <= 6,
                sizes_sorted(r@),
                forall|i: int, j: int| 0 <= i < j < r@.len() ==> r@[i] != r@[j],
                forall|x2: nat, c2: int|
                    x2 < x && 0 <= c2 < m ==> r@.contains(
                        (#[trigger] (x2 * ops_chunks@[c2])) as usize,
                    ),
                forall|c2: int|
                    0 <= c2 < c ==> r@.contains(
                        (#[trigger] ((x as nat) * ops_chunks@[c2])) as usize,
                    ),
            decreases m - c,
        {
            let ghost r_prev = r@;
            let cost = ops_chunks[c];
            proof {
                assert((x as nat) * (cost as nat) <= (max_ops_in_block as nat) * 6)
                    by (nonlinear_arith)
                    requires
                        (x as nat) < (max_ops_in_block as nat),
                        (cost as nat) <= 6,
                ;
            }
            let product = x * cost;
            insert_sorted_unique(&mut r, product);
            proof {
                assert(r@.contains(((x as nat) * ops_chunks@[c as int]) as usize));
                assert forall|x2: nat, c2: int|
                    x2 < x && 0 <= c2 < m implies r@.contains(
                    (#[trigger] (x2 * ops_chunks@[c2])) as usize,
                ) by {
                    assert(r_prev.contains((x2 * ops_chunks@[c2]) as usize));
                }
                assert forall|c2: int| 0 <= c2 < c + 1 implies r@.contains(
                    (#[trigger] ((x as nat) * ops_chunks@[c2])) as usize,
                ) by {
                    if c2 < c {
                        assert(r_prev.contains(((x as nat) * ops_chunks@[c2]) as usize));
                    }
                }
            }
            c += 1;
        }
        proof {
            assert forall|x2: nat, c2: int|
                x2 < x + 1 && 0 <= c2 < m implies r@.contains(
                (#[trigger] (x2 * ops_chunks@[c2])) as usize,
            ) by {
                if x2 < x {
                    assert(r@.contains((x2 * ops_chunks@[c2]) as usize));
                }
            }
        }
        x += 1;
    }
    r
}

} // verus!
