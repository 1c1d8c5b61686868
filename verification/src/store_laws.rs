//! Laws of the versioned ledger store.
//!
//! The store invariant: validity windows are well-formed and pairwise
//! disjoint per natural key (so at most one version of an entity is ever
//! open), block numbers are unique, and every window boundary is anchored
//! to a recorded block. `lemma_apply_preserves_inv` shows that block
//! admission preserves it; `lemma_idempotent_redelivery` that redelivering
//! a block changes nothing; `lemma_fork_rollback` what a fork leaves
//! behind.

use vstd::prelude::*;

use crate::data_manager::{
    action_key, action_stamped, apply_spec, close_key, close_one, end_of, find_block, lemma_set_end,
    max_block,
    ops_actions, rec_key, rollback_blocks, rollback_one, rollback_records, run_actions, set_end,
    start_of, step_action, ActionV, ChainRecordV, OpV, RecordKey, StoreV,
};
use crate::models::BlockV;

verus! {

/// Validity windows are well-formed: every row's window is non-empty, and
/// windows of rows with the same natural key never overlap. Two open rows
/// of one key would be two overlapping windows, so at most one version
/// per key is open.
pub open spec fn wf_windows(rs: Seq<ChainRecordV>) -> bool {
    &&& forall|i: int| 0 <= i < rs.len() ==> start_of(#[trigger] rs[i]) < end_of(rs[i])
    &&& forall|i: int, j: int|
        0 <= i < j < rs.len() && rec_key(#[trigger] rs[i]) == rec_key(#[trigger] rs[j])
            ==> end_of(rs[i]) <= start_of(rs[j]) || end_of(rs[j]) <= start_of(rs[i])
}

/// Exactly one row may exist per block number.
pub open spec fn blocks_unique(bs: Seq<BlockV>) -> bool {
    forall|i: int, j: int|
        0 <= i < j < bs.len() ==> (#[trigger] bs[i].block_num) != (#[trigger] bs[j].block_num)
}

pub open spec fn has_block(bs: Seq<BlockV>, n: int) -> bool {
    exists|i: int| 0 <= i < bs.len() && (#[trigger] bs[i].block_num) == n
}

/// Every window boundary of a row is a recorded block number (or the open
/// sentinel).
pub open spec fn anchored(rs: Seq<ChainRecordV>, bs: Seq<BlockV>) -> bool {
    forall|i: int|
        0 <= i < rs.len() ==> has_block(bs, start_of(#[trigger] rs[i])) && (end_of(rs[i])
            == max_block() || has_block(bs, end_of(rs[i])))
}

/// The store invariant.
pub open spec fn store_inv(st: StoreV) -> bool {
    wf_windows(st.records) && blocks_unique(st.blocks) && anchored(st.records, st.blocks)
}

/// Law: at most one open version per natural key. A second open row of
/// the same key would overlap the first.
pub proof fn lemma_at_most_one_open(rs: Seq<ChainRecordV>, i: int, j: int)
    requires
        wf_windows(rs),
        0 <= i < j < rs.len(),
        rec_key(rs[i]) == rec_key(rs[j]),
    ensures
        !(end_of(rs[i]) == max_block() && end_of(rs[j]) == max_block()),
{
}

/// Well-formed actions for a block at height `n`: every action is stamped
/// for `n`, and once a row is inserted no later action of the block
/// touches its key (one mutation per entity per block).
pub open spec fn acts_wf(acts: Seq<ActionV>, n: int) -> bool {
    &&& forall|i: int| 0 <= i < acts.len() ==> action_stamped(#[trigger] acts[i], n)
    &&& forall|i: int, j: int|
        0 <= i < j < acts.len() && acts[i] is Upsert ==> action_key(#[trigger] acts[i])
            != action_key(#[trigger] acts[j])
}

/// Well-formed operations for a block at height `n`.
pub open spec fn ops_wf(ops: Seq<OpV>, n: int) -> bool {
    acts_wf(ops_actions(ops), n)
}

/// No action in the list touches key `k`.
pub open spec fn key_untouched(acts: Seq<ActionV>, k: RecordKey) -> bool {
    forall|i: int| 0 <= i < acts.len() ==> action_key(#[trigger] acts[i]) != k
}

pub proof fn lemma_find_block_is_some(bs: Seq<BlockV>, n: int)
    ensures
        find_block(bs, n) is Some <==> has_block(bs, n),
        find_block(bs, n) is Some ==> {
            let b = find_block(bs, n).unwrap();
            b.block_num == n && exists|i: int| 0 <= i < bs.len() && bs[i] == b
        },
    decreases bs.len(),
{
    if bs.len() == 0 {
        assert(!has_block(bs, n));
    } else if bs[0].block_num == n {
        assert(has_block(bs, n));
    } else {
        lemma_find_block_is_some(bs.skip(1), n);
        if has_block(bs, n) {
            let i = choose|i: int| 0 <= i < bs.len() && bs[i].block_num == n;
            assert(bs.skip(1)[i - 1] == bs[i]);
            assert(has_block(bs.skip(1), n));
        }
        if has_block(bs.skip(1), n) {
            let i = choose|i: int| 0 <= i < bs.skip(1).len() && bs.skip(1)[i].block_num == n;
            assert(bs[i + 1] == bs.skip(1)[i]);
            assert(has_block(bs, n));
        }
        if find_block(bs, n) is Some {
            let b = find_block(bs, n).unwrap();
            let i = choose|i: int| 0 <= i < bs.skip(1).len() && bs.skip(1)[i] == b;
            assert(bs[i + 1] == b);
        }
    }
}

pub proof fn lemma_find_block_push(bs: Seq<BlockV>, b: BlockV, n: int)
    requires
        !has_block(bs, n),
        b.block_num == n,
    ensures
        find_block(bs.push(b), n) == Some(b),
    decreases bs.len(),
{
    if bs.len() == 0 {
        assert(bs.push(b)[0] == b);
    } else {
        assert(bs[0].block_num != n);
        assert(bs.push(b)[0] == bs[0]);
        assert forall|i: int| 0 <= i < bs.skip(1).len() implies (#[trigger] bs.skip(
            1,
        )[i].block_num) != n by {
            assert(bs.skip(1)[i] == bs[i + 1]);
        }
        lemma_find_block_push(bs.skip(1), b, n);
        assert(bs.push(b).skip(1) =~= bs.skip(1).push(b));
    }
}

/// A block number survives the rollback exactly when it was recorded
/// below the fork point.
pub proof fn lemma_rollback_blocks_membership(bs: Seq<BlockV>, n: int, m: int)
    ensures
        has_block(rollback_blocks(bs, n), m) <==> (has_block(bs, m) && m < n),
    decreases bs.len(),
{
    let rb = rollback_blocks(bs, n);
    if bs.len() == 0 {
    } else {
        let front = bs.drop_last();
        let rf = rollback_blocks(front, n);
        lemma_rollback_blocks_membership(front, n, m);
        if has_block(rb, m) {
            let j = choose|j: int| 0 <= j < rb.len() && rb[j].block_num == m;
            if bs.last().block_num < n && j == rb.len() - 1 {
                assert(rb[j] == bs.last());
                assert(bs[bs.len() - 1].block_num == m);
                assert(has_block(bs, m) && m < n);
            } else {
                assert(rf[j] == rb[j]);
                assert(has_block(rf, m));
                let i = choose|i: int| 0 <= i < front.len() && front[i].block_num == m;
                assert(bs[i] == front[i]);
                assert(has_block(bs, m) && m < n);
            }
        }
        if has_block(bs, m) && m < n {
            let i = choose|i: int| 0 <= i < bs.len() && bs[i].block_num == m;
            if i == bs.len() - 1 {
                assert(bs.last().block_num == m && m < n);
                assert(rb[rb.len() - 1] == bs.last());
                assert(has_block(rb, m));
            } else {
                assert(front[i] == bs[i]);
                assert(has_block(front, m));
                let j = choose|j: int| 0 <= j < rf.len() && rf[j].block_num == m;
                assert(rb[j] == rf[j]);
                assert(has_block(rb, m));
            }
        }
    }
}

pub proof fn lemma_rollback_blocks_unique(bs: Seq<BlockV>, n: int)
    requires
        blocks_unique(bs),
    ensures
        blocks_unique(rollback_blocks(bs, n)),
    decreases bs.len(),
{
    let rb = rollback_blocks(bs, n);
    if bs.len() > 0 {
        let front = bs.drop_last();
        let rf = rollback_blocks(front, n);
        assert forall|i: int, j: int| 0 <= i < j < front.len() implies (#[trigger] front[i].block_num)
            != (#[trigger] front[j].block_num) by {
            assert(front[i] == bs[i] && front[j] == bs[j]);
        }
        lemma_rollback_blocks_unique(front, n);
        if bs.last().block_num < n {
            assert forall|i: int, j: int| 0 <= i < j < rb.len() implies (#[trigger] rb[i].block_num)
                != (#[trigger] rb[j].block_num) by {
                if j < rb.len() - 1 {
                    assert(rb[i] == rf[i] && rb[j] == rf[j]);
                } else {
                    assert(rb[i] == rf[i]);
                    assert(rb[j] == bs.last());
                    lemma_rollback_blocks_membership(front, n, rf[i].block_num);
                    assert(has_block(rf, rf[i].block_num));
                    assert(has_block(front, rf[i].block_num));
                    let w = choose|w: int|
                        0 <= w < front.len() && front[w].block_num == rf[i].block_num;
                    assert(bs[w] == front[w]);
                    assert(bs[w].block_num != bs.last().block_num);
                }
            }
        }
    }
}

/// Applying the same block and operations twice leaves the store exactly
/// as one application does: the second delivery is recognized as a
/// duplicate whatever path the first took.
pub proof fn lemma_idempotent_redelivery(st: StoreV, ops: Seq<OpV>, b: BlockV)
    ensures
        apply_spec(apply_spec(st, ops, b), ops, b) == apply_spec(st, ops, b),
{
    let n = b.block_num;
    let st1 = apply_spec(st, ops, b);
    match find_block(st.blocks, n) {
        Some(existing) => {
            if existing.block_id == b.block_id {
                // duplicate already: the first application was a no-op
            } else {
                // fork: the rolled-back table holds nothing at or above n
                lemma_rollback_blocks_membership(st.blocks, n, n);
                lemma_find_block_push(rollback_blocks(st.blocks, n), b, n);
            }
        },
        None => {
            lemma_find_block_is_some(st.blocks, n);
            lemma_find_block_push(st.blocks, b, n);
        },
    }
}

} // verus!

verus! {

/// A row surviving rollback at `n`: reopened if the abandoned branch had
/// closed it at or after `n`.
pub open spec fn reopen_val(r: ChainRecordV, n: int) -> ChainRecordV {
    if end_of(r) >= n {
        set_end(r, max_block())
    } else {
        r
    }
}

proof fn lemma_reopen_val(r: ChainRecordV, n: int)
    ensures
        rec_key(reopen_val(r, n)) == rec_key(r),
        start_of(reopen_val(r, n)) == start_of(r),
        end_of(reopen_val(r, n)) == if end_of(r) >= n {
            max_block()
        } else {
            end_of(r)
        },
{
    lemma_set_end(r, max_block());
}

/// Every row of the rolled-back history is a row of the input that
/// started below the fork point, reopened if the branch had closed it.
pub proof fn lemma_rollback_records_elems(rs: Seq<ChainRecordV>, n: int)
    ensures
        forall|j: int|
            #![trigger rollback_records(rs, n)[j]]
            0 <= j < rollback_records(rs, n).len() ==> exists|i: int|
                0 <= i < rs.len() && start_of(#[trigger] rs[i]) < n && rollback_records(rs, n)[j]
                    == reopen_val(rs[i], n),
    decreases rs.len(),
{
    let rb = rollback_records(rs, n);
    if rs.len() > 0 {
        let front = rs.drop_last();
        let rf = rollback_records(front, n);
        let last = rs.last();
        lemma_rollback_records_elems(front, n);
        assert forall|j: int|
            #![trigger rb[j]]
            0 <= j < rb.len() implies exists|i: int|
            0 <= i < rs.len() && start_of(#[trigger] rs[i]) < n && rb[j] == reopen_val(
                rs[i],
                n,
            ) by {
            if j < rf.len() {
                assert(rb[j] == rf[j]);
                let i = choose|i: int|
                    0 <= i < front.len() && start_of(front[i]) < n && rf[j] == reopen_val(
                        front[i],
                        n,
                    );
                assert(rs[i] == front[i]);
            } else {
                assert(start_of(last) < n);
                assert(rollback_one(last, n) =~= seq![reopen_val(last, n)]);
                assert(rb[j] == reopen_val(rs[rs.len() - 1], n));
            }
        }
    }
}

/// Every row of the input that started below the fork point survives the
/// rollback (reopened if the branch had closed it).
pub proof fn lemma_rollback_records_complete(rs: Seq<ChainRecordV>, n: int)
    ensures
        forall|i: int|
            0 <= i < rs.len() && start_of(#[trigger] rs[i]) < n ==> exists|j: int|
                0 <= j < rollback_records(rs, n).len() && #[trigger] rollback_records(rs, n)[j]
                    == reopen_val(rs[i], n),
    decreases rs.len(),
{
    let rb = rollback_records(rs, n);
    if rs.len() > 0 {
        let front = rs.drop_last();
        let rf = rollback_records(front, n);
        let last = rs.last();
        lemma_rollback_records_complete(front, n);
        assert forall|i: int|
            0 <= i < rs.len() && start_of(#[trigger] rs[i]) < n implies exists|j: int|
            0 <= j < rb.len() && #[trigger] rb[j] == reopen_val(rs[i], n) by {
            if i < rs.len() - 1 {
                assert(front[i] == rs[i]);
                let j = choose|j: int| 0 <= j < rf.len() && rf[j] == reopen_val(front[i], n);
                assert(rb[j] == rf[j]);
            } else {
                assert(rollback_one(last, n) =~= seq![reopen_val(last, n)]);
                assert(rb[rb.len() - 1] == reopen_val(rs[i], n));
            }
        }
    }
}

/// Rollback keeps validity windows well-formed and pairwise disjoint.
#[verifier::spinoff_prover]
pub proof fn lemma_rollback_records_wf(rs: Seq<ChainRecordV>, n: int)
    requires
        wf_windows(rs),
        n <= max_block(),
    ensures
        wf_windows(rollback_records(rs, n)),
    decreases rs.len(),
{
    let rb = rollback_records(rs, n);
    if rs.len() > 0 {
        let front = rs.drop_last();
        let rf = rollback_records(front, n);
        let last = rs.last();
        assert forall|i: int| 0 <= i < front.len() implies start_of(#[trigger] front[i]) < end_of(
            front[i],
        ) by {
            assert(front[i] == rs[i]);
        }
        assert forall|i: int, j: int|
            0 <= i < j < front.len() && rec_key(#[trigger] front[i]) == rec_key(
                #[trigger] front[j],
            ) implies end_of(front[i]) <= start_of(front[j]) || end_of(front[j]) <= start_of(
            front[i],
        ) by {
            assert(front[i] == rs[i] && front[j] == rs[j]);
        }
        lemma_rollback_records_wf(front, n);
        if start_of(last) >= n {
            assert(rb =~= rf);
        } else {
            let x = reopen_val(last, n);
            lemma_reopen_val(last, n);
            assert(rollback_one(last, n) =~= seq![x]);
            assert(rb =~= rf.push(x));
            assert(start_of(x) < end_of(x));
            lemma_rollback_records_elems(front, n);
            assert forall|j: int|
                0 <= j < rf.len() && rec_key(#[trigger] rf[j]) == rec_key(x) implies end_of(
                rf[j],
            ) <= start_of(x) || end_of(x) <= start_of(rf[j]) by {
                let i = choose|i: int|
                    0 <= i < front.len() && start_of(front[i]) < n && rf[j] == reopen_val(
                        front[i],
                        n,
                    );
                let y = front[i];
                lemma_reopen_val(y, n);
                assert(rs[i] == y);
                assert(rec_key(rs[i]) == rec_key(rs[rs.len() - 1]));
                assert(end_of(y) <= start_of(last) || end_of(last) <= start_of(y));
                if end_of(y) <= start_of(last) {
                    assert(end_of(y) < n);
                    assert(end_of(rf[j]) <= start_of(x));
                } else {
                    assert(end_of(last) < n);
                    assert(end_of(x) <= start_of(rf[j]));
                }
            }
            assert forall|i: int, j: int|
                0 <= i < j < rb.len() && rec_key(#[trigger] rb[i]) == rec_key(#[trigger] rb[j])
                    implies end_of(rb[i]) <= start_of(rb[j]) || end_of(rb[j]) <= start_of(
                rb[i],
            ) by {
                if j < rb.len() - 1 {
                    assert(rb[i] == rf[i] && rb[j] == rf[j]);
                } else {
                    assert(rb[i] == rf[i] && rb[j] == x);
                }
            }
            assert forall|j: int| 0 <= j < rb.len() implies start_of(#[trigger] rb[j]) < end_of(
                rb[j],
            ) by {
                if j < rb.len() - 1 {
                    assert(rb[j] == rf[j]);
                }
            }
        }
    }
}

/// Invariant maintained while a block's actions run: windows stay
/// well-formed and bounded by `n`, window boundaries are anchored to the
/// block table (or are `n` itself, whose block row is inserted after the
/// actions), and rows already inserted for this block are open and not
/// touched by the remaining actions.
pub open spec fn mid_inv(
    rs: Seq<ChainRecordV>,
    bs: Seq<BlockV>,
    n: int,
    rest: Seq<ActionV>,
) -> bool {
    &&& wf_windows(rs)
    &&& forall|i: int|
        0 <= i < rs.len() ==> {
            let r = #[trigger] rs[i];
            &&& start_of(r) <= n
            &&& (end_of(r) == max_block() || end_of(r) <= n)
            &&& (start_of(r) == n || has_block(bs, start_of(r)))
            &&& (end_of(r) == max_block() || end_of(r) == n || has_block(bs, end_of(r)))
            &&& (start_of(r) == n ==> end_of(r) == max_block() && key_untouched(
                rest,
                rec_key(r),
            ))
        }
}

proof fn lemma_step_preserves(
    rs: Seq<ChainRecordV>,
    bs: Seq<BlockV>,
    n: int,
    a: ActionV,
    rest: Seq<ActionV>,
)
    requires
        mid_inv(rs, bs, n, seq![a] + rest),
        action_stamped(a, n),
        a is Upsert ==> key_untouched(rest, action_key(a)),
        n < max_block(),
    ensures
        mid_inv(step_action(rs, a), bs, n, rest),
{
    let all = seq![a] + rest;
    assert(all[0] == a);
    assert forall|i: int| 0 <= i < rest.len() implies all[i + 1] == rest[i] by {}
    let (k, current, max) = match a {
        ActionV::Upsert(r) => (rec_key(r), start_of(r), end_of(r)),
        ActionV::CloseOnly(k, current, max) => (k, current, max),
    };
    assert(current == n && max == max_block());
    let rs1 = close_key(rs, k, current, max);
    assert(rs1.len() == rs.len());
    // rows already inserted for this block keep clear of k
    assert forall|i: int| 0 <= i < rs.len() && start_of(#[trigger] rs[i]) == n implies rec_key(
        rs[i],
    ) != k by {
        assert(key_untouched(all, rec_key(rs[i])));
        assert(action_key(all[0]) != rec_key(rs[i]));
    }
    assert forall|i: int| 0 <= i < rs.len() implies #[trigger] rs1[i] == close_one(
        rs[i],
        k,
        current,
        max,
    ) && rec_key(rs1[i]) == rec_key(rs[i]) && start_of(rs1[i]) == start_of(rs[i]) by {
        lemma_set_end(rs[i], current);
    }
    // windows after the close pass
    assert forall|i: int| 0 <= i < rs1.len() implies start_of(#[trigger] rs1[i]) < end_of(
        rs1[i],
    ) by {
        if rec_key(rs[i]) == k && end_of(rs[i]) == max {
            assert(start_of(rs[i]) != n);
            assert(start_of(rs[i]) < n);
            assert(end_of(rs1[i]) == n);
        }
    }
    assert forall|i: int, j: int|
        0 <= i < j < rs1.len() && rec_key(#[trigger] rs1[i]) == rec_key(#[trigger] rs1[j])
            implies end_of(rs1[i]) <= start_of(rs1[j]) || end_of(rs1[j]) <= start_of(rs1[i]) by {
        assert(rec_key(rs[i]) == rec_key(rs[j]));
        let ci = rec_key(rs[i]) == k && end_of(rs[i]) == max;
        let cj = rec_key(rs[j]) == k && end_of(rs[j]) == max;
        if ci && cj {
            // two open rows of one key cannot coexist
            assert(end_of(rs[i]) <= start_of(rs[j]) || end_of(rs[j]) <= start_of(rs[i]));
            assert(start_of(rs[j]) <= n || start_of(rs[i]) <= n);
            assert(false);
        } else if ci {
            assert(end_of(rs[j]) <= start_of(rs[i]));
        } else if cj {
            assert(end_of(rs[i]) <= start_of(rs[j]));
        }
    }
    // the remaining mid-invariant clauses after the close pass
    assert forall|i: int| 0 <= i < rs1.len() implies {
        let r = #[trigger] rs1[i];
        &&& start_of(r) <= n
        &&& (end_of(r) == max_block() || end_of(r) <= n)
        &&& (start_of(r) == n || has_block(bs, start_of(r)))
        &&& (end_of(r) == max_block() || end_of(r) == n || has_block(bs, end_of(r)))
        &&& (start_of(r) == n ==> end_of(r) == max_block() && key_untouched(rest, rec_key(r)))
    } by {
        if start_of(rs[i]) == n {
            assert(rec_key(rs[i]) != k);
            assert(rs1[i] == rs[i]);
            assert(key_untouched(all, rec_key(rs[i])));
            assert forall|w: int| 0 <= w < rest.len() implies action_key(#[trigger] rest[w])
                != rec_key(rs1[i]) by {
                assert(all[w + 1] == rest[w]);
            }
        }
    }
    match a {
        ActionV::Upsert(r) => {
            let rs2 = rs1.push(r);
            assert(step_action(rs, a) == rs2);
            assert forall|i: int, j: int|
                0 <= i < j < rs2.len() && rec_key(#[trigger] rs2[i]) == rec_key(
                    #[trigger] rs2[j],
                ) implies end_of(rs2[i]) <= start_of(rs2[j]) || end_of(rs2[j]) <= start_of(
                rs2[i],
            ) by {
                if j == rs2.len() - 1 {
                    assert(rs2[j] == r);
                    assert(rs2[i] == rs1[i]);
                    if rec_key(rs1[i]) == k {
                        if rec_key(rs[i]) == k && end_of(rs[i]) == max {
                            assert(end_of(rs1[i]) == n);
                        } else {
                            assert(rs1[i] == rs[i]);
                            assert(end_of(rs[i]) != max_block());
                            assert(end_of(rs1[i]) <= n);
                        }
                        assert(end_of(rs2[i]) <= start_of(r));
                    }
                } else {
                    assert(rs2[i] == rs1[i] && rs2[j] == rs1[j]);
                }
            }
            assert forall|i: int| 0 <= i < rs2.len() implies {
                let rr = #[trigger] rs2[i];
                &&& start_of(rr) < end_of(rr)
                &&& start_of(rr) <= n
                &&& (end_of(rr) == max_block() || end_of(rr) <= n)
                &&& (start_of(rr) == n || has_block(bs, start_of(rr)))
                &&& (end_of(rr) == max_block() || end_of(rr) == n || has_block(bs, end_of(rr)))
                &&& (start_of(rr) == n ==> end_of(rr) == max_block() && key_untouched(
                    rest,
                    rec_key(rr),
                ))
            } by {
                if i == rs2.len() - 1 {
                    assert(rs2[i] == r);
                } else {
                    assert(rs2[i] == rs1[i]);
                }
            }
        },
        ActionV::CloseOnly(k0, c0, m0) => {
            assert(step_action(rs, a) == rs1);
        },
    }
}

proof fn lemma_run_preserves(
    rs: Seq<ChainRecordV>,
    bs: Seq<BlockV>,
    n: int,
    acts: Seq<ActionV>,
    rest: Seq<ActionV>,
)
    requires
        mid_inv(rs, bs, n, acts + rest),
        acts_wf(acts + rest, n),
        n < max_block(),
    ensures
        mid_inv(run_actions(rs, acts), bs, n, rest),
    decreases acts.len(),
{
    if acts.len() == 0 {
        assert(acts + rest =~= rest);
        assert(run_actions(rs, acts) == rs);
    } else {
        let front = acts.drop_last();
        let a = acts.last();
        assert(acts + rest =~= front + (seq![a] + rest));
        lemma_run_preserves(rs, bs, n, front, seq![a] + rest);
        let all = acts + rest;
        let pos = front.len() as int;
        assert(all[pos] == a);
        assert(action_stamped(a, n));
        if a is Upsert {
            assert forall|w: int| 0 <= w < rest.len() implies action_key(#[trigger] rest[w])
                != action_key(a) by {
                assert(all[pos + 1 + w] == rest[w]);
            }
        }
        lemma_step_preserves(run_actions(rs, front), bs, n, a, rest);
        assert(run_actions(rs, acts) == step_action(run_actions(rs, front), a));
    }
}

} // verus!

verus! {

/// The empty store satisfies the invariant.
pub proof fn lemma_empty_store_inv(st: StoreV)
    requires
        st.blocks.len() == 0,
        st.records.len() == 0,
    ensures
        store_inv(st),
{
}

proof fn lemma_conclude(rs2: Seq<ChainRecordV>, bs1: Seq<BlockV>, n: int, b: BlockV)
    requires
        mid_inv(rs2, bs1, n, Seq::empty()),
        blocks_unique(bs1),
        !has_block(bs1, n),
        b.block_num == n,
    ensures
        store_inv(StoreV { blocks: bs1.push(b), records: rs2 }),
{
    let bs2 = bs1.push(b);
    assert forall|i: int, j: int| 0 <= i < j < bs2.len() implies (#[trigger] bs2[i].block_num)
        != (#[trigger] bs2[j].block_num) by {
        if j == bs2.len() - 1 {
            assert(bs2[i] == bs1[i]);
            if bs1[i].block_num == n {
                assert(has_block(bs1, n));
            }
        } else {
            assert(bs2[i] == bs1[i] && bs2[j] == bs1[j]);
        }
    }
    assert forall|i: int| 0 <= i < rs2.len() implies has_block(bs2, start_of(#[trigger] rs2[i]))
        && (end_of(rs2[i]) == max_block() || has_block(bs2, end_of(rs2[i]))) by {
        if start_of(rs2[i]) == n {
            assert(bs2[bs2.len() - 1].block_num == n);
        } else {
            assert(has_block(bs1, start_of(rs2[i])));
            let w = choose|w: int| 0 <= w < bs1.len() && bs1[w].block_num == start_of(rs2[i]);
            assert(bs2[w] == bs1[w]);
        }
        if end_of(rs2[i]) != max_block() {
            if end_of(rs2[i]) == n {
                assert(bs2[bs2.len() - 1].block_num == n);
            } else {
                assert(has_block(bs1, end_of(rs2[i])));
                let w = choose|w: int| 0 <= w < bs1.len() && bs1[w].block_num == end_of(rs2[i]);
                assert(bs2[w] == bs1[w]);
            }
        }
    }
}

/// Law: the store invariant is preserved by block admission. For every
/// store satisfying the invariant, well-formed operations stamped for the
/// incoming block, and in-order delivery (no recorded block is above the
/// incoming one), the state after `apply_spec` satisfies the invariant
/// again: windows non-empty and pairwise disjoint per key (hence at most
/// one open version per key), block numbers unique, boundaries anchored.
pub proof fn lemma_apply_preserves_inv(st: StoreV, ops: Seq<OpV>, b: BlockV)
    requires
        store_inv(st),
        ops_wf(ops, b.block_num),
        b.block_num < max_block(),
        forall|i: int|
            0 <= i < st.blocks.len() ==> (#[trigger] st.blocks[i].block_num) <= b.block_num,
    ensures
        store_inv(apply_spec(st, ops, b)),
{
    let n = b.block_num;
    let acts = ops_actions(ops);
    assert(acts + Seq::<ActionV>::empty() =~= acts);
    match find_block(st.blocks, n) {
        Some(existing) => {
            if existing.block_id == b.block_id {
            } else {
                let rs1 = rollback_records(st.records, n);
                let bs1 = rollback_blocks(st.blocks, n);
                lemma_rollback_records_wf(st.records, n);
                lemma_rollback_records_elems(st.records, n);
                lemma_rollback_blocks_unique(st.blocks, n);
                lemma_rollback_blocks_membership(st.blocks, n, n);
                assert forall|i: int| 0 <= i < rs1.len() implies {
                    let r = #[trigger] rs1[i];
                    &&& start_of(r) <= n
                    &&& (end_of(r) == max_block() || end_of(r) <= n)
                    &&& (start_of(r) == n || has_block(bs1, start_of(r)))
                    &&& (end_of(r) == max_block() || end_of(r) == n || has_block(
                        bs1,
                        end_of(r),
                    ))
                    &&& (start_of(r) == n ==> end_of(r) == max_block() && key_untouched(
                        acts,
                        rec_key(r),
                    ))
                } by {
                    let w = choose|w: int|
                        0 <= w < st.records.len() && start_of(#[trigger] st.records[w]) < n
                            && rs1[i] == reopen_val(st.records[w], n);
                    lemma_reopen_val(st.records[w], n);
                    assert(has_block(st.blocks, start_of(st.records[w])));
                    lemma_rollback_blocks_membership(st.blocks, n, start_of(rs1[i]));
                    if end_of(rs1[i]) != max_block() {
                        assert(end_of(rs1[i]) == end_of(st.records[w]) && end_of(rs1[i]) < n);
                        assert(has_block(st.blocks, end_of(st.records[w])));
                        lemma_rollback_blocks_membership(st.blocks, n, end_of(rs1[i]));
                    }
                }
                lemma_run_preserves(rs1, bs1, n, acts, Seq::empty());
                lemma_conclude(run_actions(rs1, acts), bs1, n, b);
            }
        },
        None => {
            lemma_find_block_is_some(st.blocks, n);
            assert(!has_block(st.blocks, n));
            assert forall|i: int| 0 <= i < st.records.len() implies {
                let r = #[trigger] st.records[i];
                &&& start_of(r) <= n
                &&& (end_of(r) == max_block() || end_of(r) <= n)
                &&& (start_of(r) == n || has_block(st.blocks, start_of(r)))
                &&& (end_of(r) == max_block() || end_of(r) == n || has_block(
                    st.blocks,
                    end_of(r),
                ))
                &&& (start_of(r) == n ==> end_of(r) == max_block() && key_untouched(
                    acts,
                    rec_key(r),
                ))
            } by {
                assert(has_block(st.blocks, start_of(st.records[i])));
                let w = choose|w: int|
                    0 <= w < st.blocks.len() && st.blocks[w].block_num == start_of(
                        st.records[i],
                    );
                assert(st.blocks[w].block_num <= n);
                if start_of(st.records[i]) == n {
                    assert(has_block(st.blocks, n));
                }
                if end_of(st.records[i]) != max_block() {
                    assert(has_block(st.blocks, end_of(st.records[i])));
                    let v = choose|v: int|
                        0 <= v < st.blocks.len() && st.blocks[v].block_num == end_of(
                            st.records[i],
                        );
                    assert(st.blocks[v].block_num <= n);
                }
            }
            lemma_run_preserves(st.records, st.blocks, n, acts, Seq::empty());
            lemma_conclude(run_actions(st.records, acts), st.blocks, n, b);
        },
    }
}

/// Law: fork rollback correctness. Delivering a block whose number is
/// already recorded under a different identity discards the abandoned
/// branch: the block table afterwards holds exactly the blocks recorded
/// below the fork point plus the new block, every surviving row started
/// below the fork point (rows of the abandoned branch are gone), each
/// surviving row is a pre-fork row reopened if the branch had closed it
/// at or after the fork point, and every pre-fork row survives.
pub proof fn lemma_fork_rollback(st: StoreV, ops: Seq<OpV>, b: BlockV)
    requires
        find_block(st.blocks, b.block_num) is Some,
        find_block(st.blocks, b.block_num).unwrap().block_id != b.block_id,
    ensures
        apply_spec(st, ops, b).blocks == rollback_blocks(st.blocks, b.block_num).push(b),
        forall|m: int|
            #![trigger has_block(rollback_blocks(st.blocks, b.block_num), m)]
            has_block(rollback_blocks(st.blocks, b.block_num), m) <==> (has_block(st.blocks, m)
                && m < b.block_num),
        apply_spec(st, ops, b).records == run_actions(
            rollback_records(st.records, b.block_num),
            ops_actions(ops),
        ),
        forall|j: int|
            #![trigger rollback_records(st.records, b.block_num)[j]]
            0 <= j < rollback_records(st.records, b.block_num).len() ==> exists|i: int|
                0 <= i < st.records.len() && start_of(#[trigger] st.records[i]) < b.block_num
                    && rollback_records(st.records, b.block_num)[j] == reopen_val(
                    st.records[i],
                    b.block_num,
                ),
        forall|i: int|
            0 <= i < st.records.len() && start_of(#[trigger] st.records[i]) < b.block_num
                ==> exists|j: int|
                0 <= j < rollback_records(st.records, b.block_num).len()
                    && #[trigger] rollback_records(st.records, b.block_num)[j] == reopen_val(
                    st.records[i],
                    b.block_num,
                ),
{
    lemma_rollback_records_elems(st.records, b.block_num);
    lemma_rollback_records_complete(st.records, b.block_num);
    assert forall|m: int|
        has_block(#[trigger] rollback_blocks(st.blocks, b.block_num), m) <==> (has_block(
        st.blocks,
        m,
    ) && m < b.block_num) by {
        lemma_rollback_blocks_membership(st.blocks, b.block_num, m);
    }
}

} // verus!
