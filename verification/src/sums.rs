//! Selection and summation over transaction snapshots.
//!
//! Every report filters the snapshot by a period (and possibly a type),
//! sums amounts, counts transactions, and groups by category identifier.
//! The spec functions here state those operations once, over a selection
//! predicate and a weight, and the lemmas give the facts the reports need:
//! sums of non-negative weights are bounded, the grouped identifiers are
//! distinct and complete, and the per-category sums partition the total.

use vstd::prelude::*;

use crate::date::Date;
use crate::transactions::{Transaction, TransactionType};

verus! {

/// A reporting window.
#[derive(Clone, Copy, Debug)]
pub enum Period {
    /// One calendar month of one year.
    Month { year: i32, month: u32 },
    /// A whole calendar year.
    Year { year: i32 },
    /// An inclusive date range; an absent bound does not filter.
    Between { start: Option<Date>, end: Option<Date> },
}

impl Period {
    pub open spec fn contains(self, d: Date) -> bool {
        match self {
            Period::Month { year, month } => d.year == year && d.month == month,
            Period::Year { year } => d.year == year,
            Period::Between { start, end } => {
                &&& (start matches Some(sd) ==> sd.le(d))
                &&& (end matches Some(ed) ==> d.le(ed))
            },
        }
    }

    pub fn contains_date(&self, d: &Date) -> (b: bool)
        ensures
            b == self.contains(*d),
    {
        match self {
            Period::Month { year, month } => d.year == *year && d.month == *month,
            Period::Year { year } => d.year == *year,
            Period::Between { start, end } => {
                let after_start = match start {
                    Some(sd) => sd.lte(d),
                    None => true,
                };
                let before_end = match end {
                    Some(ed) => d.lte(ed),
                    None => true,
                };
                after_start && before_end
            },
        }
    }
}

/// The transactions a report line selects: dated in the window, and of the
/// given type when one is given.
pub open spec fn sel_by(p: Period, ty: Option<TransactionType>) -> spec_fn(Transaction) -> bool {
    |t: Transaction| p.contains(t.transaction_date) && (ty matches Some(k) ==> t.transaction_type == k)
}

/// The given selection narrowed to one category.
pub open spec fn sel_cat(sel: spec_fn(Transaction) -> bool, cat: i64) -> spec_fn(Transaction) -> bool {
    |t: Transaction| sel(t) && t.category_id == cat
}

/// The selection that keeps everything.
pub open spec fn all_txs() -> spec_fn(Transaction) -> bool {
    |t: Transaction| true
}

/// Weighing a transaction by its amount.
pub open spec fn amount_of() -> spec_fn(Transaction) -> int {
    |t: Transaction| t.amount as int
}

/// Weighing every transaction as one, for counting.
pub open spec fn one_each() -> spec_fn(Transaction) -> int {
    |t: Transaction| 1
}

/// Total weight of the selected transactions.
pub open spec fn sum_by(
    txs: Seq<Transaction>,
    sel: spec_fn(Transaction) -> bool,
    w: spec_fn(Transaction) -> int,
) -> int
    decreases txs.len(),
{
    if txs.len() == 0 {
        0
    } else {
        sum_by(txs.drop_last(), sel, w) + (if sel(txs.last()) {
            w(txs.last())
        } else {
            0
        })
    }
}

/// Category identifiers of the selected transactions, first occurrence
/// first, each once.
pub open spec fn ids_by(txs: Seq<Transaction>, sel: spec_fn(Transaction) -> bool) -> Seq<i64>
    decreases txs.len(),
{
    if txs.len() == 0 {
        Seq::empty()
    } else {
        let rest = ids_by(txs.drop_last(), sel);
        if sel(txs.last()) && !rest.contains(txs.last().category_id) {
            rest.push(txs.last().category_id)
        } else {
            rest
        }
    }
}

/// Some selected transaction carries this category identifier.
pub open spec fn sel_has_cat(txs: Seq<Transaction>, sel: spec_fn(Transaction) -> bool, id: i64) -> bool {
    exists|i: int| 0 <= i < txs.len() && #[trigger] sel(txs[i]) && txs[i].category_id == id
}

/// Sum of all amounts in the snapshot.
pub open spec fn sum_amounts(txs: Seq<Transaction>) -> int {
    sum_by(txs, all_txs(), amount_of())
}

/// A snapshot the engine can total: amounts are non-negative magnitudes,
/// their sum fits an `i64`, and the number of transactions fits an `i32`
/// count.
pub open spec fn amounts_ok(txs: Seq<Transaction>) -> bool {
    &&& forall|i: int| 0 <= i < txs.len() ==> 0 <= #[trigger] txs[i].amount
    &&& sum_amounts(txs) <= i64::MAX
    &&& txs.len() <= i32::MAX
}

/// Every date in the snapshot is a real calendar day.
pub open spec fn dates_valid(txs: Seq<Transaction>) -> bool {
    forall|i: int| 0 <= i < txs.len() ==> (#[trigger] txs[i].transaction_date).valid()
}

/// Decides `amounts_ok` at run time, for callers that take a snapshot from
/// outside and must establish it before asking for a report.
pub fn amounts_ok_check(txs: &Vec<Transaction>) -> (b: bool)
    ensures
        b == amounts_ok(txs@),
{
    let n = txs.len();
    if n > (i32::MAX as usize) {
        return false;
    }
    let mut i: usize = 0;
    while i < n
        invariant
            i <= n,
            n == txs@.len(),
            forall|k: int| 0 <= k < i ==> 0 <= #[trigger] txs@[k].amount,
        decreases n - i,
    {
        if txs[i].amount < 0 {
            return false;
        }
        i = i + 1;
    }
    let mut acc: i128 = 0;
    let mut j: usize = 0;
    while j < n
        invariant
            j <= n,
            n == txs@.len(),
            n <= i32::MAX,
            forall|k: int| 0 <= k < n ==> 0 <= #[trigger] txs@[k].amount,
            acc == sum_by(txs@.take(j as int), all_txs(), amount_of()),
            0 <= acc <= (j as int) * (i64::MAX as int),
        decreases n - j,
    {
        proof {
            lemma_sum_by_take_step(txs@, j as int, all_txs(), amount_of());
            assert((j as int + 1) * (i64::MAX as int) == (j as int) * (i64::MAX as int) + (
            i64::MAX as int)) by (nonlinear_arith);
            assert((j as int + 1) * (i64::MAX as int) <= (i32::MAX as int) * (i64::MAX as int)) by (nonlinear_arith)
                requires
                    j as int + 1 <= i32::MAX as int,
            ;
        }
        acc = acc + (txs[j].amount as i128);
        j = j + 1;
    }
    proof {
        assert(txs@.take(n as int) =~= txs@);
    }
    acc <= (i64::MAX as i128)
}

/// Extending a prefix by one transaction adds its weight when selected.
pub proof fn lemma_sum_by_take_step(
    txs: Seq<Transaction>,
    i: int,
    sel: spec_fn(Transaction) -> bool,
    w: spec_fn(Transaction) -> int,
)
    requires
        0 <= i < txs.len(),
    ensures
        sum_by(txs.take(i + 1), sel, w) == sum_by(txs.take(i), sel, w) + (if sel(txs[i]) {
            w(txs[i])
        } else {
            0
        }),
{
    assert(txs.take(i + 1).drop_last() =~= txs.take(i));
    assert(txs.take(i + 1).last() == txs[i]);
}

/// Extending a prefix by one transaction keeps or appends its identifier.
pub proof fn lemma_ids_by_take_step(txs: Seq<Transaction>, i: int, sel: spec_fn(Transaction) -> bool)
    requires
        0 <= i < txs.len(),
    ensures
        ids_by(txs.take(i + 1), sel) == (if sel(txs[i]) && !ids_by(txs.take(i), sel).contains(
            txs[i].category_id,
        ) {
            ids_by(txs.take(i), sel).push(txs[i].category_id)
        } else {
            ids_by(txs.take(i), sel)
        }),
{
    assert(txs.take(i + 1).drop_last() =~= txs.take(i));
    assert(txs.take(i + 1).last() == txs[i]);
}

/// A narrower selection of non-negative weights totals no more.
pub proof fn lemma_sum_by_le(
    txs: Seq<Transaction>,
    sel1: spec_fn(Transaction) -> bool,
    sel2: spec_fn(Transaction) -> bool,
    w: spec_fn(Transaction) -> int,
)
    requires
        forall|i: int| 0 <= i < txs.len() ==> 0 <= #[trigger] w(txs[i]),
        forall|i: int| 0 <= i < txs.len() && #[trigger] sel1(txs[i]) ==> sel2(txs[i]),
    ensures
        0 <= sum_by(txs, sel1, w) <= sum_by(txs, sel2, w),
    decreases txs.len(),
{
    if txs.len() > 0 {
        let s = txs.drop_last();
        assert forall|i: int| 0 <= i < s.len() implies 0 <= #[trigger] w(s[i]) by {
            assert(s[i] == txs[i]);
        }
        assert forall|i: int| 0 <= i < s.len() && #[trigger] sel1(s[i]) implies sel2(s[i]) by {
            assert(s[i] == txs[i]);
        }
        lemma_sum_by_le(s, sel1, sel2, w);
        assert(sel1(txs.last()) ==> sel2(txs.last()));
        assert(0 <= w(txs.last()));
    }
}

/// The weight selected from a prefix stays within the weight selected from
/// the whole snapshot.
pub proof fn lemma_sum_by_take_le(
    txs: Seq<Transaction>,
    i: int,
    sel: spec_fn(Transaction) -> bool,
    w: spec_fn(Transaction) -> int,
)
    requires
        0 <= i <= txs.len(),
        forall|k: int| 0 <= k < txs.len() ==> 0 <= #[trigger] w(txs[k]),
    ensures
        sum_by(txs.take(i), sel, w) <= sum_by(txs, sel, w),
    decreases txs.len() - i,
{
    if i == txs.len() {
        assert(txs.take(i) =~= txs);
    } else {
        lemma_sum_by_take_step(txs, i, sel, w);
        lemma_sum_by_take_le(txs, i + 1, sel, w);
    }
}

/// Counting selected transactions gives at most one per transaction.
pub proof fn lemma_count_by_le_len(txs: Seq<Transaction>, sel: spec_fn(Transaction) -> bool)
    ensures
        0 <= sum_by(txs, sel, one_each()) <= txs.len(),
    decreases txs.len(),
{
    if txs.len() > 0 {
        lemma_count_by_le_len(txs.drop_last(), sel);
        assert(one_each()(txs.last()) == 1);
    }
}

/// The selected transactions, in their stored order.
pub open spec fn kept(txs: Seq<Transaction>, sel: spec_fn(Transaction) -> bool) -> Seq<Transaction>
    decreases txs.len(),
{
    if txs.len() == 0 {
        Seq::empty()
    } else {
        let rest = kept(txs.drop_last(), sel);
        if sel(txs.last()) {
            rest.push(txs.last())
        } else {
            rest
        }
    }
}

/// Extending a prefix by one transaction keeps or appends it.
pub proof fn lemma_kept_take_step(txs: Seq<Transaction>, i: int, sel: spec_fn(Transaction) -> bool)
    requires
        0 <= i < txs.len(),
    ensures
        kept(txs.take(i + 1), sel) == (if sel(txs[i]) {
            kept(txs.take(i), sel).push(txs[i])
        } else {
            kept(txs.take(i), sel)
        }),
{
    assert(txs.take(i + 1).drop_last() =~= txs.take(i));
    assert(txs.take(i + 1).last() == txs[i]);
}

/// Selections that agree on the snapshot give the same total.
pub proof fn lemma_sum_by_ext(
    txs: Seq<Transaction>,
    sel1: spec_fn(Transaction) -> bool,
    sel2: spec_fn(Transaction) -> bool,
    w: spec_fn(Transaction) -> int,
)
    requires
        forall|i: int| 0 <= i < txs.len() ==> #[trigger] sel1(txs[i]) == sel2(txs[i]),
    ensures
        sum_by(txs, sel1, w) == sum_by(txs, sel2, w),
    decreases txs.len(),
{
    if txs.len() > 0 {
        let s = txs.drop_last();
        assert forall|i: int| 0 <= i < s.len() implies #[trigger] sel1(s[i]) == sel2(s[i]) by {
            assert(s[i] == txs[i]);
        }
        lemma_sum_by_ext(s, sel1, sel2, w);
        assert(sel1(txs[txs.len() - 1]) == sel2(txs[txs.len() - 1]));
    }
}

/// A selection that keeps everything counts every transaction.
pub proof fn lemma_count_by_all(txs: Seq<Transaction>, sel: spec_fn(Transaction) -> bool)
    requires
        forall|i: int| 0 <= i < txs.len() ==> #[trigger] sel(txs[i]),
    ensures
        sum_by(txs, sel, one_each()) == txs.len(),
    decreases txs.len(),
{
    if txs.len() > 0 {
        let s = txs.drop_last();
        assert forall|i: int| 0 <= i < s.len() implies #[trigger] sel(s[i]) by {
            assert(s[i] == txs[i]);
        }
        lemma_count_by_all(s, sel);
        assert(sel(txs[txs.len() - 1]));
        assert(one_each()(txs.last()) == 1);
    }
}

/// The grouped identifiers never repeat.
pub proof fn lemma_ids_by_distinct(txs: Seq<Transaction>, sel: spec_fn(Transaction) -> bool)
    ensures
        forall|i: int, j: int|
            0 <= i < j < ids_by(txs, sel).len() ==> ids_by(txs, sel)[i] != ids_by(txs, sel)[j],
    decreases txs.len(),
{
    if txs.len() > 0 {
        let s = txs.drop_last();
        lemma_ids_by_distinct(s, sel);
        let rest = ids_by(s, sel);
        let cat = txs.last().category_id;
        if sel(txs.last()) && !rest.contains(cat) {
            let ids = rest.push(cat);
            assert forall|i: int, j: int| 0 <= i < j < ids.len() implies ids[i] != ids[j] by {
                if j == ids.len() - 1 {
                    assert(ids[i] == rest[i]);
                    if ids[i] == cat {
                        assert(rest.contains(cat));
                    }
                } else {
                    assert(ids[i] == rest[i] && ids[j] == rest[j]);
                }
            }
        }
    }
}

/// An identifier stands among the grouped identifiers exactly when some
/// selected transaction carries it.
pub proof fn lemma_ids_by_complete(txs: Seq<Transaction>, sel: spec_fn(Transaction) -> bool)
    ensures
        forall|id: i64| #[trigger] ids_by(txs, sel).contains(id) <==> sel_has_cat(txs, sel, id),
    decreases txs.len(),
{
    if txs.len() > 0 {
        let s = txs.drop_last();
        lemma_ids_by_complete(s, sel);
        assert forall|id: i64| #[trigger] ids_by(txs, sel).contains(id) implies sel_has_cat(
            txs,
            sel,
            id,
        ) by {
            if ids_by(s, sel).contains(id) {
                let k = choose|k: int| 0 <= k < s.len() && #[trigger] sel(s[k]) && s[k].category_id == id;
                assert(sel(txs[k]) && txs[k].category_id == id);
            } else {
                assert(sel(txs[txs.len() - 1]) && txs[txs.len() - 1].category_id == id);
            }
        }
        assert forall|id: i64| sel_has_cat(txs, sel, id) implies #[trigger] ids_by(txs, sel).contains(
            id,
        ) by {
            let k = choose|k: int| 0 <= k < txs.len() && #[trigger] sel(txs[k]) && txs[k].category_id == id;
            if k < s.len() {
                assert(sel(s[k]) && s[k].category_id == id);
                assert(ids_by(s, sel).contains(id));
                if sel(txs.last()) && !ids_by(s, sel).contains(txs.last().category_id) {
                    let j = choose|j: int| 0 <= j < ids_by(s, sel).len() && ids_by(s, sel)[j] == id;
                    assert(ids_by(txs, sel)[j] == id);
                }
            } else {
                if !ids_by(s, sel).contains(id) {
                    assert(ids_by(txs, sel).last() == id);
                } else {
                    let j = choose|j: int| 0 <= j < ids_by(s, sel).len() && ids_by(s, sel)[j] == id;
                    if sel(txs.last()) && !ids_by(s, sel).contains(txs.last().category_id) {
                        assert(ids_by(txs, sel)[j] == id);
                    }
                }
            }
        }
    }
}

/// No selected transaction of a category means a zero category total.
pub proof fn lemma_sum_by_none_zero(
    txs: Seq<Transaction>,
    sel: spec_fn(Transaction) -> bool,
    w: spec_fn(Transaction) -> int,
    id: i64,
)
    requires
        !sel_has_cat(txs, sel, id),
    ensures
        sum_by(txs, sel_cat(sel, id), w) == 0,
    decreases txs.len(),
{
    if txs.len() > 0 {
        let s = txs.drop_last();
        assert(!sel_has_cat(s, sel, id)) by {
            if sel_has_cat(s, sel, id) {
                let k = choose|k: int| 0 <= k < s.len() && #[trigger] sel(s[k]) && s[k].category_id == id;
                assert(sel(txs[k]) && txs[k].category_id == id);
            }
        }
        lemma_sum_by_none_zero(s, sel, w, id);
        assert(!(sel(txs[txs.len() - 1]) && txs[txs.len() - 1].category_id == id));
        assert(!sel_cat(sel, id)(txs.last()));
    }
}

/// Sum, over a list of category identifiers, of each category's selected
/// total.
pub open spec fn sum_cat_over(
    ids: Seq<i64>,
    txs: Seq<Transaction>,
    sel: spec_fn(Transaction) -> bool,
    w: spec_fn(Transaction) -> int,
) -> int
    decreases ids.len(),
{
    if ids.len() == 0 {
        0
    } else {
        sum_cat_over(ids.drop_last(), txs, sel, w) + sum_by(txs, sel_cat(sel, ids.last()), w)
    }
}

/// Appending one transaction raises exactly one category total, the one of
/// its identifier, when the identifiers are distinct.
pub proof fn lemma_sum_cat_over_push_tx(
    ids: Seq<i64>,
    txs: Seq<Transaction>,
    t: Transaction,
    sel: spec_fn(Transaction) -> bool,
    w: spec_fn(Transaction) -> int,
)
    requires
        forall|i: int, j: int| 0 <= i < j < ids.len() ==> ids[i] != ids[j],
    ensures
        sum_cat_over(ids, txs.push(t), sel, w) == sum_cat_over(ids, txs, sel, w) + (if sel(t)
            && ids.contains(t.category_id) {
            w(t)
        } else {
            0
        }),
    decreases ids.len(),
{
    if ids.len() > 0 {
        let rest = ids.drop_last();
        let id = ids.last();
        assert(txs.push(t).drop_last() =~= txs);
        assert(txs.push(t).last() == t);
        assert forall|i: int, j: int| 0 <= i < j < rest.len() implies rest[i] != rest[j] by {
            assert(rest[i] == ids[i] && rest[j] == ids[j]);
        }
        lemma_sum_cat_over_push_tx(rest, txs, t, sel, w);
        if rest.contains(id) {
            let j = choose|j: int| 0 <= j < rest.len() && rest[j] == id;
            assert(ids[j] == ids[ids.len() - 1]);
            assert(false);
        }
        assert(sel_cat(sel, id)(t) == (sel(t) && t.category_id == id));
        if ids.contains(t.category_id) {
            let j = choose|j: int| 0 <= j < ids.len() && ids[j] == t.category_id;
            if j < ids.len() - 1 {
                assert(rest[j] == t.category_id);
                assert(rest.contains(t.category_id));
                assert(t.category_id != id);
            } else {
                assert(t.category_id == id);
                assert(!rest.contains(t.category_id));
            }
        } else {
            assert(t.category_id != id) by {
                if t.category_id == id {
                    assert(ids[ids.len() - 1] == t.category_id);
                }
            }
            assert(!rest.contains(t.category_id)) by {
                if rest.contains(t.category_id) {
                    let j = choose|j: int| 0 <= j < rest.len() && rest[j] == t.category_id;
                    assert(ids[j] == t.category_id);
                }
            }
        }
    }
}

/// The per-category totals partition the selected total: summed over the
/// grouped identifiers they give back the selected total, so each selected
/// transaction is counted exactly once.
pub proof fn lemma_partition(
    txs: Seq<Transaction>,
    sel: spec_fn(Transaction) -> bool,
    w: spec_fn(Transaction) -> int,
)
    ensures
        sum_cat_over(ids_by(txs, sel), txs, sel, w) == sum_by(txs, sel, w),
    decreases txs.len(),
{
    if txs.len() > 0 {
        let s = txs.drop_last();
        let t = txs.last();
        lemma_partition(s, sel, w);
        lemma_ids_by_distinct(s, sel);
        lemma_ids_by_complete(s, sel);
        assert(s.push(t) =~= txs);
        let ids = ids_by(s, sel);
        if sel(t) {
            if ids.contains(t.category_id) {
                assert(ids_by(txs, sel) == ids);
                lemma_sum_cat_over_push_tx(ids, s, t, sel, w);
                assert(sum_cat_over(ids, txs, sel, w) == sum_cat_over(ids, s, sel, w) + w(t));
            } else {
                let cat = t.category_id;
                assert(ids_by(txs, sel) == ids.push(cat));
                assert(ids.push(cat).drop_last() =~= ids);
                assert(ids.push(cat).last() == cat);
                lemma_sum_cat_over_push_tx(ids, s, t, sel, w);
                assert(sum_cat_over(ids, txs, sel, w) == sum_cat_over(ids, s, sel, w));
                assert(!sel_has_cat(s, sel, cat));
                lemma_sum_by_none_zero(s, sel, w, cat);
                assert(sel_cat(sel, cat)(t));
                assert(sum_by(txs, sel_cat(sel, cat), w) == sum_by(s, sel_cat(sel, cat), w) + w(t));
            }
        } else {
            assert(ids_by(txs, sel) == ids);
            lemma_sum_cat_over_push_tx(ids, s, t, sel, w);
            assert(sum_cat_over(ids, txs, sel, w) == sum_cat_over(ids, s, sel, w));
        }
    }
}

} // verus!
