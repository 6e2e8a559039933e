//! The reporting engine: monthly, yearly, and date-range category reports
//! over a snapshot of transactions and categories.
//!
//! Each report is stated by a spec function that computes the whole report
//! value; the executable functions return exactly that value, so a report is
//! a pure function of its snapshot and window.

use vstd::prelude::*;

use crate::categories::{lookup_name, name_of, Category};
use crate::date::{parse_date, spec_parse_date, today, Date};
use crate::sums::{
    all_txs, amount_of, amounts_ok, ids_by, lemma_count_by_le_len, lemma_ids_by_complete,
    lemma_ids_by_distinct, lemma_sum_by_le, lemma_sum_by_none_zero, lemma_sum_by_take_le,
    lemma_sum_by_take_step, lemma_ids_by_take_step, one_each, sel_by, sel_cat, sel_has_cat, sum_by,
    sum_amounts, Period,
};
use crate::transactions::{Transaction, TransactionType};

verus! {

/// Query parameters for the monthly report; absent parts default to the
/// current calendar date's.
#[derive(Debug)]
pub struct MonthlyReportQuery {
    pub year: Option<i32>,
    pub month: Option<u32>,
}

/// Query parameters for the yearly report; an absent year defaults to the
/// current one.
#[derive(Debug)]
pub struct YearlyReportQuery {
    pub year: Option<i32>,
}

/// Query parameters for the category report: optional inclusive bounds as
/// `YYYY-MM-DD` text. A malformed bound is ignored, not rejected.
#[derive(Debug)]
pub struct CategoryReportQuery {
    pub start_date: Option<String>,
    pub end_date: Option<String>,
}

/// One category's share of a report: the selected transactions of that
/// category, summed and counted.
#[derive(Debug, PartialEq)]
pub struct CategorySummary {
    pub category_id: i64,
    pub category_name: String,
    pub total_amount: i64,
    pub transaction_count: i32,
}

/// The value of a `CategorySummary`, with the name as characters.
#[verifier::ext_equal]
pub ghost struct CategorySummaryView {
    pub category_id: i64,
    pub category_name: Seq<char>,
    pub total_amount: i64,
    pub transaction_count: i32,
}

impl View for CategorySummary {
    type V = CategorySummaryView;

    open spec fn view(&self) -> CategorySummaryView {
        CategorySummaryView {
            category_id: self.category_id,
            category_name: self.category_name@,
            total_amount: self.total_amount,
            transaction_count: self.transaction_count,
        }
    }
}

/// One month's line of the yearly report.
#[derive(Clone, Copy, Debug, PartialEq, Eq, Structural)]
pub struct MonthlySummary {
    pub month: u32,
    pub total_income: i64,
    pub total_expense: i64,
    pub net_balance: i64,
}

/// The monthly report: totals for one calendar month, split by type, with
/// per-category groups on each side. The group lists carry no promised
/// order.
#[derive(Debug, PartialEq)]
pub struct MonthlyReportResponse {
    pub year: i32,
    pub month: u32,
    pub total_income: i64,
    pub total_expense: i64,
    pub net_balance: i64,
    pub income_by_category: Vec<CategorySummary>,
    pub expense_by_category: Vec<CategorySummary>,
}

#[verifier::ext_equal]
pub ghost struct MonthlyReportResponseView {
    pub year: i32,
    pub month: u32,
    pub total_income: i64,
    pub total_expense: i64,
    pub net_balance: i64,
    pub income_by_category: Seq<CategorySummaryView>,
    pub expense_by_category: Seq<CategorySummaryView>,
}

impl View for MonthlyReportResponse {
    type V = MonthlyReportResponseView;

    open spec fn view(&self) -> MonthlyReportResponseView {
        MonthlyReportResponseView {
            year: self.year,
            month: self.month,
            total_income: self.total_income,
            total_expense: self.total_expense,
            net_balance: self.net_balance,
            income_by_category: views_of(self.income_by_category@),
            expense_by_category: views_of(self.expense_by_category@),
        }
    }
}

/// The yearly report: totals for one year, and exactly twelve monthly
/// lines, month ascending.
#[derive(Debug, PartialEq)]
pub struct YearlyReportResponse {
    pub year: i32,
    pub total_income: i64,
    pub total_expense: i64,
    pub net_balance: i64,
    pub monthly_summary: Vec<MonthlySummary>,
}

#[verifier::ext_equal]
pub ghost struct YearlyReportResponseView {
    pub year: i32,
    pub total_income: i64,
    pub total_expense: i64,
    pub net_balance: i64,
    pub monthly_summary: Seq<MonthlySummary>,
}

impl View for YearlyReportResponse {
    type V = YearlyReportResponseView;

    open spec fn view(&self) -> YearlyReportResponseView {
        YearlyReportResponseView {
            year: self.year,
            total_income: self.total_income,
            total_expense: self.total_expense,
            net_balance: self.net_balance,
            monthly_summary: self.monthly_summary@,
        }
    }
}

/// The category report: per-category groups over an optional inclusive date
/// range, ignoring type in the grouping, with the two grand totals beside
/// them and the bounds echoed as given.
#[derive(Debug, PartialEq)]
pub struct CategoryReportResponse {
    pub start_date: Option<String>,
    pub end_date: Option<String>,
    pub categories: Vec<CategorySummary>,
    pub total_income: i64,
    pub total_expense: i64,
}

#[verifier::ext_equal]
pub ghost struct CategoryReportResponseView {
    pub start_date: Option<Seq<char>>,
    pub end_date: Option<Seq<char>>,
    pub categories: Seq<CategorySummaryView>,
    pub total_income: i64,
    pub total_expense: i64,
}

impl View for CategoryReportResponse {
    type V = CategoryReportResponseView;

    open spec fn view(&self) -> CategoryReportResponseView {
        CategoryReportResponseView {
            start_date: opt_text(self.start_date),
            end_date: opt_text(self.end_date),
            categories: views_of(self.categories@),
            total_income: self.total_income,
            total_expense: self.total_expense,
        }
    }
}

/// The characters of an optional text.
pub open spec fn opt_text(o: Option<String>) -> Option<Seq<char>> {
    match o {
        Some(s) => Some(s@),
        None => None,
    }
}

/// The values of a list of category summaries.
pub open spec fn views_of(s: Seq<CategorySummary>) -> Seq<CategorySummaryView> {
    s.map_values(|c: CategorySummary| c@)
}

/// The summary of one category under a selection: its selected total and
/// count, under its resolved name.
pub open spec fn summary_fn(
    txs: Seq<Transaction>,
    cats: Seq<Category>,
    sel: spec_fn(Transaction) -> bool,
) -> spec_fn(i64) -> CategorySummaryView {
    |id: i64|
        CategorySummaryView {
            category_id: id,
            category_name: name_of(cats, id),
            total_amount: sum_by(txs, sel_cat(sel, id), amount_of()) as i64,
            transaction_count: sum_by(txs, sel_cat(sel, id), one_each()) as i32,
        }
}

/// The per-category groups of a selection: one summary per category
/// identifier carried by a selected transaction, first occurrence first.
pub open spec fn summaries(
    txs: Seq<Transaction>,
    cats: Seq<Category>,
    sel: spec_fn(Transaction) -> bool,
) -> Seq<CategorySummaryView> {
    ids_by(txs, sel).map_values(summary_fn(txs, cats, sel))
}

/// Whether this transaction falls in the window and has the wanted type.
fn selected(t: &Transaction, p: &Period, ty: Option<TransactionType>) -> (b: bool)
    ensures
        b == sel_by(*p, ty)(*t),
{
    let type_ok = match ty {
        Some(k) => t.transaction_type == k,
        None => true,
    };
    p.contains_date(&t.transaction_date) && type_ok
}

/// Sums the amounts of the transactions in the window, of the wanted type.
pub fn total_amount(txs: &Vec<Transaction>, p: &Period, ty: Option<TransactionType>) -> (r: i64)
    requires
        amounts_ok(txs@),
    ensures
        r == sum_by(txs@, sel_by(*p, ty), amount_of()),
        0 <= r,
{
    let ghost sel = sel_by(*p, ty);
    let mut total: i64 = 0;
    let n = txs.len();
    let mut i: usize = 0;
    while i < n
        invariant
            i <= n,
            n == txs@.len(),
            amounts_ok(txs@),
            sel == sel_by(*p, ty),
            total == sum_by(txs@.take(i as int), sel, amount_of()),
            0 <= total,
        decreases n - i,
    {
        let t = &txs[i];
        proof {
            lemma_sum_by_take_step(txs@, i as int, sel, amount_of());
            lemma_amounts_bound(txs@, i as int + 1, sel);
        }
        if selected(t, p, ty) {
            total = total + t.amount;
        }
        i = i + 1;
    }
    proof {
        assert(txs@.take(n as int) =~= txs@);
    }
    total
}

/// The selected amounts in any prefix total between zero and the sum of all
/// amounts in the snapshot.
proof fn lemma_amounts_bound(txs: Seq<Transaction>, i: int, sel: spec_fn(Transaction) -> bool)
    requires
        amounts_ok(txs),
        0 <= i <= txs.len(),
    ensures
        0 <= sum_by(txs.take(i), sel, amount_of()) <= sum_amounts(txs),
{
    let pre = txs.take(i);
    assert forall|k: int| 0 <= k < pre.len() implies 0 <= #[trigger] amount_of()(pre[k]) by {
        assert(pre[k] == txs[k]);
    }
    assert forall|k: int| 0 <= k < pre.len() && #[trigger] sel(pre[k]) implies all_txs()(pre[k]) by {}
    lemma_sum_by_le(pre, sel, all_txs(), amount_of());
    assert forall|k: int| 0 <= k < txs.len() implies 0 <= #[trigger] amount_of()(txs[k]) by {}
    lemma_sum_by_take_le(txs, i, all_txs(), amount_of());
}

/// Finds the group already opened for a category identifier.
fn find_group(groups: &Vec<CategorySummary>, id: i64) -> (r: Option<usize>)
    ensures
        r matches Some(j) ==> j < groups@.len() && groups@[j as int].category_id == id,
        r is None ==> forall|k: int| 0 <= k < groups@.len() ==> groups@[k].category_id != id,
{
    let n = groups.len();
    let mut i: usize = 0;
    while i < n
        invariant
            i <= n,
            n == groups@.len(),
            forall|k: int| 0 <= k < i ==> groups@[k].category_id != id,
        decreases n - i,
    {
        if groups[i].category_id == id {
            return Some(i);
        }
        i = i + 1;
    }
    None
}

/// Groups the selected transactions by category identifier, summing and
/// counting each group under its resolved category name. Groups come in
/// first-occurrence order, one per identifier.
pub fn category_summaries(
    txs: &Vec<Transaction>,
    cats: &Vec<Category>,
    p: &Period,
    ty: Option<TransactionType>,
) -> (r: Vec<CategorySummary>)
    requires
        amounts_ok(txs@),
    ensures
        views_of(r@) == summaries(txs@, cats@, sel_by(*p, ty)),
{
    let ghost sel = sel_by(*p, ty);
    let mut groups: Vec<CategorySummary> = Vec::new();
    let n = txs.len();
    let mut i: usize = 0;
    proof {
        assert(views_of(groups@) =~= summaries(txs@.take(0), cats@, sel));
    }
    while i < n
        invariant
            i <= n,
            n == txs@.len(),
            amounts_ok(txs@),
            sel == sel_by(*p, ty),
            views_of(groups@) == summaries(txs@.take(i as int), cats@, sel),
        decreases n - i,
    {
        let ghost pre = txs@.take(i as int);
        let ghost post = txs@.take(i as int + 1);
        let ghost ids = ids_by(pre, sel);
        proof {
            lemma_ids_by_take_step(txs@, i as int, sel);
            lemma_ids_by_distinct(pre, sel);
            lemma_ids_by_complete(pre, sel);
            assert(views_of(groups@).len() == groups@.len());
            assert(summaries(pre, cats@, sel).len() == ids.len());
            assert(groups@.len() == ids.len());
            assert forall|k: int| 0 <= k < ids.len() implies #[trigger] groups@[k].category_id
                == ids[k] by {
                assert(views_of(groups@)[k] == groups@[k]@);
                assert(summaries(pre, cats@, sel)[k] == summary_fn(pre, cats@, sel)(ids[k]));
                assert(views_of(groups@)[k] == summaries(pre, cats@, sel)[k]);
            }
        }
        let t = &txs[i];
        if selected(t, p, ty) {
            let cat = t.category_id;
            proof {
                lemma_amounts_bound(txs@, i as int + 1, sel_cat(sel, cat));
                lemma_sum_by_take_step(txs@, i as int, sel_cat(sel, cat), amount_of());
                lemma_sum_by_take_step(txs@, i as int, sel_cat(sel, cat), one_each());
                lemma_count_by_le_len(post, sel_cat(sel, cat));
                assert(sel_cat(sel, cat)(txs@[i as int]));
                assert(post.len() <= txs@.len());
            }
            match find_group(&groups, cat) {
                Some(j) => {
                    proof {
                        assert(ids[j as int] == cat);
                        assert(ids.contains(cat));
                        assert(views_of(groups@)[j as int] == groups@[j as int]@);
                        assert(summaries(pre, cats@, sel)[j as int] == summary_fn(pre, cats@, sel)(
                            ids[j as int],
                        ));
                        assert(views_of(groups@)[j as int] == summary_fn(pre, cats@, sel)(cat));
                        assert(groups@[j as int].total_amount == sum_by(
                            pre,
                            sel_cat(sel, cat),
                            amount_of(),
                        ));
                        assert(groups@[j as int].transaction_count == sum_by(
                            pre,
                            sel_cat(sel, cat),
                            one_each(),
                        ));
                        lemma_amounts_bound(txs@, i as int, sel_cat(sel, cat));
                    }
                    let ghost before = groups@;
                    let entry = CategorySummary {
                        category_id: cat,
                        category_name: groups[j].category_name.clone(),
                        total_amount: groups[j].total_amount + t.amount,
                        transaction_count: groups[j].transaction_count + 1,
                    };
                    groups.set(j, entry);
                    proof {
                        assert(ids_by(post, sel) == ids);
                        assert(groups@ == before.update(j as int, entry));
                        assert forall|k: int| 0 <= k < ids.len() implies views_of(groups@)[k]
                            == summaries(post, cats@, sel)[k] by {
                            lemma_sum_by_take_step(txs@, i as int, sel_cat(sel, ids[k]), amount_of());
                            lemma_sum_by_take_step(txs@, i as int, sel_cat(sel, ids[k]), one_each());
                            assert(views_of(groups@)[k] == groups@[k]@);
                            assert(summaries(post, cats@, sel)[k] == summary_fn(post, cats@, sel)(
                                ids[k],
                            ));
                            if k != j {
                                assert(ids[k] != cat);
                                assert(!sel_cat(sel, ids[k])(txs@[i as int]));
                                assert(groups@[k] == before[k]);
                                assert(before[k]@ == views_of(before)[k]);
                                assert(views_of(before)[k] == summaries(pre, cats@, sel)[k]);
                                assert(summaries(pre, cats@, sel)[k] == summary_fn(pre, cats@, sel)(
                                    ids[k],
                                ));
                            } else {
                                assert(groups@[k] == entry);
                            }
                        }
                        assert(views_of(groups@).len() == summaries(post, cats@, sel).len());
                        assert(views_of(groups@) =~= summaries(post, cats@, sel));
                    }
                },
                None => {
                    proof {
                        assert(!ids.contains(cat)) by {
                            if ids.contains(cat) {
                                let k = choose|k: int| 0 <= k < ids.len() && ids[k] == cat;
                                assert(groups@[k].category_id == cat);
                            }
                        }
                        assert(!sel_has_cat(pre, sel, cat));
                        lemma_sum_by_none_zero(pre, sel, amount_of(), cat);
                        lemma_sum_by_none_zero(pre, sel, one_each(), cat);
                    }
                    let ghost before = groups@;
                    let entry = CategorySummary {
                        category_id: cat,
                        category_name: lookup_name(cats, cat),
                        total_amount: t.amount,
                        transaction_count: 1,
                    };
                    groups.push(entry);
                    proof {
                        assert(ids_by(post, sel) == ids.push(cat));
                        assert(groups@ == before.push(entry));
                        assert forall|k: int| 0 <= k < ids.len() implies views_of(groups@)[k]
                            == summaries(post, cats@, sel)[k] by {
                            lemma_sum_by_take_step(txs@, i as int, sel_cat(sel, ids[k]), amount_of());
                            lemma_sum_by_take_step(txs@, i as int, sel_cat(sel, ids[k]), one_each());
                            assert(ids[k] != cat);
                            assert(!sel_cat(sel, ids[k])(txs@[i as int]));
                            assert(ids.push(cat)[k] == ids[k]);
                            assert(views_of(groups@)[k] == groups@[k]@);
                            assert(groups@[k] == before[k]);
                            assert(before[k]@ == views_of(before)[k]);
                            assert(views_of(before)[k] == summaries(pre, cats@, sel)[k]);
                            assert(summaries(pre, cats@, sel)[k] == summary_fn(pre, cats@, sel)(
                                ids[k],
                            ));
                            assert(summaries(post, cats@, sel)[k] == summary_fn(post, cats@, sel)(
                                ids[k],
                            ));
                        }
                        assert(views_of(groups@)[ids.len() as int] == groups@[ids.len() as int]@);
                        assert(groups@[ids.len() as int] == entry);
                        assert(summaries(post, cats@, sel)[ids.len() as int] == summary_fn(
                            post,
                            cats@,
                            sel,
                        )(cat));
                        assert(views_of(groups@)[ids.len() as int]
                            == summaries(post, cats@, sel)[ids.len() as int]);
                        assert(views_of(groups@).len() == summaries(post, cats@, sel).len());
                        assert(views_of(groups@) =~= summaries(post, cats@, sel));
                    }
                },
            }
        } else {
            proof {
                assert(ids_by(post, sel) == ids);
                assert forall|k: int| 0 <= k < ids.len() implies views_of(groups@)[k] == summaries(
                    post,
                    cats@,
                    sel,
                )[k] by {
                    lemma_sum_by_take_step(txs@, i as int, sel_cat(sel, ids[k]), amount_of());
                    lemma_sum_by_take_step(txs@, i as int, sel_cat(sel, ids[k]), one_each());
                    assert(!sel_cat(sel, ids[k])(txs@[i as int]));
                    assert(views_of(groups@)[k] == groups@[k]@);
                    assert(views_of(groups@)[k] == summaries(pre, cats@, sel)[k]);
                    assert(summaries(pre, cats@, sel)[k] == summary_fn(pre, cats@, sel)(ids[k]));
                    assert(summaries(post, cats@, sel)[k] == summary_fn(post, cats@, sel)(ids[k]));
                }
                assert(views_of(groups@).len() == summaries(post, cats@, sel).len());
                assert(views_of(groups@) =~= summaries(post, cats@, sel));
            }
        }
        i = i + 1;
    }
    proof {
        assert(txs@.take(n as int) =~= txs@);
    }
    groups
}

/// The whole monthly report as a value: the month's totals by type, their
/// difference as the net balance, and the per-category groups of each side.
pub open spec fn monthly_report_spec(
    txs: Seq<Transaction>,
    cats: Seq<Category>,
    year: i32,
    month: u32,
) -> MonthlyReportResponseView {
    let p = Period::Month { year, month };
    let inc = sum_by(txs, sel_by(p, Some(TransactionType::Income)), amount_of());
    let exp = sum_by(txs, sel_by(p, Some(TransactionType::Expense)), amount_of());
    MonthlyReportResponseView {
        year,
        month,
        total_income: inc as i64,
        total_expense: exp as i64,
        net_balance: (inc - exp) as i64,
        income_by_category: summaries(txs, cats, sel_by(p, Some(TransactionType::Income))),
        expense_by_category: summaries(txs, cats, sel_by(p, Some(TransactionType::Expense))),
    }
}

/// Builds the monthly report for the given year and month. A month outside
/// 1..=12 selects nothing and gives an all-zero report rather than an error.
pub fn monthly_report(
    txs: &Vec<Transaction>,
    cats: &Vec<Category>,
    year: i32,
    month: u32,
) -> (r: MonthlyReportResponse)
    requires
        amounts_ok(txs@),
    ensures
        r@ == monthly_report_spec(txs@, cats@, year, month),
{
    let p = Period::Month { year, month };
    let total_income = total_amount(txs, &p, Some(TransactionType::Income));
    let total_expense = total_amount(txs, &p, Some(TransactionType::Expense));
    let income_by_category = category_summaries(txs, cats, &p, Some(TransactionType::Income));
    let expense_by_category = category_summaries(txs, cats, &p, Some(TransactionType::Expense));
    let net_balance = total_income - total_expense;
    let r = MonthlyReportResponse {
        year,
        month,
        total_income,
        total_expense,
        net_balance,
        income_by_category,
        expense_by_category,
    };
    proof {
        assert(r@ =~= monthly_report_spec(txs@, cats@, year, month));
    }
    r
}

/// One month's line of the yearly report as a value.
pub open spec fn monthly_summary_spec(txs: Seq<Transaction>, year: i32, month: u32) -> MonthlySummary {
    let p = Period::Month { year, month };
    let inc = sum_by(txs, sel_by(p, Some(TransactionType::Income)), amount_of());
    let exp = sum_by(txs, sel_by(p, Some(TransactionType::Expense)), amount_of());
    MonthlySummary {
        month,
        total_income: inc as i64,
        total_expense: exp as i64,
        net_balance: (inc - exp) as i64,
    }
}

/// The whole yearly report as a value: the year's totals, and one line per
/// month 1 through 12, in that order.
pub open spec fn yearly_report_spec(txs: Seq<Transaction>, year: i32) -> YearlyReportResponseView {
    let p = Period::Year { year };
    let inc = sum_by(txs, sel_by(p, Some(TransactionType::Income)), amount_of());
    let exp = sum_by(txs, sel_by(p, Some(TransactionType::Expense)), amount_of());
    YearlyReportResponseView {
        year,
        total_income: inc as i64,
        total_expense: exp as i64,
        net_balance: (inc - exp) as i64,
        monthly_summary: Seq::new(12, |k: int| monthly_summary_spec(txs, year, (k + 1) as u32)),
    }
}

/// Builds the yearly report for the given year: totals over the whole year,
/// and always exactly twelve monthly lines, month ascending.
pub fn yearly_report(txs: &Vec<Transaction>, year: i32) -> (r: YearlyReportResponse)
    requires
        amounts_ok(txs@),
    ensures
        r@ == yearly_report_spec(txs@, year),
{
    let p = Period::Year { year };
    let total_income = total_amount(txs, &p, Some(TransactionType::Income));
    let total_expense = total_amount(txs, &p, Some(TransactionType::Expense));
    let mut monthly_summary: Vec<MonthlySummary> = Vec::new();
    let mut m: u32 = 1;
    while m <= 12
        invariant
            1 <= m <= 13,
            amounts_ok(txs@),
            monthly_summary@.len() == m - 1,
            forall|k: int|
                0 <= k < m - 1 ==> monthly_summary@[k] == monthly_summary_spec(
                    txs@,
                    year,
                    (k + 1) as u32,
                ),
        decreases 13 - m,
    {
        let mp = Period::Month { year, month: m };
        let inc = total_amount(txs, &mp, Some(TransactionType::Income));
        let exp = total_amount(txs, &mp, Some(TransactionType::Expense));
        monthly_summary.push(
            MonthlySummary { month: m, total_income: inc, total_expense: exp, net_balance: inc - exp },
        );
        m = m + 1;
    }
    let net_balance = total_income - total_expense;
    let r = YearlyReportResponse { year, total_income, total_expense, net_balance, monthly_summary };
    proof {
        assert(r.monthly_summary@ =~= Seq::new(
            12,
            |k: int| monthly_summary_spec(txs@, year, (k + 1) as u32),
        ));
        assert(r@ =~= yearly_report_spec(txs@, year));
    }
    r
}

/// The whole category report as a value: the groups over the window,
/// ignoring type, the two grand totals, and the bounds echoed as given.
pub open spec fn category_report_spec(
    txs: Seq<Transaction>,
    cats: Seq<Category>,
    start: Option<Date>,
    end: Option<Date>,
    start_text: Option<Seq<char>>,
    end_text: Option<Seq<char>>,
) -> CategoryReportResponseView {
    let p = Period::Between { start, end };
    CategoryReportResponseView {
        start_date: start_text,
        end_date: end_text,
        categories: summaries(txs, cats, sel_by(p, None)),
        total_income: sum_by(txs, sel_by(p, Some(TransactionType::Income)), amount_of()) as i64,
        total_expense: sum_by(txs, sel_by(p, Some(TransactionType::Expense)), amount_of()) as i64,
    }
}

/// Builds the category report for already-resolved bounds, echoing the given
/// bound texts.
pub fn category_report_between(
    txs: &Vec<Transaction>,
    cats: &Vec<Category>,
    start: Option<Date>,
    end: Option<Date>,
    start_date: Option<String>,
    end_date: Option<String>,
) -> (r: CategoryReportResponse)
    requires
        amounts_ok(txs@),
    ensures
        r@ == category_report_spec(txs@, cats@, start, end, opt_text(start_date), opt_text(end_date)),
{
    let p = Period::Between { start, end };
    let categories = category_summaries(txs, cats, &p, None);
    let total_income = total_amount(txs, &p, Some(TransactionType::Income));
    let total_expense = total_amount(txs, &p, Some(TransactionType::Expense));
    let ghost st = opt_text(start_date);
    let ghost et = opt_text(end_date);
    let r = CategoryReportResponse { start_date, end_date, categories, total_income, total_expense };
    proof {
        assert(r@ =~= category_report_spec(txs@, cats@, start, end, st, et));
    }
    r
}

/// The bound a request text names: a text that does not parse as
/// `YYYY-MM-DD` names no bound.
pub open spec fn opt_parse(o: Option<String>) -> Option<Date> {
    match o {
        Some(s) => spec_parse_date(s@),
        None => None,
    }
}

/// Builds the category report from optional `YYYY-MM-DD` bound texts.
/// A malformed bound is ignored, as if absent; it is still echoed back.
pub fn by_category_report(
    txs: &Vec<Transaction>,
    cats: &Vec<Category>,
    start_date: Option<String>,
    end_date: Option<String>,
) -> (r: CategoryReportResponse)
    requires
        amounts_ok(txs@),
    ensures
        r@ == category_report_spec(
            txs@,
            cats@,
            opt_parse(start_date),
            opt_parse(end_date),
            opt_text(start_date),
            opt_text(end_date),
        ),
{
    let start = match &start_date {
        Some(s) => parse_date(s.as_str()),
        None => None,
    };
    let end = match &end_date {
        Some(s) => parse_date(s.as_str()),
        None => None,
    };
    category_report_between(txs, cats, start, end, start_date, end_date)
}

/// Builds the monthly report for the query, filling an absent year or month
/// from the current calendar date.
pub fn monthly_report_for(
    txs: &Vec<Transaction>,
    cats: &Vec<Category>,
    q: &MonthlyReportQuery,
) -> (r: MonthlyReportResponse)
    requires
        amounts_ok(txs@),
    ensures
        r@ == monthly_report_spec(txs@, cats@, r.year, r.month),
        q.year matches Some(y) ==> r.year == y,
        q.month matches Some(m) ==> r.month == m,
        q.month is None ==> 1 <= r.month <= 12,
{
    let year = match q.year {
        Some(y) => y,
        None => today().year,
    };
    let month = match q.month {
        Some(m) => m,
        None => today().month,
    };
    monthly_report(txs, cats, year, month)
}

/// Builds the yearly report for the query, filling an absent year from the
/// current calendar date.
pub fn yearly_report_for(txs: &Vec<Transaction>, q: &YearlyReportQuery) -> (r: YearlyReportResponse)
    requires
        amounts_ok(txs@),
    ensures
        r@ == yearly_report_spec(txs@, r.year),
        q.year matches Some(y) ==> r.year == y,
{
    let year = match q.year {
        Some(y) => y,
        None => today().year,
    };
    yearly_report(txs, year)
}

/// Builds the category report for the query's optional bound texts.
pub fn by_category_report_for(
    txs: &Vec<Transaction>,
    cats: &Vec<Category>,
    q: CategoryReportQuery,
) -> (r: CategoryReportResponse)
    requires
        amounts_ok(txs@),
    ensures
        r@ == category_report_spec(
            txs@,
            cats@,
            opt_parse(q.start_date),
            opt_parse(q.end_date),
            opt_text(q.start_date),
            opt_text(q.end_date),
        ),
{
    let CategoryReportQuery { start_date, end_date } = q;
    by_category_report(txs, cats, start_date, end_date)
}

} // verus!
