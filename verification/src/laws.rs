//! Laws of the reporting engine, stated over the report spec functions and
//! proved once for every snapshot and window.

use vstd::prelude::*;

use crate::categories::{name_of, Category};
use crate::date::Date;
use crate::reports::{
    category_report_spec, monthly_report_spec, monthly_summary_spec, summaries, summary_fn,
    yearly_report_spec, CategoryReportResponseView, CategorySummaryView, MonthlyReportResponseView,
    MonthlySummary, YearlyReportResponseView,
};
use crate::sums::{
    all_txs, amount_of, amounts_ok, dates_valid, ids_by, lemma_count_by_all, lemma_count_by_le_len,
    lemma_ids_by_complete, lemma_partition, lemma_sum_by_ext, lemma_sum_by_le, one_each, sel_by,
    sel_cat, sel_has_cat, sum_amounts, sum_by, sum_cat_over, Period,
};
use crate::transactions::{Transaction, TransactionType};

verus! {

/// Under a well-bounded snapshot, every selected amount total is an exact
/// `i64` value.
pub proof fn lemma_amount_sum_in_range(txs: Seq<Transaction>, sel: spec_fn(Transaction) -> bool)
    requires
        amounts_ok(txs),
    ensures
        0 <= sum_by(txs, sel, amount_of()) <= i64::MAX,
{
    assert forall|i: int| 0 <= i < txs.len() implies 0 <= #[trigger] amount_of()(txs[i]) by {}
    lemma_sum_by_le(txs, sel, all_txs(), amount_of());
}

/// Every transaction is income or expense, so the two typed totals of a
/// window add up to the untyped total.
pub proof fn lemma_type_split(txs: Seq<Transaction>, p: Period)
    ensures
        sum_by(txs, sel_by(p, Some(TransactionType::Income)), amount_of()) + sum_by(
            txs,
            sel_by(p, Some(TransactionType::Expense)),
            amount_of(),
        ) == sum_by(txs, sel_by(p, None), amount_of()),
    decreases txs.len(),
{
    if txs.len() > 0 {
        lemma_type_split(txs.drop_last(), p);
        let t = txs.last();
        assert(t.transaction_type is Income || t.transaction_type is Expense);
    }
}

/// Net balance law: in the monthly report, the net balance is exactly total
/// income minus total expense.
pub proof fn lemma_monthly_net_balance(
    txs: Seq<Transaction>,
    cats: Seq<Category>,
    year: i32,
    month: u32,
)
    requires
        amounts_ok(txs),
    ensures
        monthly_report_spec(txs, cats, year, month).net_balance as int == monthly_report_spec(
            txs,
            cats,
            year,
            month,
        ).total_income - monthly_report_spec(txs, cats, year, month).total_expense,
{
    let p = Period::Month { year, month };
    lemma_amount_sum_in_range(txs, sel_by(p, Some(TransactionType::Income)));
    lemma_amount_sum_in_range(txs, sel_by(p, Some(TransactionType::Expense)));
}

/// Net balance law for the yearly report, and for each of its monthly lines.
pub proof fn lemma_yearly_net_balance(txs: Seq<Transaction>, year: i32)
    requires
        amounts_ok(txs),
    ensures
        yearly_report_spec(txs, year).net_balance as int == yearly_report_spec(txs, year).total_income
            - yearly_report_spec(txs, year).total_expense,
        forall|k: int|
            0 <= k < 12 ==> (#[trigger] yearly_report_spec(txs, year).monthly_summary[k]).net_balance
                as int == yearly_report_spec(txs, year).monthly_summary[k].total_income
                - yearly_report_spec(txs, year).monthly_summary[k].total_expense,
{
    let py = Period::Year { year };
    lemma_amount_sum_in_range(txs, sel_by(py, Some(TransactionType::Income)));
    lemma_amount_sum_in_range(txs, sel_by(py, Some(TransactionType::Expense)));
    assert forall|k: int|
        0 <= k < 12 implies (#[trigger] yearly_report_spec(txs, year).monthly_summary[k]).net_balance
        as int == yearly_report_spec(txs, year).monthly_summary[k].total_income - yearly_report_spec(
        txs,
        year,
    ).monthly_summary[k].total_expense by {
        let pm = Period::Month { year, month: (k + 1) as u32 };
        lemma_amount_sum_in_range(txs, sel_by(pm, Some(TransactionType::Income)));
        lemma_amount_sum_in_range(txs, sel_by(pm, Some(TransactionType::Expense)));
        assert(yearly_report_spec(txs, year).monthly_summary[k] == monthly_summary_spec(
            txs,
            year,
            (k + 1) as u32,
        ));
    }
}

/// Net balance law for the category report.
pub proof fn lemma_category_net_balance(
    txs: Seq<Transaction>,
    cats: Seq<Category>,
    start: Option<Date>,
    end: Option<Date>,
    start_text: Option<Seq<char>>,
    end_text: Option<Seq<char>>,
)
    requires
        amounts_ok(txs),
    ensures
        category_report_spec(txs, cats, start, end, start_text, end_text).total_income as int
            - category_report_spec(txs, cats, start, end, start_text, end_text).total_expense as int
            == sum_by(txs, sel_by(Period::Between { start, end }, Some(TransactionType::Income)), amount_of())
            - sum_by(txs, sel_by(Period::Between { start, end }, Some(TransactionType::Expense)), amount_of()),
{
    let p = Period::Between { start, end };
    lemma_amount_sum_in_range(txs, sel_by(p, Some(TransactionType::Income)));
    lemma_amount_sum_in_range(txs, sel_by(p, Some(TransactionType::Expense)));
}

/// Shape law: the yearly report always carries exactly twelve monthly
/// lines, for months 1 through 12 in ascending order, however sparse the
/// data.
pub proof fn lemma_yearly_summary_shape(txs: Seq<Transaction>, year: i32)
    ensures
        yearly_report_spec(txs, year).monthly_summary.len() == 12,
        forall|k: int|
            0 <= k < 12 ==> (#[trigger] yearly_report_spec(txs, year).monthly_summary[k]).month == k
                + 1,
{
}

/// Sum of the monthly lines' income fields, in order.
pub open spec fn months_income_total(ms: Seq<MonthlySummary>) -> int
    decreases ms.len(),
{
    if ms.len() == 0 {
        0
    } else {
        months_income_total(ms.drop_last()) + ms.last().total_income as int
    }
}

/// Sum of the monthly lines' expense fields, in order.
pub open spec fn months_expense_total(ms: Seq<MonthlySummary>) -> int
    decreases ms.len(),
{
    if ms.len() == 0 {
        0
    } else {
        months_expense_total(ms.drop_last()) + ms.last().total_expense as int
    }
}

/// Sum of the typed month totals for months 1 through m.
spec fn month_sums_upto(txs: Seq<Transaction>, year: i32, ty: TransactionType, m: int) -> int
    decreases m,
{
    if m <= 0 {
        0
    } else {
        month_sums_upto(txs, year, ty, m - 1) + sum_by(
            txs,
            sel_by(Period::Month { year, month: m as u32 }, Some(ty)),
            amount_of(),
        )
    }
}

/// Appending one transaction moves exactly one month total, the one of its
/// date's month, when that month is within 1..=m.
proof fn lemma_month_sums_push(txs: Seq<Transaction>, t: Transaction, year: i32, ty: TransactionType, m: int)
    requires
        0 <= m <= 12,
    ensures
        month_sums_upto(txs.push(t), year, ty, m) == month_sums_upto(txs, year, ty, m) + (if
        t.transaction_date.year == year && t.transaction_type == ty && 1 <= t.transaction_date.month
            <= m {
            t.amount as int
        } else {
            0
        }),
    decreases m,
{
    if m > 0 {
        lemma_month_sums_push(txs, t, year, ty, m - 1);
        let pm = Period::Month { year, month: m as u32 };
        assert(txs.push(t).drop_last() =~= txs);
        assert(txs.push(t).last() == t);
        assert(sel_by(pm, Some(ty))(t) == (t.transaction_date.year == year
            && t.transaction_date.month == m as u32 && t.transaction_type == ty));
    }
}

/// Over dated snapshots, the twelve month totals of a year add up to the
/// year total: each transaction of the year lands in exactly one month.
proof fn lemma_months_cover_year(txs: Seq<Transaction>, year: i32, ty: TransactionType)
    requires
        dates_valid(txs),
    ensures
        month_sums_upto(txs, year, ty, 12) == sum_by(
            txs,
            sel_by(Period::Year { year }, Some(ty)),
            amount_of(),
        ),
    decreases txs.len(),
{
    if txs.len() == 0 {
        lemma_month_sums_empty(txs, year, ty, 12);
    } else {
        let s = txs.drop_last();
        let t = txs.last();
        assert forall|i: int| 0 <= i < s.len() implies (#[trigger] s[i].transaction_date).valid() by {
            assert(s[i] == txs[i]);
        }
        lemma_months_cover_year(s, year, ty);
        lemma_month_sums_push(s, t, year, ty, 12);
        assert(s.push(t) =~= txs);
        assert(t.transaction_date.valid());
        assert(sel_by(Period::Year { year }, Some(ty))(t) == (t.transaction_date.year == year
            && t.transaction_type == ty));
    }
}

/// Month totals of an empty snapshot are zero.
proof fn lemma_month_sums_empty(txs: Seq<Transaction>, year: i32, ty: TransactionType, m: int)
    requires
        txs.len() == 0,
        0 <= m,
    ensures
        month_sums_upto(txs, year, ty, m) == 0,
    decreases m,
{
    if m > 0 {
        lemma_month_sums_empty(txs, year, ty, m - 1);
    }
}

/// The first m monthly lines of the yearly report total the same as the
/// first m month sums.
proof fn lemma_months_total_eq(txs: Seq<Transaction>, year: i32, m: int)
    requires
        amounts_ok(txs),
        0 <= m <= 12,
    ensures
        months_income_total(
            Seq::new(m as nat, |k: int| monthly_summary_spec(txs, year, (k + 1) as u32)),
        ) == month_sums_upto(txs, year, TransactionType::Income, m),
        months_expense_total(
            Seq::new(m as nat, |k: int| monthly_summary_spec(txs, year, (k + 1) as u32)),
        ) == month_sums_upto(txs, year, TransactionType::Expense, m),
    decreases m,
{
    if m > 0 {
        lemma_months_total_eq(txs, year, m - 1);
        let ms = Seq::new(m as nat, |k: int| monthly_summary_spec(txs, year, (k + 1) as u32));
        assert(ms.drop_last() =~= Seq::new(
            (m - 1) as nat,
            |k: int| monthly_summary_spec(txs, year, (k + 1) as u32),
        ));
        assert(ms.last() == monthly_summary_spec(txs, year, m as u32));
        let pm = Period::Month { year, month: m as u32 };
        lemma_amount_sum_in_range(txs, sel_by(pm, Some(TransactionType::Income)));
        lemma_amount_sum_in_range(txs, sel_by(pm, Some(TransactionType::Expense)));
    }
}

/// Consistency law: the per-month breakdown of the yearly report adds up to
/// the yearly totals, for income and for expense alike.
pub proof fn lemma_yearly_consistency(txs: Seq<Transaction>, year: i32)
    requires
        amounts_ok(txs),
        dates_valid(txs),
    ensures
        months_income_total(yearly_report_spec(txs, year).monthly_summary) == yearly_report_spec(
            txs,
            year,
        ).total_income as int,
        months_expense_total(yearly_report_spec(txs, year).monthly_summary) == yearly_report_spec(
            txs,
            year,
        ).total_expense as int,
{
    lemma_months_total_eq(txs, year, 12);
    lemma_months_cover_year(txs, year, TransactionType::Income);
    lemma_months_cover_year(txs, year, TransactionType::Expense);
    let py = Period::Year { year };
    lemma_amount_sum_in_range(txs, sel_by(py, Some(TransactionType::Income)));
    lemma_amount_sum_in_range(txs, sel_by(py, Some(TransactionType::Expense)));
}

/// Sum of the category groups' amounts, in order.
pub open spec fn categories_amount_total(s: Seq<CategorySummaryView>) -> int
    decreases s.len(),
{
    if s.len() == 0 {
        0
    } else {
        categories_amount_total(s.drop_last()) + s.last().total_amount as int
    }
}

/// Sum of the category groups' transaction counts, in order.
pub open spec fn categories_count_total(s: Seq<CategorySummaryView>) -> int
    decreases s.len(),
{
    if s.len() == 0 {
        0
    } else {
        categories_count_total(s.drop_last()) + s.last().transaction_count as int
    }
}

/// The groups over a list of identifiers total the per-identifier sums.
proof fn lemma_groups_total_eq(
    ids: Seq<i64>,
    txs: Seq<Transaction>,
    cats: Seq<Category>,
    sel: spec_fn(Transaction) -> bool,
)
    requires
        amounts_ok(txs),
    ensures
        categories_amount_total(ids.map_values(summary_fn(txs, cats, sel))) == sum_cat_over(
            ids,
            txs,
            sel,
            amount_of(),
        ),
        categories_count_total(ids.map_values(summary_fn(txs, cats, sel))) == sum_cat_over(
            ids,
            txs,
            sel,
            one_each(),
        ),
    decreases ids.len(),
{
    if ids.len() > 0 {
        lemma_groups_total_eq(ids.drop_last(), txs, cats, sel);
        let mapped = ids.map_values(summary_fn(txs, cats, sel));
        assert(mapped.drop_last() =~= ids.drop_last().map_values(summary_fn(txs, cats, sel)));
        assert(mapped.last() == summary_fn(txs, cats, sel)(ids.last()));
        lemma_amount_sum_in_range(txs, sel_cat(sel, ids.last()));
        lemma_count_by_le_len(txs, sel_cat(sel, ids.last()));
    }
}

/// Completeness law: with no date bounds, the category report accounts for
/// every transaction exactly once. The groups' amounts add up to the sum of
/// all amounts, which also equals total income plus total expense, and the
/// groups' counts add up to the number of transactions.
pub proof fn lemma_category_report_accounts_all(txs: Seq<Transaction>, cats: Seq<Category>)
    requires
        amounts_ok(txs),
    ensures
        categories_amount_total(category_report_spec(txs, cats, None, None, None, None).categories)
            == sum_amounts(txs),
        categories_amount_total(category_report_spec(txs, cats, None, None, None, None).categories)
            == category_report_spec(txs, cats, None, None, None, None).total_income as int
            + category_report_spec(txs, cats, None, None, None, None).total_expense as int,
        categories_count_total(category_report_spec(txs, cats, None, None, None, None).categories)
            == txs.len(),
{
    let p = Period::Between { start: None, end: None };
    let sel = sel_by(p, None);
    assert forall|i: int| 0 <= i < txs.len() implies #[trigger] sel(txs[i]) == all_txs()(txs[i]) by {}
    lemma_groups_total_eq(ids_by(txs, sel), txs, cats, sel);
    lemma_partition(txs, sel, amount_of());
    lemma_partition(txs, sel, one_each());
    lemma_sum_by_ext(txs, sel, all_txs(), amount_of());
    assert forall|i: int| 0 <= i < txs.len() implies #[trigger] sel(txs[i]) by {}
    lemma_count_by_all(txs, sel);
    lemma_type_split(txs, p);
    lemma_amount_sum_in_range(txs, sel_by(p, Some(TransactionType::Income)));
    lemma_amount_sum_in_range(txs, sel_by(p, Some(TransactionType::Expense)));
}

/// A category reference that matches no stored category resolves to the
/// placeholder name.
pub proof fn lemma_unknown_category(cats: Seq<Category>, id: i64)
    requires
        forall|j: int| 0 <= j < cats.len() ==> (#[trigger] cats[j].id) != id,
    ensures
        name_of(cats, id) == "Unknown"@,
    decreases cats.len(),
{
    if cats.len() > 0 {
        let s = cats.drop_last();
        assert forall|j: int| 0 <= j < s.len() implies (#[trigger] s[j].id) != id by {
            assert(s[j] == cats[j]);
        }
        lemma_unknown_category(s, id);
        assert(cats[cats.len() - 1].id != id);
    }
}

/// Dangling-reference law: a selected transaction whose category matches no
/// stored category still gets its group, under the placeholder name, with
/// its amounts summed and counted like any other.
pub proof fn lemma_dangling_id_grouped(
    txs: Seq<Transaction>,
    cats: Seq<Category>,
    p: Period,
    ty: Option<TransactionType>,
    id: i64,
)
    requires
        sel_has_cat(txs, sel_by(p, ty), id),
        forall|j: int| 0 <= j < cats.len() ==> (#[trigger] cats[j].id) != id,
    ensures
        exists|k: int|
            0 <= k < summaries(txs, cats, sel_by(p, ty)).len() && (#[trigger] summaries(
                txs,
                cats,
                sel_by(p, ty),
            )[k]) == (CategorySummaryView {
                category_id: id,
                category_name: "Unknown"@,
                total_amount: sum_by(txs, sel_cat(sel_by(p, ty), id), amount_of()) as i64,
                transaction_count: sum_by(txs, sel_cat(sel_by(p, ty), id), one_each()) as i32,
            }),
{
    let sel = sel_by(p, ty);
    lemma_ids_by_complete(txs, sel);
    lemma_unknown_category(cats, id);
    let ids = ids_by(txs, sel);
    assert(ids.contains(id));
    let k = choose|k: int| 0 <= k < ids.len() && ids[k] == id;
    assert(summaries(txs, cats, sel)[k] == summary_fn(txs, cats, sel)(ids[k]));
    assert(summaries(txs, cats, sel)[k] == (CategorySummaryView {
        category_id: id,
        category_name: "Unknown"@,
        total_amount: sum_by(txs, sel_cat(sel, id), amount_of()) as i64,
        transaction_count: sum_by(txs, sel_cat(sel, id), one_each()) as i32,
    }));
}

/// Idempotence law: two monthly reports of one snapshot and window are one
/// value; the report is a pure function of its inputs.
pub proof fn lemma_monthly_report_deterministic(
    r1: MonthlyReportResponseView,
    r2: MonthlyReportResponseView,
    txs: Seq<Transaction>,
    cats: Seq<Category>,
    year: i32,
    month: u32,
)
    requires
        r1 == monthly_report_spec(txs, cats, year, month),
        r2 == monthly_report_spec(txs, cats, year, month),
    ensures
        r1 == r2,
{
}

/// Idempotence law for the yearly report.
pub proof fn lemma_yearly_report_deterministic(
    r1: YearlyReportResponseView,
    r2: YearlyReportResponseView,
    txs: Seq<Transaction>,
    year: i32,
)
    requires
        r1 == yearly_report_spec(txs, year),
        r2 == yearly_report_spec(txs, year),
    ensures
        r1 == r2,
{
}

/// Idempotence law for the category report.
pub proof fn lemma_category_report_deterministic(
    r1: CategoryReportResponseView,
    r2: CategoryReportResponseView,
    txs: Seq<Transaction>,
    cats: Seq<Category>,
    start: Option<Date>,
    end: Option<Date>,
    start_text: Option<Seq<char>>,
    end_text: Option<Seq<char>>,
)
    requires
        r1 == category_report_spec(txs, cats, start, end, start_text, end_text),
        r2 == category_report_spec(txs, cats, start, end, start_text, end_text),
    ensures
        r1 == r2,
{
}

} // verus!
