//! Transactions: dated monetary events with an amount, a type, and a
//! category reference.

use vstd::prelude::*;
use vstd::string::StringExecFns;

use crate::date::Date;
use crate::sums::{kept, lemma_kept_take_step, sel_by, Period};
use crate::text::{lower_of, lowercase};

verus! {

/// Whether a transaction brings money in or takes it out.
#[derive(Clone, Copy, Debug, PartialEq, Eq, Structural)]
pub enum TransactionType {
    Income,
    Expense,
}

impl TransactionType {
    /// The text form the boundary serializes.
    pub open spec fn spec_label(self) -> Seq<char> {
        match self {
            TransactionType::Income => "income"@,
            TransactionType::Expense => "expense"@,
        }
    }

    pub fn label(&self) -> (r: String)
        ensures
            r@ == self.spec_label(),
    {
        match self {
            TransactionType::Income => String::from_str("income"),
            TransactionType::Expense => String::from_str("expense"),
        }
    }

    /// The type a lowercase token names, if any.
    pub open spec fn spec_of_token(s: Seq<char>) -> Option<TransactionType> {
        if s == "income"@ {
            Some(TransactionType::Income)
        } else if s == "expense"@ {
            Some(TransactionType::Expense)
        } else {
            None
        }
    }

    /// Reads an already-lowercased token.
    pub fn from_label(s: &String) -> (r: Option<TransactionType>)
        ensures
            r == Self::spec_of_token(s@),
    {
        if *s == String::from_str("income") {
            Some(TransactionType::Income)
        } else if *s == String::from_str("expense") {
            Some(TransactionType::Expense)
        } else {
            None
        }
    }

    /// Reads the text form, in any capitalization.
    pub fn parse(s: &str) -> (r: Result<TransactionType, String>)
        ensures
            r matches Ok(t) ==> Self::spec_of_token(lower_of(s@)) == Some(t),
            r is Err <==> Self::spec_of_token(lower_of(s@)) is None,
            r matches Err(e) ==> e@ == "Invalid transaction type: "@ + s@,
    {
        let low = lowercase(s);
        match Self::from_label(&low) {
            Some(t) => Ok(t),
            None => Err(String::from_str("Invalid transaction type: ").concat(s)),
        }
    }
}

/// A single dated monetary event. The amount is a non-negative magnitude in
/// the smallest currency unit; its sign is derived from the type alone when
/// reports sum it.
#[derive(Debug, PartialEq)]
pub struct Transaction {
    pub id: i64,
    pub amount: i64,
    pub category_id: i64,
    pub description: String,
    pub transaction_date: Date,
    pub transaction_type: TransactionType,
}

impl Transaction {
    pub fn new(
        id: i64,
        amount: i64,
        category_id: i64,
        description: String,
        transaction_date: Date,
        transaction_type: TransactionType,
    ) -> (r: Transaction)
        ensures
            r == (Transaction { id, amount, category_id, description, transaction_date, transaction_type }),
    {
        Transaction { id, amount, category_id, description, transaction_date, transaction_type }
    }
}

impl Clone for Transaction {
    fn clone(&self) -> (r: Self)
        ensures
            r == *self,
    {
        Transaction {
            id: self.id,
            amount: self.amount,
            category_id: self.category_id,
            description: self.description.clone(),
            transaction_date: self.transaction_date,
            transaction_type: self.transaction_type,
        }
    }
}

/// Selecting by stored category reference.
pub open spec fn cat_sel(id: i64) -> spec_fn(Transaction) -> bool {
    |t: Transaction| t.category_id == id
}

/// Selecting by transaction type.
pub open spec fn type_sel(ty: TransactionType) -> spec_fn(Transaction) -> bool {
    |t: Transaction| t.transaction_type == ty
}

/// Selecting everything but one transaction identifier.
pub open spec fn not_id_sel(id: i64) -> spec_fn(Transaction) -> bool {
    |t: Transaction| t.id != id
}

/// The first stored transaction carrying an identifier, if any.
pub open spec fn first_transaction_with(txs: Seq<Transaction>, id: i64) -> Option<Transaction>
    decreases txs.len(),
{
    if txs.len() == 0 {
        None
    } else if txs[0].id == id {
        Some(txs[0])
    } else {
        first_transaction_with(txs.drop_first(), id)
    }
}

/// The largest stored transaction identifier, or zero of an empty store.
pub open spec fn max_transaction_id(txs: Seq<Transaction>) -> int
    decreases txs.len(),
{
    if txs.len() == 0 {
        0
    } else if txs.len() == 1 {
        txs[0].id as int
    } else {
        let rest = max_transaction_id(txs.drop_last());
        if txs.last().id > rest {
            txs.last().id as int
        } else {
            rest
        }
    }
}

/// One transaction with the given parts replaced.
pub open spec fn apply_transaction_update(
    t: Transaction,
    amount: Option<i64>,
    category_id: Option<i64>,
    description: Option<String>,
    transaction_date: Option<Date>,
) -> Transaction {
    Transaction {
        id: t.id,
        amount: match amount {
            Some(a) => a,
            None => t.amount,
        },
        category_id: match category_id {
            Some(c) => c,
            None => t.category_id,
        },
        description: match description {
            Some(d) => d,
            None => t.description,
        },
        transaction_date: match transaction_date {
            Some(d) => d,
            None => t.transaction_date,
        },
        transaction_type: t.transaction_type,
    }
}

/// The store with the given parts replaced on the first transaction
/// carrying the identifier, unchanged when none does.
pub open spec fn spec_update_transaction(
    txs: Seq<Transaction>,
    id: i64,
    amount: Option<i64>,
    category_id: Option<i64>,
    description: Option<String>,
    transaction_date: Option<Date>,
) -> Seq<Transaction>
    decreases txs.len(),
{
    if txs.len() == 0 {
        txs
    } else if txs[0].id == id {
        seq![apply_transaction_update(txs[0], amount, category_id, description, transaction_date)]
            + txs.drop_first()
    } else {
        seq![txs[0]] + spec_update_transaction(
            txs.drop_first(),
            id,
            amount,
            category_id,
            description,
            transaction_date,
        )
    }
}

/// Looking for an identifier can start past any prefix without it.
proof fn lemma_first_transaction_from(txs: Seq<Transaction>, i: int, id: i64)
    requires
        0 <= i <= txs.len(),
        forall|k: int| 0 <= k < i ==> (#[trigger] txs[k]).id != id,
    ensures
        first_transaction_with(txs, id) == first_transaction_with(txs.skip(i), id),
    decreases i,
{
    if i == 0 {
        assert(txs.skip(0) =~= txs);
    } else {
        lemma_first_transaction_from(txs, i - 1, id);
        assert(txs.skip(i - 1)[0] == txs[i - 1]);
        assert(txs.skip(i - 1).drop_first() =~= txs.skip(i));
    }
}

/// Updating can start past any prefix without the identifier.
proof fn lemma_update_transaction_from(
    txs: Seq<Transaction>,
    i: int,
    id: i64,
    amount: Option<i64>,
    category_id: Option<i64>,
    description: Option<String>,
    transaction_date: Option<Date>,
)
    requires
        0 <= i <= txs.len(),
        forall|k: int| 0 <= k < i ==> (#[trigger] txs[k]).id != id,
    ensures
        spec_update_transaction(txs, id, amount, category_id, description, transaction_date)
            == txs.take(i) + spec_update_transaction(
            txs.skip(i),
            id,
            amount,
            category_id,
            description,
            transaction_date,
        ),
    decreases i,
{
    if i == 0 {
        assert(txs.skip(0) =~= txs);
        assert(txs.take(0) + spec_update_transaction(
            txs,
            id,
            amount,
            category_id,
            description,
            transaction_date,
        ) =~= spec_update_transaction(txs, id, amount, category_id, description, transaction_date));
    } else {
        lemma_update_transaction_from(txs, i - 1, id, amount, category_id, description, transaction_date);
        assert(txs.skip(i - 1)[0] == txs[i - 1]);
        assert(txs.skip(i - 1).drop_first() =~= txs.skip(i));
        assert(txs.take(i - 1) + seq![txs[i - 1]] =~= txs.take(i));
        assert(txs.take(i - 1) + (seq![txs[i - 1]] + spec_update_transaction(
            txs.skip(i),
            id,
            amount,
            category_id,
            description,
            transaction_date,
        )) =~= txs.take(i) + spec_update_transaction(
            txs.skip(i),
            id,
            amount,
            category_id,
            description,
            transaction_date,
        ));
    }
}

/// The store of transactions: an owned snapshot with create, read, update,
/// delete, and filtered listings. Its value is the stored sequence.
#[derive(Debug)]
pub struct TransactionStore {
    items: Vec<Transaction>,
}

impl View for TransactionStore {
    type V = Seq<Transaction>;

    closed spec fn view(&self) -> Seq<Transaction> {
        self.items@
    }
}

impl TransactionStore {
    /// An empty store.
    pub fn new() -> (s: TransactionStore)
        ensures
            s@ == Seq::<Transaction>::empty(),
    {
        TransactionStore { items: Vec::new() }
    }

    /// Index of the first stored transaction carrying the identifier.
    fn find_index(&self, id: i64) -> (r: Option<usize>)
        ensures
            r matches Some(j) ==> j < self@.len() && self@[j as int].id == id && (forall|k: int|
                0 <= k < j ==> (#[trigger] self@[k]).id != id),
            r is None ==> forall|k: int| 0 <= k < self@.len() ==> (#[trigger] self@[k]).id != id,
    {
        let n = self.items.len();
        let mut i: usize = 0;
        while i < n
            invariant
                i <= n,
                n == self@.len(),
                forall|k: int| 0 <= k < i ==> (#[trigger] self@[k]).id != id,
            decreases n - i,
        {
            if self.items[i].id == id {
                return Some(i);
            }
            i = i + 1;
        }
        None
    }

    /// Returns all transactions.
    pub fn get_all_transactions(&self) -> (r: Vec<Transaction>)
        ensures
            r@ == self@,
    {
        let n = self.items.len();
        let mut r: Vec<Transaction> = Vec::new();
        let mut i: usize = 0;
        while i < n
            invariant
                i <= n,
                n == self@.len(),
                r@ == self@.take(i as int),
            decreases n - i,
        {
            r.push(self.items[i].clone());
            proof {
                assert(self@.take(i as int).push(self@[i as int]) =~= self@.take(i as int + 1));
            }
            i = i + 1;
        }
        proof {
            assert(self@.take(n as int) =~= self@);
        }
        r
    }

    /// Returns the first transaction carrying the identifier.
    pub fn get_transaction_by_id(&self, id: i64) -> (r: Option<Transaction>)
        ensures
            r == first_transaction_with(self@, id),
    {
        match self.find_index(id) {
            Some(j) => {
                proof {
                    lemma_first_transaction_from(self@, j as int, id);
                    assert(self@.skip(j as int)[0] == self@[j as int]);
                }
                Some(self.items[j].clone())
            },
            None => {
                proof {
                    lemma_first_transaction_from(self@, self@.len() as int, id);
                    assert(self@.skip(self@.len() as int).len() == 0);
                }
                None
            },
        }
    }

    /// The largest stored identifier, zero of an empty store: the next
    /// created transaction gets the one after it.
    pub fn max_id(&self) -> (r: i64)
        ensures
            r == max_transaction_id(self@),
    {
        let n = self.items.len();
        if n == 0 {
            return 0;
        }
        let mut cur: i64 = self.items[0].id;
        let mut i: usize = 1;
        while i < n
            invariant
                1 <= i <= n,
                n == self@.len(),
                cur == max_transaction_id(self@.take(i as int)),
            decreases n - i,
        {
            proof {
                assert(self@.take(i as int + 1).drop_last() =~= self@.take(i as int));
                assert(self@.take(i as int + 1).last() == self@[i as int]);
            }
            if self.items[i].id > cur {
                cur = self.items[i].id;
            }
            i = i + 1;
        }
        proof {
            assert(self@.take(n as int) =~= self@);
        }
        cur
    }

    /// Creates a transaction under the next identifier and stores it.
    pub fn create_transaction(
        &mut self,
        amount: i64,
        category_id: i64,
        description: String,
        transaction_date: Date,
        transaction_type: TransactionType,
    ) -> (r: Transaction)
        requires
            max_transaction_id(old(self)@) < i64::MAX,
        ensures
            r == (Transaction {
                id: (max_transaction_id(old(self)@) + 1) as i64,
                amount,
                category_id,
                description,
                transaction_date,
                transaction_type,
            }),
            final(self)@ == old(self)@.push(r),
    {
        let new_id = self.max_id() + 1;
        let transaction = Transaction::new(
            new_id,
            amount,
            category_id,
            description,
            transaction_date,
            transaction_type,
        );
        self.items.push(transaction.clone());
        transaction
    }

    /// Replaces the given parts on the first transaction carrying the
    /// identifier and returns the new value; changes nothing when none does.
    pub fn update_transaction(
        &mut self,
        id: i64,
        amount: Option<i64>,
        category_id: Option<i64>,
        description: Option<String>,
        transaction_date: Option<Date>,
    ) -> (r: Option<Transaction>)
        ensures
            final(self)@ == spec_update_transaction(
                old(self)@,
                id,
                amount,
                category_id,
                description,
                transaction_date,
            ),
            r == match first_transaction_with(old(self)@, id) {
                Some(t) => Some(
                    apply_transaction_update(t, amount, category_id, description, transaction_date),
                ),
                None => None,
            },
    {
        match self.find_index(id) {
            Some(j) => {
                proof {
                    lemma_first_transaction_from(self@, j as int, id);
                    lemma_update_transaction_from(
                        self@,
                        j as int,
                        id,
                        amount,
                        category_id,
                        description,
                        transaction_date,
                    );
                    assert(self@.skip(j as int)[0] == self@[j as int]);
                    assert(self@.skip(j as int).drop_first() =~= self@.skip(j as int + 1));
                }
                let cur = &self.items[j];
                let updated = Transaction {
                    id: cur.id,
                    amount: match amount {
                        Some(a) => a,
                        None => cur.amount,
                    },
                    category_id: match category_id {
                        Some(c) => c,
                        None => cur.category_id,
                    },
                    description: match description {
                        Some(d) => d,
                        None => cur.description.clone(),
                    },
                    transaction_date: match transaction_date {
                        Some(d) => d,
                        None => cur.transaction_date,
                    },
                    transaction_type: cur.transaction_type,
                };
                let ghost before = self@;
                self.items.set(j, updated.clone());
                proof {
                    assert(self@ =~= before.take(j as int) + (seq![
                        apply_transaction_update(
                            before[j as int],
                            amount,
                            category_id,
                            description,
                            transaction_date,
                        ),
                    ] + before.skip(j as int + 1)));
                }
                Some(updated)
            },
            None => {
                proof {
                    lemma_first_transaction_from(self@, self@.len() as int, id);
                    lemma_update_transaction_from(
                        self@,
                        self@.len() as int,
                        id,
                        amount,
                        category_id,
                        description,
                        transaction_date,
                    );
                    assert(self@.skip(self@.len() as int).len() == 0);
                    assert(self@.take(self@.len() as int) + spec_update_transaction(
                        self@.skip(self@.len() as int),
                        id,
                        amount,
                        category_id,
                        description,
                        transaction_date,
                    ) =~= self@);
                }
                None
            },
        }
    }

    /// Removes every transaction carrying the identifier; reports whether
    /// any was stored.
    pub fn delete_transaction(&mut self, id: i64) -> (r: bool)
        ensures
            final(self)@ == kept(old(self)@, not_id_sel(id)),
            r == exists|j: int| 0 <= j < old(self)@.len() && (#[trigger] old(self)@[j]).id == id,
    {
        let n = self.items.len();
        let mut kept_items: Vec<Transaction> = Vec::new();
        let mut found = false;
        let mut i: usize = 0;
        while i < n
            invariant
                i <= n,
                n == self@.len(),
                kept_items@ == kept(self@.take(i as int), not_id_sel(id)),
                found == exists|j: int| 0 <= j < i && (#[trigger] self@[j]).id == id,
            decreases n - i,
        {
            proof {
                lemma_kept_take_step(self@, i as int, not_id_sel(id));
                assert(not_id_sel(id)(self@[i as int]) == (self@[i as int].id != id));
            }
            if self.items[i].id == id {
                found = true;
            } else {
                kept_items.push(self.items[i].clone());
            }
            i = i + 1;
        }
        proof {
            assert(self@.take(n as int) =~= self@);
        }
        self.items = kept_items;
        found
    }

    /// Returns the transactions dated within the inclusive range.
    pub fn get_transactions_by_date_range(&self, start: Date, end: Date) -> (r: Vec<Transaction>)
        ensures
            r@ == kept(self@, sel_by(Period::Between { start: Some(start), end: Some(end) }, None)),
    {
        let p = Period::Between { start: Some(start), end: Some(end) };
        let ghost sel = sel_by(p, None);
        let n = self.items.len();
        let mut r: Vec<Transaction> = Vec::new();
        let mut i: usize = 0;
        while i < n
            invariant
                i <= n,
                n == self@.len(),
                sel == sel_by(p, None),
                r@ == kept(self@.take(i as int), sel),
            decreases n - i,
        {
            proof {
                lemma_kept_take_step(self@, i as int, sel);
                assert(sel(self@[i as int]) == p.contains(self@[i as int].transaction_date));
            }
            if p.contains_date(&self.items[i].transaction_date) {
                r.push(self.items[i].clone());
            }
            i = i + 1;
        }
        proof {
            assert(self@.take(n as int) =~= self@);
        }
        r
    }

    /// Returns the transactions tagged with the category.
    pub fn get_transactions_by_category(&self, category_id: i64) -> (r: Vec<Transaction>)
        ensures
            r@ == kept(self@, cat_sel(category_id)),
    {
        let n = self.items.len();
        let mut r: Vec<Transaction> = Vec::new();
        let mut i: usize = 0;
        while i < n
            invariant
                i <= n,
                n == self@.len(),
                r@ == kept(self@.take(i as int), cat_sel(category_id)),
            decreases n - i,
        {
            proof {
                lemma_kept_take_step(self@, i as int, cat_sel(category_id));
                assert(cat_sel(category_id)(self@[i as int]) == (self@[i as int].category_id
                    == category_id));
            }
            if self.items[i].category_id == category_id {
                r.push(self.items[i].clone());
            }
            i = i + 1;
        }
        proof {
            assert(self@.take(n as int) =~= self@);
        }
        r
    }

    /// Returns the transactions of one type.
    pub fn get_transactions_by_type(&self, transaction_type: TransactionType) -> (r: Vec<Transaction>)
        ensures
            r@ == kept(self@, type_sel(transaction_type)),
    {
        let n = self.items.len();
        let mut r: Vec<Transaction> = Vec::new();
        let mut i: usize = 0;
        while i < n
            invariant
                i <= n,
                n == self@.len(),
                r@ == kept(self@.take(i as int), type_sel(transaction_type)),
            decreases n - i,
        {
            proof {
                lemma_kept_take_step(self@, i as int, type_sel(transaction_type));
                assert(type_sel(transaction_type)(self@[i as int]) == (self@[i as int].transaction_type
                    == transaction_type));
            }
            if self.items[i].transaction_type == transaction_type {
                r.push(self.items[i].clone());
            }
            i = i + 1;
        }
        proof {
            assert(self@.take(n as int) =~= self@);
        }
        r
    }
}

} // verus!
