//! Categories: named buckets that transactions are tagged with.

use vstd::prelude::*;
use vstd::string::StringExecFns;

use crate::text::{lower_of, lowercase};

verus! {

/// Whether a category collects income or expenses.
#[derive(Clone, Copy, Debug, PartialEq, Eq, Structural)]
pub enum CategoryType {
    Income,
    Expense,
}

impl CategoryType {
    /// The text form the boundary serializes.
    pub open spec fn spec_label(self) -> Seq<char> {
        match self {
            CategoryType::Income => "income"@,
            CategoryType::Expense => "expense"@,
        }
    }

    pub fn label(&self) -> (r: String)
        ensures
            r@ == self.spec_label(),
    {
        match self {
            CategoryType::Income => String::from_str("income"),
            CategoryType::Expense => String::from_str("expense"),
        }
    }

    /// The type a lowercase token names, if any.
    pub open spec fn spec_of_token(s: Seq<char>) -> Option<CategoryType> {
        if s == "income"@ {
            Some(CategoryType::Income)
        } else if s == "expense"@ {
            Some(CategoryType::Expense)
        } else {
            None
        }
    }

    /// Reads an already-lowercased token.
    pub fn from_label(s: &String) -> (r: Option<CategoryType>)
        ensures
            r == Self::spec_of_token(s@),
    {
        if *s == String::from_str("income") {
            Some(CategoryType::Income)
        } else if *s == String::from_str("expense") {
            Some(CategoryType::Expense)
        } else {
            None
        }
    }

    /// Reads the text form, in any capitalization.
    pub fn parse(s: &str) -> (r: Result<CategoryType, String>)
        ensures
            r matches Ok(t) ==> Self::spec_of_token(lower_of(s@)) == Some(t),
            r is Err <==> Self::spec_of_token(lower_of(s@)) is None,
            r matches Err(e) ==> e@ == "Invalid category type: "@ + s@,
    {
        let low = lowercase(s);
        match Self::from_label(&low) {
            Some(t) => Ok(t),
            None => Err(String::from_str("Invalid category type: ").concat(s)),
        }
    }
}

/// A named bucket for transactions, with optional presentation tokens.
#[derive(Debug, PartialEq)]
pub struct Category {
    pub id: i64,
    pub name: String,
    pub category_type: CategoryType,
    pub icon: Option<String>,
    pub color: Option<String>,
}

impl Category {
    pub fn new(id: i64, name: String, category_type: CategoryType) -> (r: Category)
        ensures
            r == (Category { id, name, category_type, icon: None, color: None }),
    {
        Category { id, name, category_type, icon: None, color: None }
    }

    /// Sets the icon for the category.
    pub fn with_icon(self, icon: String) -> (r: Category)
        ensures
            r == (Category { icon: Some(icon), ..self }),
    {
        Category { icon: Some(icon), ..self }
    }

    /// Sets the color for the category.
    pub fn with_color(self, color: String) -> (r: Category)
        ensures
            r == (Category { color: Some(color), ..self }),
    {
        Category { color: Some(color), ..self }
    }
}

impl Clone for Category {
    fn clone(&self) -> (r: Self)
        ensures
            r == *self,
    {
        Category {
            id: self.id,
            name: self.name.clone(),
            category_type: self.category_type,
            icon: match &self.icon {
                Some(s) => Some(s.clone()),
                None => None,
            },
            color: match &self.color {
                Some(s) => Some(s.clone()),
                None => None,
            },
        }
    }
}

/// The first stored category carrying an identifier, if any.
pub open spec fn first_category_with(cats: Seq<Category>, id: i64) -> Option<Category>
    decreases cats.len(),
{
    if cats.len() == 0 {
        None
    } else if cats[0].id == id {
        Some(cats[0])
    } else {
        first_category_with(cats.drop_first(), id)
    }
}

/// The largest stored category identifier, or zero of an empty store.
pub open spec fn max_category_id(cats: Seq<Category>) -> int
    decreases cats.len(),
{
    if cats.len() == 0 {
        0
    } else if cats.len() == 1 {
        cats[0].id as int
    } else {
        let rest = max_category_id(cats.drop_last());
        if cats.last().id > rest {
            cats.last().id as int
        } else {
            rest
        }
    }
}

/// One category with the given parts replaced; an absent part keeps the
/// stored one.
pub open spec fn apply_category_update(
    c: Category,
    name: Option<String>,
    icon: Option<String>,
    color: Option<String>,
) -> Category {
    Category {
        id: c.id,
        name: match name {
            Some(n) => n,
            None => c.name,
        },
        category_type: c.category_type,
        icon: match icon {
            Some(i) => Some(i),
            None => c.icon,
        },
        color: match color {
            Some(x) => Some(x),
            None => c.color,
        },
    }
}

/// The store with the given parts replaced on the first category carrying
/// the identifier, unchanged when none does.
pub open spec fn spec_update_category(
    cats: Seq<Category>,
    id: i64,
    name: Option<String>,
    icon: Option<String>,
    color: Option<String>,
) -> Seq<Category>
    decreases cats.len(),
{
    if cats.len() == 0 {
        cats
    } else if cats[0].id == id {
        seq![apply_category_update(cats[0], name, icon, color)] + cats.drop_first()
    } else {
        seq![cats[0]] + spec_update_category(cats.drop_first(), id, name, icon, color)
    }
}

/// The stored categories whose identifier is not the given one.
pub open spec fn keep_other_categories(cats: Seq<Category>, id: i64) -> Seq<Category>
    decreases cats.len(),
{
    if cats.len() == 0 {
        Seq::empty()
    } else {
        let rest = keep_other_categories(cats.drop_last(), id);
        if cats.last().id == id {
            rest
        } else {
            rest.push(cats.last())
        }
    }
}

/// Extending a prefix by one category keeps or drops it.
proof fn lemma_keep_other_take_step(cats: Seq<Category>, i: int, id: i64)
    requires
        0 <= i < cats.len(),
    ensures
        keep_other_categories(cats.take(i + 1), id) == (if cats[i].id == id {
            keep_other_categories(cats.take(i), id)
        } else {
            keep_other_categories(cats.take(i), id).push(cats[i])
        }),
{
    assert(cats.take(i + 1).drop_last() =~= cats.take(i));
    assert(cats.take(i + 1).last() == cats[i]);
}

/// Looking for an identifier can start past any prefix without it.
proof fn lemma_first_category_from(cats: Seq<Category>, i: int, id: i64)
    requires
        0 <= i <= cats.len(),
        forall|k: int| 0 <= k < i ==> (#[trigger] cats[k]).id != id,
    ensures
        first_category_with(cats, id) == first_category_with(cats.skip(i), id),
    decreases i,
{
    if i == 0 {
        assert(cats.skip(0) =~= cats);
    } else {
        lemma_first_category_from(cats, i - 1, id);
        assert(cats.skip(i - 1)[0] == cats[i - 1]);
        assert(cats.skip(i - 1).drop_first() =~= cats.skip(i));
    }
}

/// Updating can start past any prefix without the identifier.
proof fn lemma_update_category_from(
    cats: Seq<Category>,
    i: int,
    id: i64,
    name: Option<String>,
    icon: Option<String>,
    color: Option<String>,
)
    requires
        0 <= i <= cats.len(),
        forall|k: int| 0 <= k < i ==> (#[trigger] cats[k]).id != id,
    ensures
        spec_update_category(cats, id, name, icon, color) == cats.take(i) + spec_update_category(
            cats.skip(i),
            id,
            name,
            icon,
            color,
        ),
    decreases i,
{
    if i == 0 {
        assert(cats.skip(0) =~= cats);
        assert(cats.take(0) + spec_update_category(cats, id, name, icon, color)
            =~= spec_update_category(cats, id, name, icon, color));
    } else {
        lemma_update_category_from(cats, i - 1, id, name, icon, color);
        assert(cats.skip(i - 1)[0] == cats[i - 1]);
        assert(cats.skip(i - 1).drop_first() =~= cats.skip(i));
        assert(cats.take(i - 1) + seq![cats[i - 1]] =~= cats.take(i));
        assert(cats.take(i - 1) + (seq![cats[i - 1]] + spec_update_category(
            cats.skip(i),
            id,
            name,
            icon,
            color,
        )) =~= cats.take(i) + spec_update_category(cats.skip(i), id, name, icon, color));
    }
}

/// The store of categories: an owned snapshot with create, read, update and
/// delete. Its value is the stored sequence.
#[derive(Debug)]
pub struct CategoryStore {
    items: Vec<Category>,
}

impl View for CategoryStore {
    type V = Seq<Category>;

    closed spec fn view(&self) -> Seq<Category> {
        self.items@
    }
}

impl CategoryStore {
    /// An empty store.
    pub fn new() -> (s: CategoryStore)
        ensures
            s@ == Seq::<Category>::empty(),
    {
        CategoryStore { items: Vec::new() }
    }

    /// Index of the first stored category carrying the identifier.
    fn find_index(&self, id: i64) -> (r: Option<usize>)
        ensures
            r matches Some(j) ==> j < self@.len() && self@[j as int].id == id && (forall|k: int|
                0 <= k < j ==> (#[trigger] self@[k]).id != id),
            r is None ==> forall|k: int| 0 <= k < self@.len() ==> (#[trigger] self@[k]).id != id,
    {
        let n = self.items.len();
        let mut i: usize = 0;
        while i < n
            invariant
                i <= n,
                n == self@.len(),
                forall|k: int| 0 <= k < i ==> (#[trigger] self@[k]).id != id,
            decreases n - i,
        {
            if self.items[i].id == id {
                return Some(i);
            }
            i = i + 1;
        }
        None
    }

    /// Returns all categories.
    pub fn get_all_categories(&self) -> (r: Vec<Category>)
        ensures
            r@ == self@,
    {
        let n = self.items.len();
        let mut r: Vec<Category> = Vec::new();
        let mut i: usize = 0;
        while i < n
            invariant
                i <= n,
                n == self@.len(),
                r@ == self@.take(i as int),
            decreases n - i,
        {
            r.push(self.items[i].clone());
            proof {
                assert(self@.take(i as int).push(self@[i as int]) =~= self@.take(i as int + 1));
            }
            i = i + 1;
        }
        proof {
            assert(self@.take(n as int) =~= self@);
        }
        r
    }

    /// Returns the first category carrying the identifier.
    pub fn get_category_by_id(&self, id: i64) -> (r: Option<Category>)
        ensures
            r == first_category_with(self@, id),
    {
        match self.find_index(id) {
            Some(j) => {
                proof {
                    lemma_first_category_from(self@, j as int, id);
                    assert(self@.skip(j as int)[0] == self@[j as int]);
                }
                Some(self.items[j].clone())
            },
            None => {
                proof {
                    lemma_first_category_from(self@, self@.len() as int, id);
                    assert(self@.skip(self@.len() as int).len() == 0);
                }
                None
            },
        }
    }

    /// The largest stored identifier, zero of an empty store: the next
    /// created category gets the one after it.
    pub fn max_id(&self) -> (r: i64)
        ensures
            r == max_category_id(self@),
    {
        let n = self.items.len();
        if n == 0 {
            return 0;
        }
        let mut cur: i64 = self.items[0].id;
        let mut i: usize = 1;
        while i < n
            invariant
                1 <= i <= n,
                n == self@.len(),
                cur == max_category_id(self@.take(i as int)),
            decreases n - i,
        {
            proof {
                assert(self@.take(i as int + 1).drop_last() =~= self@.take(i as int));
                assert(self@.take(i as int + 1).last() == self@[i as int]);
            }
            if self.items[i].id > cur {
                cur = self.items[i].id;
            }
            i = i + 1;
        }
        proof {
            assert(self@.take(n as int) =~= self@);
        }
        cur
    }

    /// Creates a category under the next identifier and stores it.
    pub fn create_category(
        &mut self,
        name: String,
        category_type: CategoryType,
        icon: Option<String>,
        color: Option<String>,
    ) -> (r: Category)
        requires
            max_category_id(old(self)@) < i64::MAX,
        ensures
            r == (Category {
                id: (max_category_id(old(self)@) + 1) as i64,
                name,
                category_type,
                icon,
                color,
            }),
            final(self)@ == old(self)@.push(r),
    {
        let new_id = self.max_id() + 1;
        let mut category = Category::new(new_id, name, category_type);
        category = match icon {
            Some(i) => category.with_icon(i),
            None => category,
        };
        category = match color {
            Some(c) => category.with_color(c),
            None => category,
        };
        self.items.push(category.clone());
        category
    }

    /// Replaces the given parts on the first category carrying the
    /// identifier and returns the new value; changes nothing when none does.
    pub fn update_category(
        &mut self,
        id: i64,
        name: Option<String>,
        icon: Option<String>,
        color: Option<String>,
    ) -> (r: Option<Category>)
        ensures
            final(self)@ == spec_update_category(old(self)@, id, name, icon, color),
            r == match first_category_with(old(self)@, id) {
                Some(c) => Some(apply_category_update(c, name, icon, color)),
                None => None,
            },
    {
        match self.find_index(id) {
            Some(j) => {
                proof {
                    lemma_first_category_from(self@, j as int, id);
                    lemma_update_category_from(self@, j as int, id, name, icon, color);
                    assert(self@.skip(j as int)[0] == self@[j as int]);
                    assert(self@.skip(j as int).drop_first() =~= self@.skip(j as int + 1));
                }
                let cur = &self.items[j];
                let updated = Category {
                    id: cur.id,
                    name: match name {
                        Some(n) => n,
                        None => cur.name.clone(),
                    },
                    category_type: cur.category_type,
                    icon: match icon {
                        Some(i) => Some(i),
                        None => match &cur.icon {
                            Some(s) => Some(s.clone()),
                            None => None,
                        },
                    },
                    color: match color {
                        Some(c) => Some(c),
                        None => match &cur.color {
                            Some(s) => Some(s.clone()),
                            None => None,
                        },
                    },
                };
                let ghost before = self@;
                self.items.set(j, updated.clone());
                proof {
                    assert(self@ =~= before.take(j as int) + (seq![
                        apply_category_update(before[j as int], name, icon, color),
                    ] + before.skip(j as int + 1)));
                }
                Some(updated)
            },
            None => {
                proof {
                    lemma_first_category_from(self@, self@.len() as int, id);
                    lemma_update_category_from(self@, self@.len() as int, id, name, icon, color);
                    assert(self@.skip(self@.len() as int).len() == 0);
                    assert(self@.take(self@.len() as int) + spec_update_category(
                        self@.skip(self@.len() as int),
                        id,
                        name,
                        icon,
                        color,
                    ) =~= self@);
                }
                None
            },
        }
    }

    /// Removes every category carrying the identifier; reports whether any
    /// was stored.
    pub fn delete_category(&mut self, id: i64) -> (r: bool)
        ensures
            final(self)@ == keep_other_categories(old(self)@, id),
            r == exists|j: int| 0 <= j < old(self)@.len() && (#[trigger] old(self)@[j]).id == id,
    {
        let n = self.items.len();
        let mut kept_items: Vec<Category> = Vec::new();
        let mut found = false;
        let mut i: usize = 0;
        while i < n
            invariant
                i <= n,
                n == self@.len(),
                kept_items@ == keep_other_categories(self@.take(i as int), id),
                found == exists|j: int| 0 <= j < i && (#[trigger] self@[j]).id == id,
            decreases n - i,
        {
            proof {
                lemma_keep_other_take_step(self@, i as int, id);
            }
            if self.items[i].id == id {
                found = true;
            } else {
                kept_items.push(self.items[i].clone());
            }
            i = i + 1;
        }
        proof {
            assert(self@.take(n as int) =~= self@);
        }
        self.items = kept_items;
        found
    }
}

/// The name a category identifier resolves to: the name of the last stored
/// category carrying it, or `Unknown` when none does.
pub open spec fn name_of(cats: Seq<Category>, id: i64) -> Seq<char>
    decreases cats.len(),
{
    if cats.len() == 0 {
        "Unknown"@
    } else if cats.last().id == id {
        cats.last().name@
    } else {
        name_of(cats.drop_last(), id)
    }
}

/// Resolves a category identifier to a display name, `Unknown` when the
/// identifier matches no stored category.
pub fn lookup_name(cats: &Vec<Category>, id: i64) -> (r: String)
    ensures
        r@ == name_of(cats@, id),
{
    let mut i: usize = cats.len();
    proof {
        assert(cats@.take(i as int) =~= cats@);
    }
    while i > 0
        invariant
            i <= cats@.len(),
            name_of(cats@, id) == name_of(cats@.take(i as int), id),
        decreases i,
    {
        i = i - 1;
        if cats[i].id == id {
            proof {
                assert(cats@.take(i + 1).last() == cats@[i as int]);
            }
            return cats[i].name.clone();
        }
        proof {
            assert(cats@.take(i + 1).drop_last() =~= cats@.take(i as int));
            assert(cats@.take(i + 1).last() == cats@[i as int]);
        }
    }
    proof {
        assert(cats@.take(0).len() == 0);
    }
    String::from_str("Unknown")
}

} // verus!
