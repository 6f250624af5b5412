//! The relational store, modelled explicitly.
//!
//! The service keeps all of its state in a relational backend with two
//! tables: `Cart` (id, creation date, name) and `Item` (id, creation date,
//! owning cart, location and flags).  This module models that backend as a
//! value: the two tables as vectors of rows, the id generator of each table,
//! and the clock the store stamps rows with.  The repository operations are
//! verified against this model; `wf` is the store invariant they preserve:
//! ids are positive, unique and below the next id to be issued, every item
//! references a live cart, and creation dates never decrease along a table.

use vstd::prelude::*;

use crate::app_error::RepoError;

verus! {

/// One row of the `Cart` table.
#[derive(Debug, PartialEq)]
pub struct CartRow {
    pub id: i64,
    pub creation_date: i64,
    pub name: String,
}

/// One row of the `Item` table.  `section` is a single-character aisle code;
/// `is_cold` is the refrigeration flag, stored as 0/1.
#[derive(Debug, PartialEq)]
pub struct ItemRow {
    pub id: i64,
    pub creation_date: i64,
    pub cart_id: i64,
    pub section: char,
    pub corridor: i64,
    pub shelf: i64,
    pub subshelf: Option<i64>,
    pub photo: String,
    pub is_cold: i64,
}

/// What a caller supplies to create one item: everything of an `ItemRow`
/// except the generated columns (id, creation date) and the owning cart.
#[derive(Debug, PartialEq)]
pub struct ItemSpec {
    pub section: char,
    pub corridor: i64,
    pub shelf: i64,
    pub subshelf: Option<i64>,
    pub photo: String,
    pub is_cold: bool,
}

impl Clone for CartRow {
    fn clone(&self) -> (r: Self)
        ensures
            r == *self,
    {
        CartRow { id: self.id, creation_date: self.creation_date, name: self.name.clone() }
    }
}

impl Clone for ItemRow {
    fn clone(&self) -> (r: Self)
        ensures
            r == *self,
    {
        ItemRow {
            id: self.id,
            creation_date: self.creation_date,
            cart_id: self.cart_id,
            section: self.section,
            corridor: self.corridor,
            shelf: self.shelf,
            subshelf: self.subshelf,
            photo: self.photo.clone(),
            is_cold: self.is_cold,
        }
    }
}

impl Clone for ItemSpec {
    fn clone(&self) -> (r: Self)
        ensures
            r == *self,
    {
        ItemSpec {
            section: self.section,
            corridor: self.corridor,
            shelf: self.shelf,
            subshelf: self.subshelf,
            photo: self.photo.clone(),
            is_cold: self.is_cold,
        }
    }
}

/// Whether the `Cart` table holds a row with this id.
pub open spec fn has_cart(carts: Seq<CartRow>, id: i64) -> bool {
    exists|i: int| 0 <= i < carts.len() && carts[i].id == id
}

/// The row of the `Cart` table with this id (unique under `wf`).
pub open spec fn cart_at(carts: Seq<CartRow>, id: i64) -> CartRow {
    carts[choose|i: int| 0 <= i < carts.len() && carts[i].id == id]
}

/// The rows of the `Item` table owned by this cart, in table order.
pub open spec fn items_for(items: Seq<ItemRow>, cart_id: i64) -> Seq<ItemRow>
    decreases items.len(),
{
    if items.len() == 0 {
        Seq::empty()
    } else if items.last().cart_id == cart_id {
        items_for(items.drop_last(), cart_id).push(items.last())
    } else {
        items_for(items.drop_last(), cart_id)
    }
}

/// The rows of the `Item` table not owned by this cart: what a cascading
/// cart deletion leaves behind, in table order.
pub open spec fn items_not_for(items: Seq<ItemRow>, cart_id: i64) -> Seq<ItemRow>
    decreases items.len(),
{
    if items.len() == 0 {
        Seq::empty()
    } else if items.last().cart_id == cart_id {
        items_not_for(items.drop_last(), cart_id)
    } else {
        items_not_for(items.drop_last(), cart_id).push(items.last())
    }
}

/// The item rows whose id is in `ids`: what a bulk delete removes, in table
/// order.
pub open spec fn items_with_ids(items: Seq<ItemRow>, ids: Seq<i64>) -> Seq<ItemRow>
    decreases items.len(),
{
    if items.len() == 0 {
        Seq::empty()
    } else if ids.contains(items.last().id) {
        items_with_ids(items.drop_last(), ids).push(items.last())
    } else {
        items_with_ids(items.drop_last(), ids)
    }
}

/// The item rows whose id is not in `ids`: what a bulk delete keeps, in
/// table order.
pub open spec fn items_without_ids(items: Seq<ItemRow>, ids: Seq<i64>) -> Seq<ItemRow>
    decreases items.len(),
{
    if items.len() == 0 {
        Seq::empty()
    } else if ids.contains(items.last().id) {
        items_without_ids(items.drop_last(), ids)
    } else {
        items_without_ids(items.drop_last(), ids).push(items.last())
    }
}

/// The ids of a sequence of item rows, in the same order.
pub open spec fn ids_of(items: Seq<ItemRow>) -> Seq<i64> {
    items.map_values(|it: ItemRow| it.id)
}

/// The rows of the `Cart` table other than the one with this id: what a
/// single-row cart delete keeps, in table order.
pub open spec fn carts_without_id(carts: Seq<CartRow>, id: i64) -> Seq<CartRow>
    decreases carts.len(),
{
    if carts.len() == 0 {
        Seq::empty()
    } else if carts.last().id == id {
        carts_without_id(carts.drop_last(), id)
    } else {
        carts_without_id(carts.drop_last(), id).push(carts.last())
    }
}

/// The row a batch insert makes of one spec: bound to `cart_id`, stamped
/// with the given generated id and date, the flag stored as 0/1.
pub open spec fn item_of_spec(s: ItemSpec, cart_id: i64, id: i64, date: i64) -> ItemRow {
    ItemRow {
        id,
        creation_date: date,
        cart_id,
        section: s.section,
        corridor: s.corridor,
        shelf: s.shelf,
        subshelf: s.subshelf,
        photo: s.photo,
        is_cold: if s.is_cold {
            1
        } else {
            0
        },
    }
}

/// The rows a batch insert of `specs` produces: the k-th spec gets id
/// `first_id + k`, all bound to `cart_id` and stamped with `date`.
pub open spec fn fresh_items(cart_id: i64, specs: Seq<ItemSpec>, first_id: i64, date: i64) -> Seq<
    ItemRow,
>
    decreases specs.len(),
{
    if specs.len() == 0 {
        Seq::empty()
    } else {
        fresh_items(cart_id, specs.drop_last(), first_id, date).push(
            item_of_spec(specs.last(), cart_id, (first_id + specs.len() - 1) as i64, date),
        )
    }
}

/// The clock after the store stamps a row at wall time `now`: timestamps
/// never decrease, so the clock only moves forward.
pub open spec fn new_clock(clock: i64, now: i64) -> i64 {
    if now > clock {
        now
    } else {
        clock
    }
}

/// The rows of a batch insert are exactly the specs, stamped in order:
/// the k-th row is the k-th spec bound to `cart_id` with id `first_id + k`
/// and date `date`.
pub proof fn lemma_fresh_items_props(cart_id: i64, specs: Seq<ItemSpec>, first_id: i64, date: i64)
    requires
        0 < first_id,
        first_id + specs.len() <= i64::MAX,
    ensures
        fresh_items(cart_id, specs, first_id, date).len() == specs.len(),
        forall|k: int|
            0 <= k < specs.len() ==> #[trigger] fresh_items(cart_id, specs, first_id, date)[k]
                == item_of_spec(specs[k], cart_id, (first_id + k) as i64, date),
    decreases specs.len(),
{
    if specs.len() > 0 {
        lemma_fresh_items_props(cart_id, specs.drop_last(), first_id, date);
        let r = fresh_items(cart_id, specs, first_id, date);
        let rp = fresh_items(cart_id, specs.drop_last(), first_id, date);
        assert forall|k: int|
            0 <= k < specs.len() implies #[trigger] r[k] == item_of_spec(
            specs[k],
            cart_id,
            (first_id + k) as i64,
            date,
        ) by {
            if k < specs.len() - 1 {
                assert(specs.drop_last()[k] == specs[k]);
                assert(r[k] == rp[k]);
            } else {
                assert(specs.last() == specs[k]);
            }
        }
    }
}

/// A cascading delete keeps exactly the rows of the other carts: every kept
/// row stood in the table and is owned by another cart, and every row of
/// another cart is kept.
pub proof fn lemma_items_not_for_props(s: Seq<ItemRow>, cart_id: i64)
    ensures
        items_not_for(s, cart_id).len() <= s.len(),
        forall|k: int|
            0 <= k < items_not_for(s, cart_id).len() ==> s.contains(
                #[trigger] items_not_for(s, cart_id)[k],
            ) && items_not_for(s, cart_id)[k].cart_id != cart_id,
        forall|j: int|
            0 <= j < s.len() && (#[trigger] s[j]).cart_id != cart_id ==> items_not_for(
                s,
                cart_id,
            ).contains(s[j]),
    decreases s.len(),
{
    if s.len() > 0 {
        let sp = s.drop_last();
        lemma_items_not_for_props(sp, cart_id);
        let r = items_not_for(s, cart_id);
        let rp = items_not_for(sp, cart_id);
        assert forall|k: int|
            0 <= k < r.len() implies s.contains(#[trigger] r[k]) && r[k].cart_id != cart_id by {
            if k < rp.len() {
                assert(r[k] == rp[k]);
                assert(sp.contains(rp[k]));
                let a = choose|a: int| 0 <= a < sp.len() && sp[a] == rp[k];
                assert(s[a] == rp[k]);
            } else {
                assert(r[k] == s.last());
                assert(s[s.len() - 1] == s.last());
            }
        }
        assert forall|j: int|
            0 <= j < s.len() && (#[trigger] s[j]).cart_id != cart_id implies r.contains(s[j]) by {
            if j < s.len() - 1 {
                assert(sp[j] == s[j]);
                assert(rp.contains(sp[j]));
                let b = choose|b: int| 0 <= b < rp.len() && rp[b] == s[j];
                assert(r[b] == s[j]);
            } else {
                assert(r[r.len() - 1] == s[j]);
            }
        }
    }
}

/// A cascading delete keeps no two rows with one id if the table had no two
/// such rows.
pub proof fn lemma_items_not_for_distinct(s: Seq<ItemRow>, cart_id: i64)
    requires
        forall|i: int, j: int| 0 <= i < j < s.len() ==> s[i].id != s[j].id,
    ensures
        forall|i: int, j: int|
            0 <= i < j < items_not_for(s, cart_id).len() ==> items_not_for(s, cart_id)[i].id
                != items_not_for(s, cart_id)[j].id,
    decreases s.len(),
{
    if s.len() > 0 {
        let sp = s.drop_last();
        assert forall|i: int, j: int| 0 <= i < j < sp.len() implies sp[i].id != sp[j].id by {
            assert(sp[i] == s[i]);
            assert(sp[j] == s[j]);
        }
        lemma_items_not_for_distinct(sp, cart_id);
        lemma_items_not_for_props(sp, cart_id);
        let r = items_not_for(s, cart_id);
        let rp = items_not_for(sp, cart_id);
        assert forall|i: int, j: int| 0 <= i < j < r.len() implies r[i].id != r[j].id by {
            if j < rp.len() {
                assert(r[i] == rp[i]);
                assert(r[j] == rp[j]);
            } else if r.len() > rp.len() {
                assert(r[j] == s.last());
                assert(r[i] == rp[i]);
                assert(sp.contains(rp[i]));
                let a = choose|a: int| 0 <= a < sp.len() && sp[a] == rp[i];
                assert(s[a] == rp[i]);
                assert(s[a].id != s[s.len() - 1].id);
            }
        }
    }
}

/// A cascading delete on a cart that owns nothing changes nothing.
pub proof fn lemma_items_not_for_absent(s: Seq<ItemRow>, cart_id: i64)
    requires
        forall|i: int| 0 <= i < s.len() ==> (#[trigger] s[i]).cart_id != cart_id,
    ensures
        items_not_for(s, cart_id) == s,
    decreases s.len(),
{
    if s.len() > 0 {
        let sp = s.drop_last();
        assert forall|i: int| 0 <= i < sp.len() implies (#[trigger] sp[i]).cart_id != cart_id by {
            assert(sp[i] == s[i]);
        }
        lemma_items_not_for_absent(sp, cart_id);
        assert(s[s.len() - 1].cart_id != cart_id);
        assert(items_not_for(s, cart_id) =~= s);
    }
}

/// A bulk delete keeps exactly the rows whose id was not listed: every kept
/// row stood in the table with an unlisted id, and every row with an
/// unlisted id is kept.
pub proof fn lemma_items_without_ids_props(s: Seq<ItemRow>, ids: Seq<i64>)
    ensures
        items_without_ids(s, ids).len() <= s.len(),
        forall|k: int|
            0 <= k < items_without_ids(s, ids).len() ==> s.contains(
                #[trigger] items_without_ids(s, ids)[k],
            ) && !ids.contains(items_without_ids(s, ids)[k].id),
        forall|j: int|
            0 <= j < s.len() && !ids.contains((#[trigger] s[j]).id) ==> items_without_ids(
                s,
                ids,
            ).contains(s[j]),
    decreases s.len(),
{
    if s.len() > 0 {
        let sp = s.drop_last();
        lemma_items_without_ids_props(sp, ids);
        let r = items_without_ids(s, ids);
        let rp = items_without_ids(sp, ids);
        assert forall|k: int|
            0 <= k < r.len() implies s.contains(#[trigger] r[k]) && !ids.contains(r[k].id) by {
            if k < rp.len() {
                assert(r[k] == rp[k]);
                assert(sp.contains(rp[k]));
                let a = choose|a: int| 0 <= a < sp.len() && sp[a] == rp[k];
                assert(s[a] == rp[k]);
            } else {
                assert(r[k] == s.last());
                assert(s[s.len() - 1] == s.last());
            }
        }
        assert forall|j: int|
            0 <= j < s.len() && !ids.contains((#[trigger] s[j]).id) implies r.contains(s[j]) by {
            if j < s.len() - 1 {
                assert(sp[j] == s[j]);
                assert(rp.contains(sp[j]));
                let b = choose|b: int| 0 <= b < rp.len() && rp[b] == s[j];
                assert(r[b] == s[j]);
            } else {
                assert(r[r.len() - 1] == s[j]);
            }
        }
    }
}

/// A bulk delete keeps no two rows with one id if the table had no two such
/// rows.
pub proof fn lemma_items_without_ids_distinct(s: Seq<ItemRow>, ids: Seq<i64>)
    requires
        forall|i: int, j: int| 0 <= i < j < s.len() ==> s[i].id != s[j].id,
    ensures
        forall|i: int, j: int|
            0 <= i < j < items_without_ids(s, ids).len() ==> items_without_ids(s, ids)[i].id
                != items_without_ids(s, ids)[j].id,
    decreases s.len(),
{
    if s.len() > 0 {
        let sp = s.drop_last();
        assert forall|i: int, j: int| 0 <= i < j < sp.len() implies sp[i].id != sp[j].id by {
            assert(sp[i] == s[i]);
            assert(sp[j] == s[j]);
        }
        lemma_items_without_ids_distinct(sp, ids);
        lemma_items_without_ids_props(sp, ids);
        let r = items_without_ids(s, ids);
        let rp = items_without_ids(sp, ids);
        assert forall|i: int, j: int| 0 <= i < j < r.len() implies r[i].id != r[j].id by {
            if j < rp.len() {
                assert(r[i] == rp[i]);
                assert(r[j] == rp[j]);
            } else if r.len() > rp.len() {
                assert(r[j] == s.last());
                assert(r[i] == rp[i]);
                assert(sp.contains(rp[i]));
                let a = choose|a: int| 0 <= a < sp.len() && sp[a] == rp[i];
                assert(s[a] == rp[i]);
                assert(s[a].id != s[s.len() - 1].id);
            }
        }
    }
}

/// A bulk delete of ids that are nowhere in the table keeps every row and
/// removes none.
pub proof fn lemma_items_without_ids_absent(s: Seq<ItemRow>, ids: Seq<i64>)
    requires
        forall|i: int| 0 <= i < s.len() ==> !ids.contains((#[trigger] s[i]).id),
    ensures
        items_without_ids(s, ids) == s,
        items_with_ids(s, ids) == Seq::<ItemRow>::empty(),
    decreases s.len(),
{
    if s.len() > 0 {
        let sp = s.drop_last();
        assert forall|i: int| 0 <= i < sp.len() implies !ids.contains((#[trigger] sp[i]).id) by {
            assert(sp[i] == s[i]);
        }
        lemma_items_without_ids_absent(sp, ids);
        assert(!ids.contains(s[s.len() - 1].id));
        assert(items_without_ids(s, ids) =~= s);
    }
}

/// A single-row cart delete keeps exactly the other carts' rows, and the
/// deleted id is gone afterwards.
pub proof fn lemma_carts_without_id_props(carts: Seq<CartRow>, id: i64)
    ensures
        carts_without_id(carts, id).len() <= carts.len(),
        forall|k: int|
            0 <= k < carts_without_id(carts, id).len() ==> carts.contains(
                #[trigger] carts_without_id(carts, id)[k],
            ) && carts_without_id(carts, id)[k].id != id,
        forall|j: int|
            0 <= j < carts.len() && (#[trigger] carts[j]).id != id ==> carts_without_id(
                carts,
                id,
            ).contains(carts[j]),
        !has_cart(carts_without_id(carts, id), id),
    decreases carts.len(),
{
    if carts.len() > 0 {
        let sp = carts.drop_last();
        lemma_carts_without_id_props(sp, id);
        let r = carts_without_id(carts, id);
        let rp = carts_without_id(sp, id);
        assert forall|k: int|
            0 <= k < r.len() implies carts.contains(#[trigger] r[k]) && r[k].id != id by {
            if k < rp.len() {
                assert(r[k] == rp[k]);
                assert(sp.contains(rp[k]));
                let a = choose|a: int| 0 <= a < sp.len() && sp[a] == rp[k];
                assert(carts[a] == rp[k]);
            } else {
                assert(r[k] == carts.last());
                assert(carts[carts.len() - 1] == carts.last());
            }
        }
        assert forall|j: int|
            0 <= j < carts.len() && (#[trigger] carts[j]).id != id implies r.contains(
            carts[j],
        ) by {
            if j < carts.len() - 1 {
                assert(sp[j] == carts[j]);
                assert(rp.contains(sp[j]));
                let b = choose|b: int| 0 <= b < rp.len() && rp[b] == carts[j];
                assert(r[b] == carts[j]);
            } else {
                assert(r[r.len() - 1] == carts[j]);
            }
        }
    }
}

/// A single-row cart delete keeps no two rows with one id if the table had
/// no two such rows.
pub proof fn lemma_carts_without_id_distinct(carts: Seq<CartRow>, id: i64)
    requires
        forall|i: int, j: int| 0 <= i < j < carts.len() ==> carts[i].id != carts[j].id,
    ensures
        forall|i: int, j: int|
            0 <= i < j < carts_without_id(carts, id).len() ==> carts_without_id(carts, id)[i].id
                != carts_without_id(carts, id)[j].id,
    decreases carts.len(),
{
    if carts.len() > 0 {
        let sp = carts.drop_last();
        assert forall|i: int, j: int| 0 <= i < j < sp.len() implies sp[i].id != sp[j].id by {
            assert(sp[i] == carts[i]);
            assert(sp[j] == carts[j]);
        }
        lemma_carts_without_id_distinct(sp, id);
        lemma_carts_without_id_props(sp, id);
        let r = carts_without_id(carts, id);
        let rp = carts_without_id(sp, id);
        assert forall|i: int, j: int| 0 <= i < j < r.len() implies r[i].id != r[j].id by {
            if j < rp.len() {
                assert(r[i] == rp[i]);
                assert(r[j] == rp[j]);
            } else if r.len() > rp.len() {
                assert(r[j] == carts.last());
                assert(r[i] == rp[i]);
                assert(sp.contains(rp[i]));
                let a = choose|a: int| 0 <= a < sp.len() && sp[a] == rp[i];
                assert(carts[a] == rp[i]);
                assert(carts[a].id != carts[carts.len() - 1].id);
            }
        }
    }
}

/// Deleting a cart row that is not there keeps the table as it was.
pub proof fn lemma_carts_without_id_absent(carts: Seq<CartRow>, id: i64)
    requires
        forall|i: int| 0 <= i < carts.len() ==> (#[trigger] carts[i]).id != id,
    ensures
        carts_without_id(carts, id) == carts,
    decreases carts.len(),
{
    if carts.len() > 0 {
        let sp = carts.drop_last();
        assert forall|i: int| 0 <= i < sp.len() implies (#[trigger] sp[i]).id != id by {
            assert(sp[i] == carts[i]);
        }
        lemma_carts_without_id_absent(sp, id);
        assert(carts[carts.len() - 1].id != id);
        assert(carts_without_id(carts, id) =~= carts);
    }
}

/// Selecting by owner distributes over appending to the `Item` table.
pub proof fn lemma_items_for_add(a: Seq<ItemRow>, b: Seq<ItemRow>, cart_id: i64)
    ensures
        items_for(a + b, cart_id) == items_for(a, cart_id) + items_for(b, cart_id),
    decreases b.len(),
{
    if b.len() == 0 {
        assert(a + b =~= a);
        assert(items_for(a, cart_id) + items_for(b, cart_id) =~= items_for(a, cart_id));
    } else {
        lemma_items_for_add(a, b.drop_last(), cart_id);
        assert((a + b).drop_last() =~= a + b.drop_last());
        assert((a + b).last() == b.last());
        if b.last().cart_id == cart_id {
            assert(items_for(a, cart_id) + items_for(b.drop_last(), cart_id).push(b.last()) =~= (
            items_for(a, cart_id) + items_for(b.drop_last(), cart_id)).push(b.last()));
        }
    }
}

/// A cart that owns no row of the table selects nothing.
pub proof fn lemma_items_for_none(s: Seq<ItemRow>, cart_id: i64)
    requires
        forall|i: int| 0 <= i < s.len() ==> (#[trigger] s[i]).cart_id != cart_id,
    ensures
        items_for(s, cart_id) == Seq::<ItemRow>::empty(),
    decreases s.len(),
{
    if s.len() > 0 {
        let sp = s.drop_last();
        assert forall|i: int| 0 <= i < sp.len() implies (#[trigger] sp[i]).cart_id != cart_id by {
            assert(sp[i] == s[i]);
        }
        lemma_items_for_none(sp, cart_id);
        assert(s[s.len() - 1].cart_id != cart_id);
    }
}

/// A cart that owns every row of the table selects all of it.
pub proof fn lemma_items_for_all(s: Seq<ItemRow>, cart_id: i64)
    requires
        forall|i: int| 0 <= i < s.len() ==> (#[trigger] s[i]).cart_id == cart_id,
    ensures
        items_for(s, cart_id) == s,
    decreases s.len(),
{
    if s.len() > 0 {
        let sp = s.drop_last();
        assert forall|i: int| 0 <= i < sp.len() implies (#[trigger] sp[i]).cart_id == cart_id by {
            assert(sp[i] == s[i]);
        }
        lemma_items_for_all(sp, cart_id);
        assert(s[s.len() - 1].cart_id == cart_id);
        assert(items_for(s, cart_id) =~= s);
    }
}

/// The store: both tables, the id generator of each, and the timestamp
/// clock.
#[derive(Debug)]
pub struct Store {
    pub carts: Vec<CartRow>,
    pub items: Vec<ItemRow>,
    pub next_cart_id: i64,
    pub next_item_id: i64,
    pub clock: i64,
}

/// Whether two stores hold the same state.
pub open spec fn same_store(a: Store, b: Store) -> bool {
    &&& a.carts@ == b.carts@
    &&& a.items@ == b.items@
    &&& a.next_cart_id == b.next_cart_id
    &&& a.next_item_id == b.next_item_id
    &&& a.clock == b.clock
}

impl Store {
    /// The store invariant: ids are positive, unique and below the next id
    /// to be issued; every item references a live cart; creation dates are
    /// at most the clock and never decrease along a table.
    pub open spec fn wf(self) -> bool {
        &&& 0 < self.next_cart_id
        &&& 0 < self.next_item_id
        &&& 0 <= self.clock
        &&& forall|i: int|
            0 <= i < self.carts@.len() ==> 0 < (#[trigger] self.carts@[i]).id < self.next_cart_id
        &&& forall|i: int, j: int|
            0 <= i < j < self.carts@.len() ==> self.carts@[i].id != self.carts@[j].id
        &&& forall|i: int|
            0 <= i < self.items@.len() ==> 0 < (#[trigger] self.items@[i]).id < self.next_item_id
        &&& forall|i: int, j: int|
            0 <= i < j < self.items@.len() ==> self.items@[i].id != self.items@[j].id
        &&& forall|i: int|
            0 <= i < self.items@.len() ==> has_cart(self.carts@, (#[trigger] self.items@[i]).cart_id)
        &&& forall|i: int|
            0 <= i < self.carts@.len() ==> (#[trigger] self.carts@[i]).creation_date <= self.clock
        &&& forall|i: int|
            0 <= i < self.items@.len() ==> (#[trigger] self.items@[i]).creation_date <= self.clock
    }

    /// A fresh, empty store: no rows, both id generators at 1, clock at 0.
    pub fn new() -> (s: Store)
        ensures
            s.wf(),
            s.carts@ == Seq::<CartRow>::empty(),
            s.items@ == Seq::<ItemRow>::empty(),
            s.next_cart_id == 1,
            s.next_item_id == 1,
            s.clock == 0,
    {
        Store { carts: Vec::new(), items: Vec::new(), next_cart_id: 1, next_item_id: 1, clock: 0 }
    }

    /// Select by key on the `Cart` table: the row with this id, if any.
    pub fn select_cart(&self, cart_id: i64) -> (r: Option<CartRow>)
        requires
            self.wf(),
        ensures
            match r {
                Some(c) => has_cart(self.carts@, cart_id) && c == cart_at(self.carts@, cart_id),
                None => !has_cart(self.carts@, cart_id),
            },
    {
        let n = self.carts.len();
        let mut i: usize = 0;
        while i < n
            invariant
                n == self.carts@.len(),
                0 <= i <= n,
                forall|k: int| 0 <= k < i ==> (#[trigger] self.carts@[k]).id != cart_id,
                self.wf(),
            decreases n - i,
        {
            if self.carts[i].id == cart_id {
                let c = self.carts[i].clone();
                proof {
                    let j = choose|j: int| 0 <= j < self.carts@.len() && self.carts@[j].id
                        == cart_id;
                    assert(self.carts@[j].id == self.carts@[i as int].id);
                    assert(j == i as int);
                }
                return Some(c);
            }
            i = i + 1;
        }
        None
    }

    /// Select the whole `Cart` table, in table order.
    pub fn select_carts(&self) -> (r: Vec<CartRow>)
        ensures
            r@ == self.carts@,
    {
        let n = self.carts.len();
        let mut r: Vec<CartRow> = Vec::new();
        let mut i: usize = 0;
        while i < n
            invariant
                n == self.carts@.len(),
                0 <= i <= n,
                r@ == self.carts@.take(i as int),
            decreases n - i,
        {
            r.push(self.carts[i].clone());
            proof {
                assert(r@ =~= self.carts@.take(i + 1 as int));
            }
            i = i + 1;
        }
        proof {
            assert(r@ =~= self.carts@);
        }
        r
    }

    /// Select by foreign key on the `Item` table: the rows owned by this
    /// cart, in table order.
    pub fn select_items_of(&self, cart_id: i64) -> (r: Vec<ItemRow>)
        ensures
            r@ == items_for(self.items@, cart_id),
    {
        let n = self.items.len();
        let mut r: Vec<ItemRow> = Vec::new();
        let mut i: usize = 0;
        while i < n
            invariant
                n == self.items@.len(),
                0 <= i <= n,
                r@ == items_for(self.items@.take(i as int), cart_id),
            decreases n - i,
        {
            proof {
                assert(self.items@.take(i + 1 as int).drop_last() =~= self.items@.take(i as int));
                assert(self.items@.take(i + 1 as int).last() == self.items@[i as int]);
            }
            if self.items[i].cart_id == cart_id {
                r.push(self.items[i].clone());
            }
            i = i + 1;
        }
        proof {
            assert(self.items@.take(n as int) =~= self.items@);
        }
        r
    }

    /// Whether a row with this id exists in the `Cart` table.
    pub fn cart_exists(&self, cart_id: i64) -> (r: bool)
        ensures
            r == has_cart(self.carts@, cart_id),
    {
        let n = self.carts.len();
        let mut i: usize = 0;
        while i < n
            invariant
                n == self.carts@.len(),
                0 <= i <= n,
                forall|k: int| 0 <= k < i ==> (#[trigger] self.carts@[k]).id != cart_id,
            decreases n - i,
        {
            if self.carts[i].id == cart_id {
                return true;
            }
            i = i + 1;
        }
        false
    }

    /// Single-row insert into the `Cart` table, returning the generated
    /// columns.  The new row gets the next cart id and a timestamp no
    /// earlier than any already issued; it fails only when the id space is
    /// exhausted, and then changes nothing.
    pub fn insert_cart(&mut self, name: String, now: i64) -> (r: Result<CartRow, RepoError>)
        requires
            old(self).wf(),
        ensures
            final(self).wf(),
            r is Ok <==> old(self).next_cart_id < i64::MAX,
            r matches Ok(c) ==> {
                &&& c == (CartRow {
                    id: old(self).next_cart_id,
                    creation_date: new_clock(old(self).clock, now),
                    name: name,
                })
                &&& final(self).carts@ == old(self).carts@.push(c)
                &&& final(self).items@ == old(self).items@
                &&& final(self).next_cart_id == old(self).next_cart_id + 1
                &&& final(self).next_item_id == old(self).next_item_id
                &&& final(self).clock == new_clock(old(self).clock, now)
            },
            r matches Err(e) ==> e == RepoError::Unclassified && same_store(
                *final(self),
                *old(self),
            ),
    {
        if self.next_cart_id == i64::MAX {
            return Err(RepoError::Unclassified);
        }
        let date: i64 = if now > self.clock {
            now
        } else {
            self.clock
        };
        let row = CartRow { id: self.next_cart_id, creation_date: date, name };
        let returned = row.clone();
        self.carts.push(row);
        self.next_cart_id = self.next_cart_id + 1;
        self.clock = date;
        proof {
            let oc = old(self).carts@;
            let nc = self.carts@;
            assert forall|i: int|
                0 <= i < self.items@.len() implies has_cart(
                nc,
                (#[trigger] self.items@[i]).cart_id,
            ) by {
                assert(has_cart(oc, self.items@[i].cart_id));
                let j = choose|j: int| 0 <= j < oc.len() && oc[j].id == self.items@[i].cart_id;
                assert(nc[j] == oc[j]);
            }
        }
        Ok(returned)
    }

    /// Batch insert into the `Item` table: all rows bound to `cart_id` in
    /// one round trip, returning the generated rows in insertion order.  An
    /// empty batch touches nothing.  A non-empty batch fails, changing
    /// nothing, when `cart_id` references no cart (the store's referential
    /// integrity) or when the id space is exhausted.
    pub fn batch_insert_items(&mut self, cart_id: i64, specs: Vec<ItemSpec>, now: i64) -> (r:
        Result<Vec<ItemRow>, RepoError>)
        requires
            old(self).wf(),
        ensures
            final(self).wf(),
            r is Ok <==> (specs@.len() == 0 || (has_cart(old(self).carts@, cart_id) && old(
                self,
            ).next_item_id + specs@.len() <= i64::MAX)),
            r matches Ok(rows) ==> {
                &&& rows@ == fresh_items(
                    cart_id,
                    specs@,
                    old(self).next_item_id,
                    new_clock(old(self).clock, now),
                )
                &&& final(self).items@ == old(self).items@ + rows@
                &&& final(self).carts@ == old(self).carts@
                &&& final(self).next_item_id == old(self).next_item_id + specs@.len()
                &&& final(self).next_cart_id == old(self).next_cart_id
                &&& final(self).clock == if specs@.len() == 0 {
                    old(self).clock
                } else {
                    new_clock(old(self).clock, now)
                }
            },
            r matches Err(e) ==> {
                &&& same_store(*final(self), *old(self))
                &&& specs@.len() > 0
                &&& if !has_cart(old(self).carts@, cart_id) {
                    e == RepoError::ConstraintViolation
                } else {
                    e == RepoError::Unclassified && old(self).next_item_id + specs@.len()
                        > i64::MAX
                }
            },
    {
        let n = specs.len();
        if n == 0 {
            proof {
                assert(self.items@ + fresh_items(
                    cart_id,
                    specs@,
                    self.next_item_id,
                    new_clock(self.clock, now),
                ) =~= self.items@);
            }
            return Ok(Vec::new());
        }
        if !self.cart_exists(cart_id) {
            return Err(RepoError::ConstraintViolation);
        }
        let headroom: i64 = i64::MAX - self.next_item_id;
        if (n as u64) > (headroom as u64) {
            return Err(RepoError::Unclassified);
        }
        let date: i64 = if now > self.clock {
            now
        } else {
            self.clock
        };
        let first_id: i64 = self.next_item_id;
        let ghost old_items = self.items@;
        let mut rows: Vec<ItemRow> = Vec::new();
        let mut i: usize = 0;
        proof {
            lemma_fresh_items_props(cart_id, specs@, first_id, date);
        }
        while i < n
            invariant
                n == specs@.len(),
                0 <= i <= n,
                0 < first_id,
                first_id + n <= i64::MAX,
                rows@ == fresh_items(cart_id, specs@.take(i as int), first_id, date),
                self.items@ == old_items + rows@,
                self.carts@ == old(self).carts@,
                self.next_cart_id == old(self).next_cart_id,
                self.next_item_id == old(self).next_item_id,
                self.clock == old(self).clock,
            decreases n - i,
        {
            proof {
                assert(specs@.take(i + 1 as int).drop_last() =~= specs@.take(i as int));
                assert(specs@.take(i + 1 as int).last() == specs@[i as int]);
            }
            let id: i64 = first_id + (i as i64);
            let spec_i = &specs[i];
            let row = ItemRow {
                id,
                creation_date: date,
                cart_id,
                section: spec_i.section,
                corridor: spec_i.corridor,
                shelf: spec_i.shelf,
                subshelf: spec_i.subshelf,
                photo: spec_i.photo.clone(),
                is_cold: if spec_i.is_cold {
                    1
                } else {
                    0
                },
            };
            self.items.push(row.clone());
            rows.push(row);
            proof {
                assert(self.items@ =~= old_items + rows@);
            }
            i = i + 1;
        }
        proof {
            assert(specs@.take(n as int) =~= specs@);
        }
        self.next_item_id = self.next_item_id + (n as i64);
        self.clock = date;
        proof {
            let fresh = fresh_items(cart_id, specs@, first_id, date);
            assert forall|k: int|
                0 <= k < self.items@.len() implies 0 < (#[trigger] self.items@[k]).id
                < self.next_item_id && self.items@[k].creation_date <= self.clock && has_cart(
                self.carts@,
                self.items@[k].cart_id,
            ) by {
                if k < old_items.len() {
                    assert(self.items@[k] == old_items[k]);
                } else {
                    assert(self.items@[k] == fresh[k - old_items.len()]);
                }
            }
            assert forall|k: int, j: int|
                0 <= k < j < self.items@.len() implies self.items@[k].id != self.items@[j].id by {
                if k < old_items.len() && j >= old_items.len() {
                    assert(self.items@[j] == fresh[j - old_items.len()]);
                } else if k >= old_items.len() {
                    assert(self.items@[k] == fresh[k - old_items.len()]);
                    assert(self.items@[j] == fresh[j - old_items.len()]);
                }
            }
        }
        Ok(rows)
    }

    /// Multi-row delete on the `Item` table by id list, returning the ids
    /// of the rows actually deleted, in table order.  Listed ids that match
    /// no row are ignored; ownership is not consulted.
    pub fn delete_items_by_ids(&mut self, ids: &Vec<i64>) -> (deleted: Vec<i64>)
        requires
            old(self).wf(),
        ensures
            final(self).wf(),
            deleted@ == ids_of(items_with_ids(old(self).items@, ids@)),
            final(self).items@ == items_without_ids(old(self).items@, ids@),
            final(self).carts@ == old(self).carts@,
            final(self).next_cart_id == old(self).next_cart_id,
            final(self).next_item_id == old(self).next_item_id,
            final(self).clock == old(self).clock,
    {
        let n = self.items.len();
        let mut kept: Vec<ItemRow> = Vec::new();
        let mut deleted: Vec<i64> = Vec::new();
        let mut i: usize = 0;
        while i < n
            invariant
                n == self.items@.len(),
                0 <= i <= n,
                kept@ == items_without_ids(self.items@.take(i as int), ids@),
                deleted@ == ids_of(items_with_ids(self.items@.take(i as int), ids@)),
            decreases n - i,
        {
            proof {
                assert(self.items@.take(i + 1 as int).drop_last() =~= self.items@.take(i as int));
                assert(self.items@.take(i + 1 as int).last() == self.items@[i as int]);
            }
            if ids_contain(ids, self.items[i].id) {
                deleted.push(self.items[i].id);
                proof {
                    assert(deleted@ =~= ids_of(
                        items_with_ids(self.items@.take(i + 1 as int), ids@),
                    ));
                }
            } else {
                kept.push(self.items[i].clone());
            }
            i = i + 1;
        }
        proof {
            assert(self.items@.take(n as int) =~= self.items@);
        }
        self.items = kept;
        proof {
            let os = old(self).items@;
            let r = self.items@;
            lemma_items_without_ids_props(os, ids@);
            lemma_items_without_ids_distinct(os, ids@);
            assert forall|k: int|
                0 <= k < r.len() implies 0 < (#[trigger] r[k]).id < self.next_item_id
                && r[k].creation_date <= self.clock && has_cart(self.carts@, r[k].cart_id) by {
                assert(os.contains(r[k]));
                let a = choose|a: int| 0 <= a < os.len() && os[a] == r[k];
                assert(0 < os[a].id < self.next_item_id);
                assert(has_cart(self.carts@, os[a].cart_id));
            }
        }
        deleted
    }

    /// Multi-row delete on the `Item` table by owning cart: the first step
    /// of a cascading cart deletion.  A cart that owns nothing loses
    /// nothing.
    pub fn delete_items_of_cart(&mut self, cart_id: i64)
        requires
            old(self).wf(),
        ensures
            final(self).wf(),
            final(self).items@ == items_not_for(old(self).items@, cart_id),
            final(self).carts@ == old(self).carts@,
            final(self).next_cart_id == old(self).next_cart_id,
            final(self).next_item_id == old(self).next_item_id,
            final(self).clock == old(self).clock,
            forall|i: int|
                0 <= i < final(self).items@.len() ==> (#[trigger] final(self).items@[i]).cart_id
                    != cart_id,
    {
        let n = self.items.len();
        let mut kept: Vec<ItemRow> = Vec::new();
        let mut i: usize = 0;
        while i < n
            invariant
                n == self.items@.len(),
                0 <= i <= n,
                kept@ == items_not_for(self.items@.take(i as int), cart_id),
            decreases n - i,
        {
            proof {
                assert(self.items@.take(i + 1 as int).drop_last() =~= self.items@.take(i as int));
                assert(self.items@.take(i + 1 as int).last() == self.items@[i as int]);
            }
            if self.items[i].cart_id != cart_id {
                kept.push(self.items[i].clone());
            }
            i = i + 1;
        }
        proof {
            assert(self.items@.take(n as int) =~= self.items@);
        }
        self.items = kept;
        proof {
            let os = old(self).items@;
            let r = self.items@;
            lemma_items_not_for_props(os, cart_id);
            lemma_items_not_for_distinct(os, cart_id);
            assert forall|k: int|
                0 <= k < r.len() implies 0 < (#[trigger] r[k]).id < self.next_item_id
                && r[k].creation_date <= self.clock && has_cart(self.carts@, r[k].cart_id) by {
                assert(os.contains(r[k]));
                let a = choose|a: int| 0 <= a < os.len() && os[a] == r[k];
                assert(0 < os[a].id < self.next_item_id);
                assert(has_cart(self.carts@, os[a].cart_id));
            }
        }
    }

    /// Single-row delete on the `Cart` table, returning the deleted id, or
    /// nothing when no row matched (zero rows affected is the store's
    /// not-found signal).  The cascading order is enforced here: the cart's
    /// items must already be gone, so the referential invariant never
    /// breaks, even transiently.
    pub fn delete_cart_row(&mut self, cart_id: i64) -> (r: Option<i64>)
        requires
            old(self).wf(),
            forall|i: int|
                0 <= i < old(self).items@.len() ==> (#[trigger] old(self).items@[i]).cart_id
                    != cart_id,
        ensures
            final(self).wf(),
            r is Some <==> has_cart(old(self).carts@, cart_id),
            r matches Some(id) ==> id == cart_id,
            final(self).carts@ == carts_without_id(old(self).carts@, cart_id),
            !has_cart(final(self).carts@, cart_id),
            final(self).items@ == old(self).items@,
            final(self).next_cart_id == old(self).next_cart_id,
            final(self).next_item_id == old(self).next_item_id,
            final(self).clock == old(self).clock,
    {
        let n = self.carts.len();
        let mut kept: Vec<CartRow> = Vec::new();
        let mut found = false;
        let mut i: usize = 0;
        while i < n
            invariant
                n == self.carts@.len(),
                0 <= i <= n,
                kept@ == carts_without_id(self.carts@.take(i as int), cart_id),
                found == has_cart(self.carts@.take(i as int), cart_id),
            decreases n - i,
        {
            proof {
                assert(self.carts@.take(i + 1 as int).drop_last() =~= self.carts@.take(i as int));
                assert(self.carts@.take(i + 1 as int).last() == self.carts@[i as int]);
            }
            if self.carts[i].id == cart_id {
                found = true;
                proof {
                    let t = self.carts@.take(i + 1 as int);
                    assert(t[i as int] == self.carts@[i as int]);
                    assert(has_cart(t, cart_id));
                }
            } else {
                kept.push(self.carts[i].clone());
                proof {
                    let t = self.carts@.take(i + 1 as int);
                    if has_cart(t, cart_id) {
                        let w = choose|w: int| 0 <= w < t.len() && t[w].id == cart_id;
                        if w < i {
                            assert(self.carts@.take(i as int)[w] == t[w]);
                            assert(has_cart(self.carts@.take(i as int), cart_id));
                        }
                    }
                    if has_cart(self.carts@.take(i as int), cart_id) {
                        let w = choose|w: int|
                            0 <= w < i && self.carts@.take(i as int)[w].id == cart_id;
                        assert(t[w] == self.carts@.take(i as int)[w]);
                        assert(has_cart(t, cart_id));
                    }
                }
            }
            i = i + 1;
        }
        proof {
            assert(self.carts@.take(n as int) =~= self.carts@);
        }
        self.carts = kept;
        proof {
            let oc = old(self).carts@;
            let r = self.carts@;
            lemma_carts_without_id_props(oc, cart_id);
            lemma_carts_without_id_distinct(oc, cart_id);
            assert forall|k: int|
                0 <= k < r.len() implies 0 < (#[trigger] r[k]).id < self.next_cart_id
                && r[k].creation_date <= self.clock by {
                assert(oc.contains(r[k]));
                let a = choose|a: int| 0 <= a < oc.len() && oc[a] == r[k];
                assert(0 < oc[a].id < self.next_cart_id);
            }
            assert forall|k: int|
                0 <= k < self.items@.len() implies has_cart(
                r,
                (#[trigger] self.items@[k]).cart_id,
            ) by {
                assert(has_cart(oc, self.items@[k].cart_id));
                let a = choose|a: int| 0 <= a < oc.len() && oc[a].id == self.items@[k].cart_id;
                assert(oc[a].id != cart_id);
                assert(r.contains(oc[a]));
                let b = choose|b: int| 0 <= b < r.len() && r[b] == oc[a];
            }
        }
        if found {
            Some(cart_id)
        } else {
            None
        }
    }
}

/// Whether this id stands in the list: the membership test a bulk delete
/// makes for each row.
fn ids_contain(ids: &Vec<i64>, id: i64) -> (r: bool)
    ensures
        r == ids@.contains(id),
{
    let n = ids.len();
    let mut i: usize = 0;
    while i < n
        invariant
            n == ids@.len(),
            0 <= i <= n,
            forall|k: int| 0 <= k < i ==> ids@[k] != id,
        decreases n - i,
    {
        if ids[i] == id {
            return true;
        }
        i = i + 1;
    }
    false
}

} // verus!
