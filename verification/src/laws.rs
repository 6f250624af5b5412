//! Laws relating the repository operations across calls, proved over the
//! same spec functions the operations' contracts are stated with.

use vstd::prelude::*;

use crate::store::{
    cart_at, carts_without_id, has_cart, ids_of, items_for, items_not_for, items_with_ids,
    items_without_ids, lemma_carts_without_id_props, lemma_items_for_add, lemma_items_for_all,
    lemma_items_for_none, lemma_items_not_for_props, lemma_items_without_ids_absent, CartRow,
    ItemRow,
};

verus! {

/// Law: a fetch right after a creation sees exactly what the creation
/// reported.  `post_cart` appends one cart row whose id no other cart has,
/// and appends item rows all owned by it, to a table in which no item had
/// that owner (under `Store::wf` every item's owner is an existing cart).
/// Under those facts, `get_cart` of the new id finds that cart row and
/// exactly those item rows.
pub proof fn lemma_get_after_create(
    carts: Seq<CartRow>,
    items: Seq<ItemRow>,
    cart: CartRow,
    fresh: Seq<ItemRow>,
)
    requires
        forall|i: int| 0 <= i < carts.len() ==> (#[trigger] carts[i]).id != cart.id,
        forall|i: int| 0 <= i < items.len() ==> (#[trigger] items[i]).cart_id != cart.id,
        forall|i: int| 0 <= i < fresh.len() ==> (#[trigger] fresh[i]).cart_id == cart.id,
    ensures
        has_cart(carts.push(cart), cart.id),
        cart_at(carts.push(cart), cart.id) == cart,
        items_for(items + fresh, cart.id) == fresh,
{
    let nc = carts.push(cart);
    assert(nc[carts.len() as int] == cart);
    assert(has_cart(nc, cart.id));
    let j = choose|i: int| 0 <= i < nc.len() && nc[i].id == cart.id;
    assert(0 <= j < nc.len() && nc[j].id == cart.id);
    if j < carts.len() {
        assert(nc[j] == carts[j]);
    }
    assert(cart_at(nc, cart.id) == nc[j]);
    lemma_items_for_add(items, fresh, cart.id);
    lemma_items_for_none(items, cart.id);
    lemma_items_for_all(fresh, cart.id);
    assert(items_for(items, cart.id) + items_for(fresh, cart.id) =~= fresh);
}

/// Law: after a cart deletion, a fetch of that cart finds nothing, and no
/// item references the deleted id.  `delete_cart` leaves the tables as
/// `carts_without_id` and `items_not_for`: there the deleted id is gone
/// and the deleted cart owns nothing, so `get_cart` reports not-found and
/// an empty selection.
pub proof fn lemma_get_after_delete(carts: Seq<CartRow>, items: Seq<ItemRow>, cart_id: i64)
    ensures
        !has_cart(carts_without_id(carts, cart_id), cart_id),
        items_for(items_not_for(items, cart_id), cart_id) == Seq::<ItemRow>::empty(),
{
    lemma_carts_without_id_props(carts, cart_id);
    lemma_items_not_for_props(items, cart_id);
    lemma_items_for_none(items_not_for(items, cart_id), cart_id);
}

/// Law: a mutation that adds one item followed by a mutation that deletes
/// it by its generated id restores the item table exactly, and the second
/// mutation reports exactly that id as deleted.  The generated id is fresh
/// (`Store::wf` keeps every stored id below the generator), so the delete
/// removes just the added row and keeps every other row in its place.
pub proof fn lemma_mutate_round_trip(items: Seq<ItemRow>, row: ItemRow)
    requires
        forall|i: int| 0 <= i < items.len() ==> (#[trigger] items[i]).id != row.id,
    ensures
        items_without_ids(items.push(row), seq![row.id]) == items,
        ids_of(items_with_ids(items.push(row), seq![row.id])) == seq![row.id],
{
    let ids = seq![row.id];
    assert(ids[0] == row.id);
    assert(ids.contains(row.id));
    let s = items.push(row);
    assert(s.drop_last() =~= items);
    assert(s.last() == row);
    assert forall|i: int| 0 <= i < items.len() implies !ids.contains(
        (#[trigger] items[i]).id,
    ) by {
        assert(forall|j: int| 0 <= j < ids.len() ==> ids[j] == row.id);
    }
    lemma_items_without_ids_absent(items, ids);
    assert(items_without_ids(s, ids) == items);
    assert(items_with_ids(s, ids) =~= Seq::<ItemRow>::empty().push(row));
    assert(ids_of(items_with_ids(s, ids)) =~= seq![row.id]);
}

} // verus!
