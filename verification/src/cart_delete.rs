//! Deleting a cart and, first, everything it owns.

use vstd::prelude::*;

use crate::app_error::{InternalServerError, RepoError};
use crate::server::{ServerResponse, ServerResponseResult, STATUS_OK};
use crate::store::{
    carts_without_id, has_cart, items_for, items_not_for, lemma_carts_without_id_absent,
    lemma_items_for_none, lemma_items_not_for_absent, same_store, ItemRow, Store,
};

verus! {

/// One cart as the boundary reports it.
#[derive(Debug, PartialEq)]
pub struct CartResult {
    pub id: i64,
    pub creation_date: i64,
    pub name: String,
}

/// A deletion's payload carries nothing: success is the boolean in the
/// envelope.
#[derive(Debug, PartialEq)]
pub struct GetCartResponse {}

/// The cart a request addresses.
#[derive(Clone, Copy, Debug, PartialEq, Eq, Structural)]
pub struct CartId {
    pub cart_id: i64,
}

/// Delete one cart: its items first, then the cart row, so every item
/// references a live cart even mid-deletion.  Succeeds exactly when the
/// cart exists; deleting an absent cart is reported as not-found and
/// changes nothing (an absent cart owns no items, so the item step was
/// already a no-op).
pub fn delete_cart(store: &mut Store, path: CartId) -> (r: ServerResponseResult<bool>)
    requires
        old(store).wf(),
    ensures
        final(store).wf(),
        r is Ok <==> has_cart(old(store).carts@, path.cart_id),
        r matches Ok(resp) ==> {
            &&& resp.status_code == STATUS_OK
            &&& resp.message@ == "success"@
            &&& resp.data == true
            &&& final(store).carts@ == carts_without_id(old(store).carts@, path.cart_id)
            &&& !has_cart(final(store).carts@, path.cart_id)
            &&& final(store).items@ == items_not_for(old(store).items@, path.cart_id)
            &&& items_for(final(store).items@, path.cart_id) == Seq::<ItemRow>::empty()
            &&& final(store).next_cart_id == old(store).next_cart_id
            &&& final(store).next_item_id == old(store).next_item_id
            &&& final(store).clock == old(store).clock
        },
        r matches Err(e) ==> e.0 == RepoError::NotFound && same_store(*final(store), *old(store)),
{
    store.delete_items_of_cart(path.cart_id);
    match store.delete_cart_row(path.cart_id) {
        Some(_) => {
            proof {
                lemma_items_for_none(store.items@, path.cart_id);
            }
            Ok(ServerResponse::success(true))
        },
        None => {
            proof {
                assert forall|i: int|
                    0 <= i < old(store).items@.len() implies (#[trigger] old(
                    store,
                ).items@[i]).cart_id != path.cart_id by {
                    assert(has_cart(old(store).carts@, old(store).items@[i].cart_id));
                }
                lemma_items_not_for_absent(old(store).items@, path.cart_id);
                assert forall|i: int|
                    0 <= i < old(store).carts@.len() implies (#[trigger] old(
                    store,
                ).carts@[i]).id != path.cart_id by {
                    if old(store).carts@[i].id == path.cart_id {
                        assert(has_cart(old(store).carts@, path.cart_id));
                    }
                }
                lemma_carts_without_id_absent(old(store).carts@, path.cart_id);
            }
            Err(InternalServerError(RepoError::NotFound))
        },
    }
}

} // verus!
