//! Fetching one cart with all of its items.

use vstd::prelude::*;

use crate::app_error::{InternalServerError, RepoError};
use crate::server::{ServerResponse, ServerResponseResult, STATUS_OK};
use crate::store::{cart_at, has_cart, items_for, CartRow, ItemRow, Store};

verus! {

/// One cart as the boundary reports it.
#[derive(Debug, PartialEq)]
pub struct CartResult {
    pub id: i64,
    pub creation_date: i64,
    pub name: String,
}

/// One item as a cart fetch reports it: the location columns without the
/// owning cart (implied by the request), creation date or cold flag.
#[derive(Debug, PartialEq)]
pub struct CartItem {
    pub id: i64,
    pub section: char,
    pub corridor: i64,
    pub shelf: i64,
    pub subshelf: Option<i64>,
    pub photo: String,
}

/// The payload of a successful fetch: the cart and every item it owns.
#[derive(Debug, PartialEq)]
pub struct GetCartResponse {
    pub cart: CartResult,
    pub items: Vec<CartItem>,
}

/// The cart a request addresses.
#[derive(Clone, Copy, Debug, PartialEq, Eq, Structural)]
pub struct CartId {
    pub cart_id: i64,
}

/// How a cart row is reported.
pub open spec fn cart_result_of(c: CartRow) -> CartResult {
    CartResult { id: c.id, creation_date: c.creation_date, name: c.name }
}

/// How an item row is reported by a fetch.
pub open spec fn cart_item_of(it: ItemRow) -> CartItem {
    CartItem {
        id: it.id,
        section: it.section,
        corridor: it.corridor,
        shelf: it.shelf,
        subshelf: it.subshelf,
        photo: it.photo,
    }
}

/// Fetch one cart and its items.  Succeeds exactly when the cart exists,
/// returning its row and the rows it owns in table order; fails as
/// not-found otherwise.  An item-less cart yields an empty list, not an
/// error.
pub fn get_cart(store: &Store, path: CartId) -> (r: ServerResponseResult<GetCartResponse>)
    requires
        store.wf(),
    ensures
        r is Ok <==> has_cart(store.carts@, path.cart_id),
        r matches Ok(resp) ==> {
            &&& resp.status_code == STATUS_OK
            &&& resp.message@ == "success"@
            &&& resp.data.cart == cart_result_of(cart_at(store.carts@, path.cart_id))
            &&& resp.data.items@ == items_for(store.items@, path.cart_id).map_values(
                |it: ItemRow| cart_item_of(it),
            )
        },
        r matches Err(e) ==> e.0 == RepoError::NotFound,
{
    let cart_row = match store.select_cart(path.cart_id) {
        Some(c) => c,
        None => {
            return Err(InternalServerError(RepoError::NotFound));
        },
    };
    let rows = store.select_items_of(path.cart_id);
    let n = rows.len();
    let mut items: Vec<CartItem> = Vec::new();
    let mut i: usize = 0;
    while i < n
        invariant
            n == rows@.len(),
            rows@ == items_for(store.items@, path.cart_id),
            0 <= i <= n,
            items@ == rows@.take(i as int).map_values(|it: ItemRow| cart_item_of(it)),
        decreases n - i,
    {
        let row = &rows[i];
        items.push(
            CartItem {
                id: row.id,
                section: row.section,
                corridor: row.corridor,
                shelf: row.shelf,
                subshelf: row.subshelf,
                photo: row.photo.clone(),
            },
        );
        proof {
            assert(items@ =~= rows@.take(i + 1 as int).map_values(|it: ItemRow| cart_item_of(it)));
        }
        i = i + 1;
    }
    proof {
        assert(rows@.take(n as int) =~= rows@);
    }
    let cart = CartResult {
        id: cart_row.id,
        creation_date: cart_row.creation_date,
        name: cart_row.name,
    };
    Ok(ServerResponse::success(GetCartResponse { cart, items }))
}

} // verus!
