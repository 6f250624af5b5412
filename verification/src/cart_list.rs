//! Listing carts: every cart row, in insertion order, without items.

use vstd::prelude::*;

use crate::server::{ServerResponse, ServerResponseResult, STATUS_OK};
use crate::store::{CartRow, Store};

verus! {

/// One cart as the boundary reports it: the generated id and creation date,
/// and the caller-supplied name.
#[derive(Debug, PartialEq)]
pub struct CartResult {
    pub id: i64,
    pub creation_date: i64,
    pub name: String,
}

/// The payload of a successful listing.
#[derive(Debug, PartialEq)]
pub struct ListCartsResponse {
    pub carts: Vec<CartResult>,
}

/// How a cart row is reported.
pub open spec fn cart_result_of(c: CartRow) -> CartResult {
    CartResult { id: c.id, creation_date: c.creation_date, name: c.name }
}

/// List every cart: the whole `Cart` table in table order, each row as a
/// `CartResult`, wrapped as a plain success.
pub fn list_carts(store: &Store) -> (r: ServerResponseResult<ListCartsResponse>)
    ensures
        r is Ok,
        r matches Ok(resp) ==> {
            &&& resp.status_code == STATUS_OK
            &&& resp.message@ == "success"@
            &&& resp.data.carts@ == store.carts@.map_values(|c: CartRow| cart_result_of(c))
        },
{
    let rows = store.select_carts();
    let n = rows.len();
    let mut carts: Vec<CartResult> = Vec::new();
    let mut i: usize = 0;
    while i < n
        invariant
            n == rows@.len(),
            rows@ == store.carts@,
            0 <= i <= n,
            carts@ == rows@.take(i as int).map_values(|c: CartRow| cart_result_of(c)),
        decreases n - i,
    {
        let row = &rows[i];
        carts.push(CartResult { id: row.id, creation_date: row.creation_date, name: row.name.clone() });
        proof {
            assert(carts@ =~= rows@.take(i + 1 as int).map_values(|c: CartRow| cart_result_of(c)));
        }
        i = i + 1;
    }
    proof {
        assert(rows@.take(n as int) =~= rows@);
    }
    Ok(ServerResponse::success(ListCartsResponse { carts }))
}

} // verus!
