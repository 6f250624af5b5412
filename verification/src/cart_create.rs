//! Creating a cart, optionally with its first items in one batch.

use vstd::prelude::*;

use crate::app_error::{InternalServerError, RepoError};
use crate::server::{ServerResponse, ServerResponseResult, STATUS_CREATED};
use crate::store::{
    fresh_items, lemma_fresh_items_props, new_clock, same_store, CartRow, ItemRow, ItemSpec, Store,
};

verus! {

/// One item as a caller asks for it at cart creation: location columns and
/// photo; the cold flag may be left out and then defaults to false.
#[derive(Debug, PartialEq)]
pub struct CartItem {
    pub section: char,
    pub corridor: i32,
    pub shelf: i32,
    pub subshelf: Option<i32>,
    pub photo: String,
    pub is_cold: Option<bool>,
}

/// The creation command: a name and the first items, possibly none.
#[derive(Debug, PartialEq)]
pub struct PostCartBody {
    pub name: String,
    pub items: Vec<CartItem>,
}

/// One cart as the boundary reports it.
#[derive(Debug, PartialEq)]
pub struct CartResult {
    pub id: i64,
    pub creation_date: i64,
    pub name: String,
}

/// One created item as the boundary reports it: every column, generated
/// ones included, the cold flag as the stored 0/1.
#[derive(Debug, PartialEq)]
pub struct CartItemResult {
    pub id: i64,
    pub creation_date: i64,
    pub cart_id: i64,
    pub section: char,
    pub corridor: i64,
    pub shelf: i64,
    pub subshelf: Option<i64>,
    pub photo: String,
    pub is_cold: i64,
}

/// The payload of a successful creation: the cart and the items it was
/// created with, in insertion order.
#[derive(Debug, PartialEq)]
pub struct PostCartResult {
    pub cart: CartResult,
    pub items: Vec<CartItemResult>,
}

/// What one requested item asks of the store: coordinates widened to the
/// store's integer width, an absent cold flag read as false.
pub open spec fn item_spec_of(ci: CartItem) -> ItemSpec {
    ItemSpec {
        section: ci.section,
        corridor: ci.corridor as i64,
        shelf: ci.shelf as i64,
        subshelf: match ci.subshelf {
            Some(v) => Some(v as i64),
            None => None,
        },
        photo: ci.photo,
        is_cold: match ci.is_cold {
            Some(b) => b,
            None => false,
        },
    }
}

/// What a list of requested items asks of the store, in order.
pub open spec fn specs_of(items: Seq<CartItem>) -> Seq<ItemSpec> {
    items.map_values(|ci: CartItem| item_spec_of(ci))
}

/// How a cart row is reported.
pub open spec fn cart_result_of(c: CartRow) -> CartResult {
    CartResult { id: c.id, creation_date: c.creation_date, name: c.name }
}

/// How a created item row is reported.
pub open spec fn item_result_of(it: ItemRow) -> CartItemResult {
    CartItemResult {
        id: it.id,
        creation_date: it.creation_date,
        cart_id: it.cart_id,
        section: it.section,
        corridor: it.corridor,
        shelf: it.shelf,
        subshelf: it.subshelf,
        photo: it.photo,
        is_cold: it.is_cold,
    }
}

/// Create a cart and, when items were requested, insert them all in one
/// batch bound to the new cart's id; an empty request issues no item
/// insert.  Both writes happen or neither: the only failure is id-space
/// exhaustion at the store, and then nothing changes.  The result carries
/// the full cart row and the full created item rows, in insertion order:
/// the cart's id is positive and issued to no cart before, and every
/// created item is owned by it.
pub fn post_cart(store: &mut Store, body: PostCartBody, now: i64) -> (r: ServerResponseResult<
    PostCartResult,
>)
    requires
        old(store).wf(),
    ensures
        final(store).wf(),
        r is Ok <==> (old(store).next_cart_id < i64::MAX && old(store).next_item_id
            + body.items@.len() <= i64::MAX),
        r matches Ok(resp) ==> ({
            let date = new_clock(old(store).clock, now);
            let cart = CartRow { id: old(store).next_cart_id, creation_date: date, name: body.name };
            let fresh = fresh_items(
                old(store).next_cart_id,
                specs_of(body.items@),
                old(store).next_item_id,
                date,
            );
            &&& resp.status_code == STATUS_CREATED
            &&& resp.message@ == "success"@
            &&& resp.data.cart == cart_result_of(cart)
            &&& resp.data.cart.id > 0
            &&& forall|k: int|
                0 <= k < old(store).carts@.len() ==> (#[trigger] old(store).carts@[k]).id
                    != resp.data.cart.id
            &&& resp.data.items@ == fresh.map_values(|it: ItemRow| item_result_of(it))
            &&& resp.data.items@.len() == body.items@.len()
            &&& forall|k: int|
                0 <= k < resp.data.items@.len() ==> (#[trigger] resp.data.items@[k]).cart_id
                    == resp.data.cart.id && resp.data.items@[k].id > 0
            &&& final(store).carts@ == old(store).carts@.push(cart)
            &&& final(store).items@ == old(store).items@ + fresh
            &&& final(store).next_cart_id == old(store).next_cart_id + 1
            &&& final(store).next_item_id == old(store).next_item_id + body.items@.len()
            &&& final(store).clock == date
            &&& (body.items@.len() == 0 ==> final(store).items@ == old(store).items@
                && resp.data.items@.len() == 0)
        }),
        r matches Err(e) ==> e.0 == RepoError::Unclassified && same_store(
            *final(store),
            *old(store),
        ),
{
    let n = body.items.len();
    if store.next_cart_id == i64::MAX {
        return Err(InternalServerError(RepoError::Unclassified));
    }
    let headroom: i64 = i64::MAX - store.next_item_id;
    if (n as u64) > (headroom as u64) {
        return Err(InternalServerError(RepoError::Unclassified));
    }
    let ghost first_item_id = store.next_item_id;
    let cart_row = match store.insert_cart(body.name, now) {
        Ok(c) => c,
        Err(_) => {
            return Err(InternalServerError(RepoError::Unclassified));
        },
    };
    let cart = CartResult {
        id: cart_row.id,
        creation_date: cart_row.creation_date,
        name: cart_row.name,
    };
    let mut items: Vec<CartItemResult> = Vec::new();
    if n > 0 {
        let mut specs: Vec<ItemSpec> = Vec::new();
        let mut i: usize = 0;
        while i < n
            invariant
                n == body.items@.len(),
                0 <= i <= n,
                specs@ == specs_of(body.items@.take(i as int)),
            decreases n - i,
        {
            let ci = &body.items[i];
            let spec_i = ItemSpec {
                section: ci.section,
                corridor: ci.corridor as i64,
                shelf: ci.shelf as i64,
                subshelf: match ci.subshelf {
                    Some(v) => Some(v as i64),
                    None => None,
                },
                photo: ci.photo.clone(),
                is_cold: match ci.is_cold {
                    Some(b) => b,
                    None => false,
                },
            };
            specs.push(spec_i);
            proof {
                assert(specs@ =~= specs_of(body.items@.take(i + 1 as int)));
            }
            i = i + 1;
        }
        proof {
            assert(body.items@.take(n as int) =~= body.items@);
            assert(store.carts@[store.carts@.len() - 1].id == cart.id);
        }
        let rows = match store.batch_insert_items(cart.id, specs, now) {
            Ok(rows) => rows,
            Err(_) => {
                return Err(InternalServerError(RepoError::Unclassified));
            },
        };
        proof {
            lemma_fresh_items_props(
                cart.id,
                specs_of(body.items@),
                first_item_id,
                new_clock(old(store).clock, now),
            );
        }
        let m = rows.len();
        let mut j: usize = 0;
        while j < m
            invariant
                m == rows@.len(),
                0 <= j <= m,
                items@ == rows@.take(j as int).map_values(|it: ItemRow| item_result_of(it)),
            decreases m - j,
        {
            let row = &rows[j];
            items.push(
                CartItemResult {
                    id: row.id,
                    creation_date: row.creation_date,
                    cart_id: row.cart_id,
                    section: row.section,
                    corridor: row.corridor,
                    shelf: row.shelf,
                    subshelf: row.subshelf,
                    photo: row.photo.clone(),
                    is_cold: row.is_cold,
                },
            );
            proof {
                assert(items@ =~= rows@.take(j + 1 as int).map_values(
                    |it: ItemRow| item_result_of(it),
                ));
            }
            j = j + 1;
        }
        proof {
            assert(rows@.take(m as int) =~= rows@);
        }
    } else {
        proof {
            assert(specs_of(body.items@) =~= Seq::<ItemSpec>::empty());
            assert(store.items@ + fresh_items(
                cart.id,
                specs_of(body.items@),
                first_item_id,
                new_clock(old(store).clock, now),
            ) =~= store.items@);
            assert(items@ =~= fresh_items(
                cart.id,
                specs_of(body.items@),
                first_item_id,
                new_clock(old(store).clock, now),
            ).map_values(|it: ItemRow| item_result_of(it)));
        }
    }
    Ok(ServerResponse::success_code(PostCartResult { cart, items }, STATUS_CREATED))
}

} // verus!
