//! Bulk item mutation: one request deletes a list of items and adds a list
//! of items for one cart, then reports the cart's complete current items.

use vstd::prelude::*;

use crate::app_error::{InternalServerError, RepoError};
use crate::server::{ServerResponse, ServerResponseResult, STATUS_CREATED};
use crate::store::{
    fresh_items, has_cart, ids_of, items_for, items_with_ids, items_without_ids,
    lemma_items_without_ids_absent, new_clock, same_store, ItemRow, ItemSpec, Store,
};

verus! {

/// One item as a caller asks for it in a bulk mutation: as at cart
/// creation, but the cold flag is required here.
#[derive(Debug, PartialEq)]
pub struct CartItem {
    pub section: char,
    pub corridor: i32,
    pub shelf: i32,
    pub subshelf: Option<i32>,
    pub photo: String,
    pub is_cold: bool,
}

/// The mutation command: items to create for the cart and ids of items to
/// delete.  Either list may be empty.
#[derive(Debug, PartialEq)]
pub struct PostCartBody {
    pub items_created: Vec<CartItem>,
    pub items_deleted: Vec<i64>,
}

/// One cart as the boundary reports it.
#[derive(Debug, PartialEq)]
pub struct CartResult {
    pub id: i64,
    pub creation_date: i64,
    pub name: String,
}

/// One item as the post-mutation snapshot reports it: every column, the
/// cold flag as the stored 0/1.
#[derive(Debug, PartialEq)]
pub struct CartItemResult {
    pub id: i64,
    pub is_cold: i64,
    pub creation_date: i64,
    pub cart_id: i64,
    pub section: char,
    pub corridor: i64,
    pub shelf: i64,
    pub subshelf: Option<i64>,
    pub photo: String,
}

/// The payload of a successful mutation: the ids actually deleted, the ids
/// generated for the added items, and the cart's complete current item
/// list, so a client needs no follow-up read.
#[derive(Debug, PartialEq)]
pub struct PostCartResult {
    pub items_deleted: Vec<i64>,
    pub items_added: Vec<i64>,
    pub items: Vec<CartItemResult>,
}

/// The cart a request addresses.
#[derive(Clone, Copy, Debug, PartialEq, Eq, Structural)]
pub struct CartId {
    pub cart_id: i64,
}

/// What one requested item asks of the store, the cold flag taken as
/// given.
pub open spec fn item_spec_of(ci: CartItem) -> ItemSpec {
    ItemSpec {
        section: ci.section,
        corridor: ci.corridor as i64,
        shelf: ci.shelf as i64,
        subshelf: match ci.subshelf {
            Some(v) => Some(v as i64),
            None => None,
        },
        photo: ci.photo,
        is_cold: ci.is_cold,
    }
}

/// What a list of requested items asks of the store, in order.
pub open spec fn specs_of(items: Seq<CartItem>) -> Seq<ItemSpec> {
    items.map_values(|ci: CartItem| item_spec_of(ci))
}

/// How an item row is reported in the snapshot.
pub open spec fn item_result_of(it: ItemRow) -> CartItemResult {
    CartItemResult {
        id: it.id,
        is_cold: it.is_cold,
        creation_date: it.creation_date,
        cart_id: it.cart_id,
        section: it.section,
        corridor: it.corridor,
        shelf: it.shelf,
        subshelf: it.subshelf,
        photo: it.photo,
    }
}

/// Apply one bulk mutation to a cart: first delete the listed item ids
/// (ids matching no row are ignored, and ownership is not consulted: the
/// listed rows go whichever cart owns them), then insert the requested
/// items bound to the addressed cart in one batch, then read back the
/// cart's complete current item list as the authoritative snapshot.  The
/// three steps are one transaction: inserting for a cart that does not
/// exist is a referential-integrity failure, id-space exhaustion an
/// internal one, and then nothing at all changes, deletions included.  A
/// mutation with both lists empty writes nothing and returns the current
/// snapshot.
pub fn post_cart_items(store: &mut Store, path: CartId, body: PostCartBody, now: i64) -> (r:
    ServerResponseResult<PostCartResult>)
    requires
        old(store).wf(),
    ensures
        final(store).wf(),
        r is Ok <==> (body.items_created@.len() == 0 || (has_cart(old(store).carts@, path.cart_id)
            && old(store).next_item_id + body.items_created@.len() <= i64::MAX)),
        r matches Ok(resp) ==> ({
            let date = new_clock(old(store).clock, now);
            let remaining = items_without_ids(old(store).items@, body.items_deleted@);
            let fresh = fresh_items(
                path.cart_id,
                specs_of(body.items_created@),
                old(store).next_item_id,
                date,
            );
            &&& resp.status_code == STATUS_CREATED
            &&& resp.message@ == "success"@
            &&& resp.data.items_deleted@ == ids_of(
                items_with_ids(old(store).items@, body.items_deleted@),
            )
            &&& resp.data.items_added@ == ids_of(fresh)
            &&& resp.data.items_added@.len() == body.items_created@.len()
            &&& final(store).items@ == remaining + fresh
            &&& final(store).carts@ == old(store).carts@
            &&& resp.data.items@ == items_for(final(store).items@, path.cart_id).map_values(
                |it: ItemRow| item_result_of(it),
            )
            &&& final(store).next_item_id == old(store).next_item_id
                + body.items_created@.len()
            &&& final(store).next_cart_id == old(store).next_cart_id
            &&& final(store).clock == if body.items_created@.len() == 0 {
                old(store).clock
            } else {
                date
            }
            &&& ((body.items_created@.len() == 0 && body.items_deleted@.len() == 0)
                ==> same_store(*final(store), *old(store)))
        }),
        r matches Err(e) ==> ({
            &&& same_store(*final(store), *old(store))
            &&& body.items_created@.len() > 0
            &&& if !has_cart(old(store).carts@, path.cart_id) {
                e.0 == RepoError::ConstraintViolation
            } else {
                e.0 == RepoError::Unclassified && old(store).next_item_id
                    + body.items_created@.len() > i64::MAX
            }
        }),
{
    let n_created = body.items_created.len();
    if n_created > 0 && !store.cart_exists(path.cart_id) {
        return Err(InternalServerError(RepoError::ConstraintViolation));
    }
    let headroom: i64 = i64::MAX - store.next_item_id;
    if (n_created as u64) > (headroom as u64) {
        return Err(InternalServerError(RepoError::Unclassified));
    }
    let items_deleted = if body.items_deleted.len() > 0 {
        store.delete_items_by_ids(&body.items_deleted)
    } else {
        proof {
            lemma_items_without_ids_absent(store.items@, body.items_deleted@);
        }
        Vec::new()
    };
    let mut items_added: Vec<i64> = Vec::new();
    if n_created > 0 {
        let mut specs: Vec<ItemSpec> = Vec::new();
        let mut i: usize = 0;
        while i < n_created
            invariant
                n_created == body.items_created@.len(),
                0 <= i <= n_created,
                specs@ == specs_of(body.items_created@.take(i as int)),
            decreases n_created - i,
        {
            let ci = &body.items_created[i];
            let spec_i = ItemSpec {
                section: ci.section,
                corridor: ci.corridor as i64,
                shelf: ci.shelf as i64,
                subshelf: match ci.subshelf {
                    Some(v) => Some(v as i64),
                    None => None,
                },
                photo: ci.photo.clone(),
                is_cold: ci.is_cold,
            };
            specs.push(spec_i);
            proof {
                assert(specs@ =~= specs_of(body.items_created@.take(i + 1 as int)));
            }
            i = i + 1;
        }
        proof {
            assert(body.items_created@.take(n_created as int) =~= body.items_created@);
        }
        let rows = match store.batch_insert_items(path.cart_id, specs, now) {
            Ok(rows) => rows,
            Err(_) => {
                return Err(InternalServerError(RepoError::Unclassified));
            },
        };
        proof {
            crate::store::lemma_fresh_items_props(
                path.cart_id,
                specs_of(body.items_created@),
                old(store).next_item_id,
                new_clock(old(store).clock, now),
            );
        }
        let m = rows.len();
        let mut j: usize = 0;
        while j < m
            invariant
                m == rows@.len(),
                0 <= j <= m,
                items_added@ == ids_of(rows@.take(j as int)),
            decreases m - j,
        {
            items_added.push(rows[j].id);
            proof {
                assert(items_added@ =~= ids_of(rows@.take(j + 1 as int)));
            }
            j = j + 1;
        }
        proof {
            assert(rows@.take(m as int) =~= rows@);
        }
    } else {
        proof {
            assert(specs_of(body.items_created@) =~= Seq::<ItemSpec>::empty());
            assert(store.items@ + fresh_items(
                path.cart_id,
                specs_of(body.items_created@),
                old(store).next_item_id,
                new_clock(old(store).clock, now),
            ) =~= store.items@);
            assert(items_added@ =~= ids_of(fresh_items(
                path.cart_id,
                specs_of(body.items_created@),
                old(store).next_item_id,
                new_clock(old(store).clock, now),
            )));
        }
    }
    let snapshot = store.select_items_of(path.cart_id);
    let k_max = snapshot.len();
    let mut items: Vec<CartItemResult> = Vec::new();
    let mut k: usize = 0;
    while k < k_max
        invariant
            k_max == snapshot@.len(),
            0 <= k <= k_max,
            items@ == snapshot@.take(k as int).map_values(|it: ItemRow| item_result_of(it)),
        decreases k_max - k,
    {
        let row = &snapshot[k];
        items.push(
            CartItemResult {
                id: row.id,
                is_cold: row.is_cold,
                creation_date: row.creation_date,
                cart_id: row.cart_id,
                section: row.section,
                corridor: row.corridor,
                shelf: row.shelf,
                subshelf: row.subshelf,
                photo: row.photo.clone(),
            },
        );
        proof {
            assert(items@ =~= snapshot@.take(k + 1 as int).map_values(
                |it: ItemRow| item_result_of(it),
            ));
        }
        k = k + 1;
    }
    proof {
        assert(snapshot@.take(k_max as int) =~= snapshot@);
    }
    Ok(
        ServerResponse::success_code(
            PostCartResult { items_deleted, items_added, items },
            STATUS_CREATED,
        ),
    )
}

} // verus!
