use walmart_goback_backend::app_error::RepoError;
use walmart_goback_backend::cart_create;
use walmart_goback_backend::cart_delete;
use walmart_goback_backend::cart_fetch;
use walmart_goback_backend::cart_items;
use walmart_goback_backend::cart_list::list_carts;
use walmart_goback_backend::store::Store;

fn create_item(section: char, corridor: i32, shelf: i32, is_cold: Option<bool>) -> cart_create::CartItem {
    cart_create::CartItem {
        section,
        corridor,
        shelf,
        subshelf: None,
        photo: String::from("p.jpg"),
        is_cold,
    }
}

fn mutate_item(section: char, corridor: i32, shelf: i32, is_cold: bool) -> cart_items::CartItem {
    cart_items::CartItem {
        section,
        corridor,
        shelf,
        subshelf: None,
        photo: String::from("p.jpg"),
        is_cold,
    }
}

#[test]
fn create_cart_issues_fresh_positive_id_and_binds_items() {
    let mut store = Store::new();
    let body = cart_create::PostCartBody {
        name: String::from("first"),
        items: vec![create_item('A', 1, 2, Some(true)), create_item('B', 3, 4, None)],
    };
    let resp = cart_create::post_cart(&mut store, body, 100).unwrap();
    assert_eq!(resp.status_code, 201);
    assert_eq!(resp.message, "success");
    assert!(resp.data.cart.id > 0);
    assert_eq!(resp.data.cart.id, 1);
    assert_eq!(resp.data.items.len(), 2);
    for item in &resp.data.items {
        assert_eq!(item.cart_id, resp.data.cart.id);
        assert!(item.id > 0);
    }
    assert_ne!(resp.data.items[0].id, resp.data.items[1].id);

    // a second cart gets an id never issued before
    let body2 = cart_create::PostCartBody { name: String::from("second"), items: vec![] };
    let resp2 = cart_create::post_cart(&mut store, body2, 101).unwrap();
    assert_eq!(resp2.data.cart.id, 2);
    assert_ne!(resp2.data.cart.id, resp.data.cart.id);
}

#[test]
fn create_cart_with_no_items_inserts_none() {
    let mut store = Store::new();
    let body = cart_create::PostCartBody { name: String::from("empty"), items: vec![] };
    let resp = cart_create::post_cart(&mut store, body, 5).unwrap();
    assert_eq!(resp.data.items.len(), 0);
    assert_eq!(store.items.len(), 0);
    assert_eq!(store.next_item_id, 1);
}

#[test]
fn get_cart_returns_what_creation_produced() {
    let mut store = Store::new();
    let body = cart_create::PostCartBody {
        name: String::from("groceries"),
        items: vec![create_item('C', 7, 8, Some(false))],
    };
    let created = cart_create::post_cart(&mut store, body, 50).unwrap();
    let got = cart_fetch::get_cart(&store, cart_fetch::CartId { cart_id: created.data.cart.id })
        .unwrap();
    assert_eq!(got.status_code, 200);
    assert_eq!(got.data.cart.id, created.data.cart.id);
    assert_eq!(got.data.cart.creation_date, created.data.cart.creation_date);
    assert_eq!(got.data.cart.name, created.data.cart.name);
    assert_eq!(got.data.items.len(), created.data.items.len());
    let fetched = &got.data.items[0];
    let made = &created.data.items[0];
    assert_eq!(fetched.id, made.id);
    assert_eq!(fetched.section, made.section);
    assert_eq!(fetched.corridor, made.corridor);
    assert_eq!(fetched.shelf, made.shelf);
    assert_eq!(fetched.subshelf, made.subshelf);
    assert_eq!(fetched.photo, made.photo);
}

#[test]
fn get_missing_cart_is_not_found() {
    let store = Store::new();
    let err = cart_fetch::get_cart(&store, cart_fetch::CartId { cart_id: 9 }).unwrap_err();
    assert_eq!(err.0, RepoError::NotFound);
    let envelope = err.to_envelope();
    assert_eq!(envelope.status_code, 404);
    assert_eq!(envelope.message, "not found");
}

#[test]
fn delete_cart_removes_cart_and_items() {
    let mut store = Store::new();
    let body = cart_create::PostCartBody {
        name: String::from("doomed"),
        items: vec![create_item('D', 1, 1, Some(true)), create_item('E', 2, 2, None)],
    };
    let created = cart_create::post_cart(&mut store, body, 10).unwrap();
    let id = created.data.cart.id;
    let deleted = cart_delete::delete_cart(&mut store, cart_delete::CartId { cart_id: id })
        .unwrap();
    assert_eq!(deleted.status_code, 200);
    assert!(deleted.data);
    let err = cart_fetch::get_cart(&store, cart_fetch::CartId { cart_id: id }).unwrap_err();
    assert_eq!(err.0, RepoError::NotFound);
    assert!(store.items.iter().all(|it| it.cart_id != id));
    assert_eq!(store.items.len(), 0);
}

#[test]
fn delete_missing_cart_is_not_found_and_mutates_nothing() {
    let mut store = Store::new();
    let body = cart_create::PostCartBody {
        name: String::from("bystander"),
        items: vec![create_item('F', 5, 5, None)],
    };
    cart_create::post_cart(&mut store, body, 10).unwrap();
    let carts_before = store.carts.len();
    let items_before = store.items.len();
    let err = cart_delete::delete_cart(&mut store, cart_delete::CartId { cart_id: 77 })
        .unwrap_err();
    assert_eq!(err.0, RepoError::NotFound);
    assert_eq!(store.carts.len(), carts_before);
    assert_eq!(store.items.len(), items_before);
}

#[test]
fn mutate_add_then_delete_restores_item_list() {
    let mut store = Store::new();
    let body = cart_create::PostCartBody {
        name: String::from("steady"),
        items: vec![create_item('G', 1, 2, Some(true))],
    };
    let created = cart_create::post_cart(&mut store, body, 10).unwrap();
    let cart_id = created.data.cart.id;
    let before: Vec<i64> = store.items.iter().map(|it| it.id).collect();

    let add = cart_items::PostCartBody {
        items_created: vec![mutate_item('H', 9, 9, false)],
        items_deleted: vec![],
    };
    let added = cart_items::post_cart_items(
        &mut store,
        cart_items::CartId { cart_id },
        add,
        20,
    )
    .unwrap();
    assert_eq!(added.data.items_added.len(), 1);
    let new_id = added.data.items_added[0];

    let remove = cart_items::PostCartBody {
        items_created: vec![],
        items_deleted: vec![new_id],
    };
    let removed = cart_items::post_cart_items(
        &mut store,
        cart_items::CartId { cart_id },
        remove,
        30,
    )
    .unwrap();
    assert_eq!(removed.data.items_deleted, vec![new_id]);
    let after: Vec<i64> = store.items.iter().map(|it| it.id).collect();
    assert_eq!(after, before);
    let snapshot_ids: Vec<i64> = removed.data.items.iter().map(|it| it.id).collect();
    assert_eq!(snapshot_ids, before);
}

#[test]
fn mutate_with_empty_lists_writes_nothing_and_returns_snapshot() {
    let mut store = Store::new();
    let body = cart_create::PostCartBody {
        name: String::from("still"),
        items: vec![create_item('I', 4, 4, Some(false))],
    };
    let created = cart_create::post_cart(&mut store, body, 10).unwrap();
    let cart_id = created.data.cart.id;
    let carts_before = store.carts.len();
    let items_before: Vec<i64> = store.items.iter().map(|it| it.id).collect();
    let clock_before = store.clock;

    let noop = cart_items::PostCartBody { items_created: vec![], items_deleted: vec![] };
    let resp = cart_items::post_cart_items(
        &mut store,
        cart_items::CartId { cart_id },
        noop,
        99,
    )
    .unwrap();
    assert_eq!(resp.data.items_added.len(), 0);
    assert_eq!(resp.data.items_deleted.len(), 0);
    let snapshot_ids: Vec<i64> = resp.data.items.iter().map(|it| it.id).collect();
    assert_eq!(snapshot_ids, items_before);
    assert_eq!(store.carts.len(), carts_before);
    let items_after: Vec<i64> = store.items.iter().map(|it| it.id).collect();
    assert_eq!(items_after, items_before);
    assert_eq!(store.clock, clock_before);
}

#[test]
fn weekly_cart_example_add_one_item() {
    let mut store = Store::new();
    let body = cart_create::PostCartBody { name: String::from("Weekly"), items: vec![] };
    let created = cart_create::post_cart(&mut store, body, 1000).unwrap();
    assert_eq!(created.data.cart.id, 1);
    assert_eq!(created.data.cart.name, "Weekly");
    assert_eq!(created.data.cart.creation_date, 1000);
    assert_eq!(created.data.items.len(), 0);

    let add = cart_items::PostCartBody {
        items_created: vec![cart_items::CartItem {
            section: 'A',
            corridor: 2,
            shelf: 3,
            subshelf: None,
            photo: String::from("p.jpg"),
            is_cold: false,
        }],
        items_deleted: vec![],
    };
    let resp = cart_items::post_cart_items(
        &mut store,
        cart_items::CartId { cart_id: 1 },
        add,
        2000,
    )
    .unwrap();
    assert_eq!(resp.data.items_added, vec![1]);
    assert_eq!(resp.data.items_deleted, Vec::<i64>::new());
    assert_eq!(resp.data.items.len(), 1);
    let item = &resp.data.items[0];
    assert_eq!(item.id, 1);
    assert_eq!(item.cart_id, 1);
    assert_eq!(item.section, 'A');
    assert_eq!(item.corridor, 2);
    assert_eq!(item.shelf, 3);
    assert_eq!(item.subshelf, None);
    assert_eq!(item.photo, "p.jpg");
    assert_eq!(item.is_cold, 0);
    assert_eq!(item.creation_date, 2000);
}

#[test]
fn weekly_cart_example_delete_the_item() {
    let mut store = Store::new();
    let body = cart_create::PostCartBody { name: String::from("Weekly"), items: vec![] };
    cart_create::post_cart(&mut store, body, 1000).unwrap();
    let add = cart_items::PostCartBody {
        items_created: vec![cart_items::CartItem {
            section: 'A',
            corridor: 2,
            shelf: 3,
            subshelf: None,
            photo: String::from("p.jpg"),
            is_cold: false,
        }],
        items_deleted: vec![],
    };
    cart_items::post_cart_items(&mut store, cart_items::CartId { cart_id: 1 }, add, 2000)
        .unwrap();

    let remove = cart_items::PostCartBody { items_created: vec![], items_deleted: vec![1] };
    let resp = cart_items::post_cart_items(
        &mut store,
        cart_items::CartId { cart_id: 1 },
        remove,
        3000,
    )
    .unwrap();
    assert_eq!(resp.data.items_added, Vec::<i64>::new());
    assert_eq!(resp.data.items_deleted, vec![1]);
    assert_eq!(resp.data.items.len(), 0);
}

#[test]
fn list_carts_reports_all_in_insertion_order() {
    let mut store = Store::new();
    let a = cart_create::PostCartBody { name: String::from("alpha"), items: vec![] };
    let b = cart_create::PostCartBody { name: String::from("beta"), items: vec![] };
    cart_create::post_cart(&mut store, a, 1).unwrap();
    cart_create::post_cart(&mut store, b, 2).unwrap();
    let resp = list_carts(&store).unwrap();
    assert_eq!(resp.status_code, 200);
    assert_eq!(resp.data.carts.len(), 2);
    assert_eq!(resp.data.carts[0].id, 1);
    assert_eq!(resp.data.carts[0].name, "alpha");
    assert_eq!(resp.data.carts[1].id, 2);
    assert_eq!(resp.data.carts[1].name, "beta");
}

#[test]
fn insert_for_missing_cart_is_a_constraint_violation() {
    let mut store = Store::new();
    let add = cart_items::PostCartBody {
        items_created: vec![mutate_item('J', 1, 1, true)],
        items_deleted: vec![],
    };
    let err = cart_items::post_cart_items(
        &mut store,
        cart_items::CartId { cart_id: 5 },
        add,
        10,
    )
    .unwrap_err();
    assert_eq!(err.0, RepoError::ConstraintViolation);
    assert_eq!(err.to_envelope().status_code, 500);
    assert_eq!(store.items.len(), 0);
}

#[test]
fn exhausted_cart_id_space_is_an_internal_failure() {
    let mut store = Store::new();
    store.next_cart_id = i64::MAX;
    let body = cart_create::PostCartBody { name: String::from("late"), items: vec![] };
    let err = cart_create::post_cart(&mut store, body, 1).unwrap_err();
    assert_eq!(err.0, RepoError::Unclassified);
    assert_eq!(store.carts.len(), 0);
}

#[test]
fn exhausted_item_id_space_rolls_back_the_whole_mutation() {
    let mut store = Store::new();
    let body = cart_create::PostCartBody { name: String::from("full"), items: vec![] };
    cart_create::post_cart(&mut store, body, 1).unwrap();
    store.next_item_id = i64::MAX;
    let add = cart_items::PostCartBody {
        items_created: vec![mutate_item('K', 1, 1, false)],
        items_deleted: vec![],
    };
    let err = cart_items::post_cart_items(
        &mut store,
        cart_items::CartId { cart_id: 1 },
        add,
        10,
    )
    .unwrap_err();
    assert_eq!(err.0, RepoError::Unclassified);
    assert_eq!(store.items.len(), 0);
    assert_eq!(store.next_item_id, i64::MAX);
}

#[test]
fn bulk_delete_ignores_ownership_as_the_wire_protocol_does() {
    // Deleting by id does not check which cart owns the row: an id reached
    // through another cart's request still deletes the row.
    let mut store = Store::new();
    let owner = cart_create::PostCartBody {
        name: String::from("owner"),
        items: vec![create_item('L', 1, 1, None)],
    };
    let created = cart_create::post_cart(&mut store, owner, 1).unwrap();
    let owned_item = created.data.items[0].id;
    let other = cart_create::PostCartBody { name: String::from("other"), items: vec![] };
    let other_cart = cart_create::post_cart(&mut store, other, 2).unwrap().data.cart.id;

    let remove = cart_items::PostCartBody {
        items_created: vec![],
        items_deleted: vec![owned_item],
    };
    let resp = cart_items::post_cart_items(
        &mut store,
        cart_items::CartId { cart_id: other_cart },
        remove,
        3,
    )
    .unwrap();
    assert_eq!(resp.data.items_deleted, vec![owned_item]);
    assert_eq!(store.items.len(), 0);
}

#[test]
fn deletion_only_mutation_succeeds_even_for_a_missing_cart() {
    // The delete step does not require the addressed cart to exist; only an
    // insert needs a cart to bind to.
    let mut store = Store::new();
    let owner = cart_create::PostCartBody {
        name: String::from("owner"),
        items: vec![create_item('Q', 1, 1, None)],
    };
    let created = cart_create::post_cart(&mut store, owner, 1).unwrap();
    let item_id = created.data.items[0].id;
    let remove = cart_items::PostCartBody {
        items_created: vec![],
        items_deleted: vec![item_id],
    };
    let resp = cart_items::post_cart_items(
        &mut store,
        cart_items::CartId { cart_id: 404 },
        remove,
        2,
    )
    .unwrap();
    assert_eq!(resp.data.items_deleted, vec![item_id]);
    assert_eq!(resp.data.items.len(), 0);
    assert_eq!(store.items.len(), 0);
}

#[test]
fn deleting_unknown_item_ids_deletes_nothing() {
    let mut store = Store::new();
    let body = cart_create::PostCartBody {
        name: String::from("keeper"),
        items: vec![create_item('M', 1, 1, None)],
    };
    let created = cart_create::post_cart(&mut store, body, 1).unwrap();
    let remove = cart_items::PostCartBody {
        items_created: vec![],
        items_deleted: vec![999, 1000],
    };
    let resp = cart_items::post_cart_items(
        &mut store,
        cart_items::CartId { cart_id: created.data.cart.id },
        remove,
        2,
    )
    .unwrap();
    assert_eq!(resp.data.items_deleted.len(), 0);
    assert_eq!(store.items.len(), 1);
}

#[test]
fn cold_flag_defaults_to_false_at_creation_and_stores_as_zero_or_one() {
    let mut store = Store::new();
    let body = cart_create::PostCartBody {
        name: String::from("fridge"),
        items: vec![
            create_item('N', 1, 1, None),
            create_item('O', 2, 2, Some(true)),
            create_item('P', 3, 3, Some(false)),
        ],
    };
    let resp = cart_create::post_cart(&mut store, body, 1).unwrap();
    assert_eq!(resp.data.items[0].is_cold, 0);
    assert_eq!(resp.data.items[1].is_cold, 1);
    assert_eq!(resp.data.items[2].is_cold, 0);
}

#[test]
fn creation_dates_never_decrease() {
    let mut store = Store::new();
    let a = cart_create::PostCartBody { name: String::from("later"), items: vec![] };
    let first = cart_create::post_cart(&mut store, a, 100).unwrap();
    assert_eq!(first.data.cart.creation_date, 100);
    // wall time moved backwards; the store's clock does not
    let b = cart_create::PostCartBody { name: String::from("earlier"), items: vec![] };
    let second = cart_create::post_cart(&mut store, b, 40).unwrap();
    assert_eq!(second.data.cart.creation_date, 100);
}

#[test]
fn failure_classes_have_distinct_descriptions() {
    assert_eq!(RepoError::NotFound.describe(), "not found");
    assert_eq!(RepoError::ConstraintViolation.describe(), "constraint violation");
    assert_eq!(RepoError::StoreUnavailable.describe(), "store unavailable");
    assert_eq!(RepoError::Unclassified.describe(), "internal error");
}
