//! Core of a small shopping-cart service: carts and their line items live in a
//! relational store; this library gives that store an explicit model and
//! verifies the repository operations (create, list, fetch, delete, bulk
//! mutation) against it, together with the response envelope they are wrapped
//! in at the HTTP boundary.

pub mod app_error;
pub mod cart_create;
pub mod cart_delete;
pub mod cart_fetch;
pub mod cart_items;
pub mod cart_list;
pub mod laws;
pub mod server;
pub mod store;
