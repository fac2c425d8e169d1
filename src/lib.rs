//! Room storage, a publish/subscribe broadcaster for room change events,
//! and the customers service's fixed cast of characters.
pub mod broker;
pub mod storage;
pub mod rooms;
pub mod delivery;
pub mod id;
pub mod customers;
