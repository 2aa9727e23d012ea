//! Offline-first core for a point-of-sale terminal: a local catalog/record
//! store, a sequential barcode pool allocator, and the reconciliation logic
//! of a background synchronization engine.
//!
//! The store is modelled as plain in-memory tables; a host program persists
//! them in any durable relational engine and performs the network transfers,
//! handing the decoded results to the functions here.

pub mod codigo;
pub mod modelo;
pub mod store;
pub mod sesion;
pub mod asignador;
pub mod sync;
pub mod leyes;
