//! A warehouse and manufacturing inventory ledger.
//!
//! The ledger tracks serialized stock items across locations, keeps a per-SKU aggregate and a
//! per-location index in step with the items, records every adjustment, and drives work orders
//! through staging (first in, first out) and assembly against a bill of materials.
//!
//! - [`types`]: the records and their views.
//! - [`table`]: an insertion-ordered table with unique keys, and its model as rows.
//! - [`bounded`]: the bounded collections and the codec that the ledger relies on.
//! - [`model`]: the ledger as a mathematical state, and each operation as a step on it.
//! - [`inventory`]: the ledger itself.
//! - [`reasons`], [`staging`], [`consumption`]: the steps of staging and assembly.
//! - [`assembly`]: the work-order registry and the assembly engine.
//! - [`laws`], [`invariants`], [`placement`], [`history`]: what holds of all of it.

pub mod assembly;
pub mod bounded;
pub mod consumption;
pub mod history;
pub mod invariants;
pub mod inventory;
pub mod laws;
pub mod model;
pub mod placement;
pub mod reasons;
pub mod staging;
pub mod table;
pub mod types;
