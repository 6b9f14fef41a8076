//! Collection items whose membership is attested by a program-derived
//! authority, issued in one all-or-nothing pipeline over an explicit ledger.

pub mod address;
pub mod authority;
pub mod error;
pub mod ledger;
pub mod pipeline;
pub mod laws;
