//! Keeps a DNS record pointed at the machine's current public address.
//!
//! The crate holds the decision logic of a dynamic-DNS updater: parsing a
//! dotted domain into its leftmost label and root zone, mapping an address
//! family to the DNS record type, rendering an address in its canonical
//! textual form, and planning which provider mutations (insert, update,
//! delete) reconcile the remote records with the resolved address. The
//! HTTP transport that carries those mutations lives outside the crate and
//! hands plain values in and out.

pub mod domain;
pub mod ip;
pub mod payload;
pub mod reconcile;
