//! A record store for a zoo: enclosures, staff, animals, feedings and
//! medical treatments, with referential integrity between them and a few
//! derived queries.
pub mod laws;
pub mod model;
pub mod queries;
pub mod records;
pub mod store;
pub mod table;
pub mod text;
pub mod timestamp;
