//! Mapping between typed records and the column-oriented rows of a tabular
//! store: column naming, field descriptors, and the encode / schema / decode
//! plans derived from them, together with queue and task naming for a task
//! queue service.

pub mod descriptor;
pub mod generator;
pub mod laws;
pub mod mapping;
pub mod naming;
pub mod tasks;
