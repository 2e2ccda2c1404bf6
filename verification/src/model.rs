//! The in-memory device model: the aggregate root and its owned entities.

pub mod composition;
pub mod device;
pub mod identification;
pub mod measurement;
pub mod unit;
