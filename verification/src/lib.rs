//! A minimal persistent patient-record store: a counter-based identifier
//! allocator, a durable map from identifier to record, and five operations
//! that read or mutate individual records.

pub mod patient;

pub mod decimal;

pub mod codec;

pub mod store;

pub mod service;
