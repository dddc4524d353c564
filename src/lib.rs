//! A query-relay client: it turns a query and its mode into a request that asks
//! a proxy to relay the query to one of its data sources, and classifies the
//! proxy's reply into items or a typed error.

pub mod model;
pub mod payload;
pub mod relay;
pub mod url;
