pub mod query;
