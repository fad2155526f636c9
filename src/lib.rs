//! A store of mobile-app test case documents: the schema and its validation,
//! and the decisions of saving, listing and gathering suites.

pub mod store;
pub mod testcase;
pub mod text;
