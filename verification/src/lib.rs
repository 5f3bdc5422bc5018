//! Alerts of a SIEM reported as pages of a Notion database.
//!
//! The library holds the data of the service (what a database says of
//! itself, what a page holds), their JSON form in both directions, the rule
//! by which a database is found fit to take alerts, and the page that
//! reports one alert. It sends nothing: a caller with a connection fetches
//! the description of the database and posts the page.

pub mod block;
pub mod client;
pub mod codec;
pub mod database;
pub mod json;
pub mod map;
pub mod page;
pub mod properties;
pub mod text;
