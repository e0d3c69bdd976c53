//! The core of a Lambda handler that answers requests by a Rocket instance.
//!
//! [`request`] turns what Lambda sends into what Rocket is handed, [`response`]
//! turns Rocket's answer into what Lambda is handed back, and [`handler`] decides
//! how to come by the client of the instance. What is believed of other crates
//! stands in [`outside`].
pub mod body;
pub mod config;
pub mod context;
pub mod error;
pub mod handler;
pub mod headers;
pub mod outside;
pub mod request;
pub mod response;
pub mod text;
pub mod uri;
