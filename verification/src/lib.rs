//! Bills the Railway usage of a project through SantInvoice: every decision of a run, and none of
//! its input and output.

pub mod calendar;
pub mod clients;
pub mod config;
pub mod email;
pub mod failure;
pub mod http;
pub mod keys;
pub mod laws;
pub mod models;
pub mod readback;
pub mod replies;
pub mod runs;
pub mod text;
pub mod workflow;
pub mod written;
pub mod xml;
