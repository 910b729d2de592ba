//! The verified core of a backend between Home Assistant and an energy optimisation service.
//!
//! The library takes decisions and makes and reads documents. It sends nothing and waits for
//! nothing: the program around it does, and hands back what came of it.

pub mod backend;
pub mod cycle;
pub mod failure_text;
pub mod feed;
pub mod graphql;
pub mod home_assistant;
pub mod http;
pub mod job;
pub mod json;
pub mod schedule;
pub mod schedule_run;
pub mod settings;
pub mod text;
