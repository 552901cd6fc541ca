//! Job submission, event ingestion and status tracking for an image
//! generation service.
//!
//! A submission is checked and made into a job document by the template
//! engine ([`template`], [`sd3`], [`api`]). The compute service reports on
//! its jobs over an event stream; each event is classified and written to the
//! status registry ([`events`], [`registry`]). A poll for the artifact of a
//! job goes through a few steps, of which the caller does the reading and the
//! writing and the library decides ([`resolver`]).

pub mod api;
pub mod config;
pub mod document;
pub mod events;
pub mod file_api;
mod ident;
pub mod logging;
pub mod registry;
pub mod resolver;
pub mod result;
pub mod sd3;
pub mod solana;
pub mod status;
pub mod template;
pub mod text;
