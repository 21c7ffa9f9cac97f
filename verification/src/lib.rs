//! The rules of a PowerShell history server.
//!
//! Clients record the commands that they run and search them by prefix, over
//! HTTP; the commands are kept in a database. The server can also set up a
//! user's PowerShell for the client.
//!
//! - [`config`] says where the server's settings come from, and [`token`] makes
//!   an access token where none is set.
//! - [`api`] decides about requests, [`store`] says what the database is asked
//!   to do for them, and [`like`] makes a prefix a pattern.
//! - [`install`] says which files the setup writes, and [`profile`] keeps one
//!   block of settings in a PowerShell profile. [`profile_laws`] states what
//!   holds of every update of a profile.
//! - [`text`] and [`line_facts`] are about text and its lines.
//!
//! What holds of all inputs is stated as laws: [`text_laws`], [`api_laws`],
//! [`config_laws`], [`update_laws`] and [`token_line_laws`] tell what the
//! specifications mean, and [`calls`] what calls of the library give, on their
//! arguments and results alone.

pub mod api;
pub mod api_laws;
pub mod calls;
pub mod config;
pub mod config_laws;
pub mod install;
pub mod like;
pub mod line_facts;
pub mod profile;
pub mod profile_laws;
pub mod store;
pub mod text;
pub mod text_laws;
pub mod token;
pub mod token_line_laws;
pub mod update_laws;
