//! The rules of Flight Chat, a desktop window onto a web chat.
//!
//! A host shows two windows: the main window, and a web view in which the user has signed in
//! to the chat. For each command this library decides whether the request is accepted and
//! what the host then has to do, one action after the other (`commands`, `split`, `flow`). It
//! writes the scripts that run in the page (`scripts`, `json`), finds the addresses the page
//! is led to (`address`), and knows which cookies may pass in and out (`cookies`, `export`).
//!
//! What the commands are for is stated over what they change: the desktop (`desk`,
//! `promises`) and the web view's cookie store (`jar`).

pub mod address;
pub mod commands;
pub mod cookies;
pub mod desk;
pub mod event;
pub mod export;
pub mod flow;
pub mod host;
pub mod jar;
pub mod json;
pub mod promises;
pub mod refusal;
pub mod scripts;
pub mod split;
pub mod text;
