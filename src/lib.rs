//! Reading cookies out of the on-disk stores of Gecko and Chromium based
//! browsers: row filtering by host, per-platform key handling, value
//! decryption and assembly of canonical cookie records.
pub mod archive;
pub mod browser;
pub mod chrome;
pub mod cli;
pub mod cookie;
pub mod database;
pub mod crypto;
pub mod dpapi;
pub mod filter;
pub mod firefox;
pub mod netscape;
pub mod profiles;
pub mod text;
pub mod timestamp;

pub use browser::Browser;
pub use cookie::{Cookie, SameSite};
