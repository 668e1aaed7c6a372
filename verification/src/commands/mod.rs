//! The subcommands: what each decides between its network calls.
pub mod call;
pub mod grep;
pub mod info;
pub mod list;
