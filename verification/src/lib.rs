//! Turns the free-form text of a text generator into a Conventional
//! Commits message.
//!
//! [`CommitFormatter::format`] cleans the text of what generators wrap
//! round a message and hands the message on as it is worded.
//! [`CommitFormatter::analyze`] takes the cleaned message apart into a
//! [`CommitRecord`]: type, scope, description, body and breaking-change
//! mark, each found by the rules of its module, and rendered again in the
//! conventional form.
//!
//! The modules `git`, `ai`, `config` and `session` hold what the program
//! round the formatter decides: which commands it asks of `git`, how it
//! reads the prompts document, where it keeps its files, and what an
//! answer at its menu means. Nothing in this crate reads a file, runs a
//! process or talks to a service.

pub mod ai;
pub mod body;
pub mod classifier;
pub mod config;
pub mod description;
pub mod fence_laws;
pub mod formatter;
pub mod git;
pub mod record;
pub mod scope;
pub mod session;
pub mod stripper;
pub mod stripper_laws;
pub mod text;
pub mod text_facts;

pub use ai::AIError;
pub use classifier::CommitTypeToken;
pub use config::Config;
pub use formatter::{CommitFormatter, CommitType};
pub use git::{GitClient, GitError};
pub use record::CommitRecord;
