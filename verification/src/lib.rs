//! A minimal interactive shell runtime: a quoting-aware tokenizer, a parser
//! that peels leading `KEY=VALUE` assignments off a command line, dispatch
//! planning for built-ins and `PATH` resolution, kernel status-code
//! translation, and the sizing policy of a page-granular allocator.

pub mod dispatch;
pub mod error;
pub mod helpers;
pub mod io;
pub mod shell;
pub mod start;
pub mod system;
