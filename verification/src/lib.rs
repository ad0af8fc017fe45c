//! Help for a project's Makefile.
//!
//! A Makefile documents itself with tagged comments: `#|` before a target
//! gives that target's help, `#<` lines make up a text about the project, and
//! `#>` lines a postscript. This library finds the Makefile that belongs to a
//! directory, reads those comments from it and from the files it includes,
//! and builds the command-line parser that prints them as help.
//!
//! The library touches neither the file system nor the process. Its caller
//! looks at the disk and hands over what it saw; see [`Makefile::find`] and
//! [`Makefile::parse`].

pub mod cli;
pub mod error;
pub mod help;
pub mod line;
pub mod locator;
pub mod makefile;
pub mod parser;
pub mod text;

pub use crate::cli::{CommandLine, RawArgumentParser};
pub use crate::error::MakefileError;
pub use crate::help::make_help;
pub use crate::makefile::Makefile;
