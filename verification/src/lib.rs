//! A run-time interpreter for a directive-based template language in the
//! style of Common Lisp's FORMAT. A control string holds literal text and
//! tilde-introduced directives; parsing turns it into a reusable
//! [`ControlStr`], and revealing it against an argument cursor ([`Args`])
//! assembles the output text. The parser keeps exact span bookkeeping for
//! every directive, and evaluation is specified by a pure interpreter over
//! the parsed tree, so the output is a proven function of the control
//! string and the arguments.

pub mod args;
pub mod control_str;
pub mod digits;
pub mod eval_spec;
pub mod numwords;
pub mod parse_spec;
pub mod reveal_impl;
pub mod strbuf;
pub mod tildes;
pub mod tilde_kinds;

pub use args::Arg;
pub use args::ArgV;
pub use args::Args;
pub use args::ArgsV;
pub use control_str::ControlStr;
pub use numwords::into_english;
pub use numwords::into_ordinal_english;
pub use tilde_kinds::RadixParams;
pub use tilde_kinds::CharKind;
pub use tilde_kinds::ErrorKind;
pub use tilde_kinds::RadixFlag;
pub use tilde_kinds::StarKind;
pub use tilde_kinds::Tilde;
pub use tilde_kinds::TildeCondKind;
pub use tilde_kinds::TildeError;
pub use tilde_kinds::TildeKind;
pub use tilde_kinds::TildeLoopKind;
