//! A prompt status-segment generator for C projects.
//!
//! Given a directory listing, the module decides whether a C project is
//! present (`detect`), and if so renders a short styled text segment from
//! a small template language (`template`, `render`), probing the C
//! compiler through an injected command runner (`probe`) only when the
//! template actually references a compiler variable, and normalizing the
//! probed version text (`version`). The orchestration, its configuration,
//! and the laws it obeys live in `builder`. Every failure downgrades the
//! segment to "absent" with a recorded reason (`errors`): a broken
//! toolchain must never break the prompt.

pub mod builder;
pub mod detect;
pub mod errors;
pub mod probe;
pub mod render;
pub mod template;
pub mod text;
pub mod version;
