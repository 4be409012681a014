//! Translators for the Hack platform.
//!
//! The core turns stack-machine commands into symbolic Hack assembly (`command`, `code`,
//! `writer`), with the calling convention, label scoping and bootstrap code; `laws` and
//! `machine` state and prove what that code does. Around it stand the readers of the three
//! source languages: stack-machine lines (`parser`), Jack tokens (`syntax`, `tokenizer`) and
//! Hack assembly with its binary encoding (`assembler`).

pub mod text;
pub mod lex;
pub mod instruct;
pub mod command;
pub mod code;
pub mod writer;
pub mod laws;
pub mod machine;
pub mod parser;
pub mod syntax;
pub mod tokenizer;
pub mod assembler;
