//! The logic of the `join!` macro: its grammar, its expansion, and the state machine that the
//! expansion runs.
//!
//! What the text of an expansion does is proved, not only what it is. [`words`] reads the text word
//! by word, [`code`] says which programs the words spell, [`meaning`] says what a program does, and
//! [`program`] is the program that an expansion spells. [`agreement_laws`] states that this program
//! takes the same actions as the state machine of [`driver`], whatever the futures, streams and
//! bodies answer; [`meaning_laws`] states what the fragments of an expansion are for.

pub mod agreement;
pub mod agreement_laws;
pub mod agreement_loop;
pub mod agreement_rounds;
pub mod agreement_turns;
pub mod canceller;
pub mod code;
pub mod code_lemmas;
pub mod driver;
pub mod emit;
pub mod entry;
pub mod expansion;
pub mod expansion_laws;
pub mod grammar_laws;
pub mod laws;
pub mod lemmas;
pub mod maybe_done;
pub mod meaning;
pub mod meaning_laws;
pub mod meaning_lemmas;
pub mod poll;
pub mod program;
pub mod render;
pub mod render_laws;
pub mod scope_laws;
pub mod shape;
pub mod source;
pub mod spelling;
pub mod syntax;
pub mod words;
pub mod words_laws;
pub mod world;
pub mod world_laws;
