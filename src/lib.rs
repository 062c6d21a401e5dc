pub mod cpu;
pub mod instruction;
pub mod keyboard;
pub mod lemmas;
pub mod semantics;
