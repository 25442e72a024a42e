//! An assembler from a small register-style assembly language to scoreboard
//! and storage commands of a scripted game.
//!
//! Each line of a source holds one instruction. [`parse`] reads a whole source
//! into [`Mnemonic`]s, [`Mnemonic::to_qualified`] lowers one instruction to its
//! commands, and [`compile`] does both and writes the commands out.
pub mod assemble;
pub mod error;
pub mod literal;
pub mod opecode;
pub mod parser;
pub mod scoreboard;
pub mod storage;
pub mod text;

pub use assemble::compile;
pub use error::MCAsmError;
pub use literal::IntLiteral;
pub use opecode::{
    Command, Condition, IntoSingleString, Mnemonic, Operand, Qualified, Releasable,
    ScoreAddable, ScoreAssignable, ScoreCompareble, ScoreDividable, ScoreMultiplicatable,
    ScoreSubtractable, ScoreSurplusable,
};
pub use parser::{parse, parse_line};
pub use scoreboard::{lsc, Scoreboard};
pub use storage::{Path, Storage, StorageType};
