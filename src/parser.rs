//! Ws6in1 telegram parser and fragment assembler.
pub mod assembler;
pub mod number;
pub mod telegram;
pub mod tokens;


pub use assembler::{ReportOutcome, Ws6in1Assembler, Ws6in1AssemblerBase, Ws6in1AssemblerHeapless};
pub use telegram::{Ws6in1Data, Ws6in1ExtData, Ws6in1IndoorData, Ws6in1OutdoorData};
pub use tokens::TokenIterator;
