//! The core of an on-chain counter program: decoding instructions, the stored
//! layout of the counter, and the rules by which an instruction changes the
//! accounts it is given. The host runtime is asked for what only it can do
//! through explicit requests; everything else is decided here.

pub mod account;
pub mod address;
pub mod codec;
pub mod error;
pub mod host;
pub mod instruction;
pub mod processor;

pub use account::Account;
pub use address::Address;
pub use codec::CounterAccount;
pub use error::CounterError;
pub use host::{AccountMeta, HostInstruction, HostReply, Outcome, Pending, Step};
pub use instruction::CounterInstruction;
pub use processor::{
    process_increment_counter, process_initialize_counter, process_instruction,
    resume_instruction,
};
