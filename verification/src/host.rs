use vstd::prelude::*;
use crate::address::Address;

verus! {

/// One account in the list that an instruction for another program names.
#[derive(Clone, Copy, Debug, PartialEq, Eq)]
pub struct AccountMeta {
    /// The account's address.
    pub key: Address,
    /// Whether the instruction needs the account's signature.
    pub is_signer: bool,
    /// Whether the instruction may change the account.
    pub is_writable: bool,
}

/// An instruction that the host is asked to run on the program's behalf.
#[derive(Clone, Debug, PartialEq, Eq)]
pub struct HostInstruction {
    /// The program that carries the instruction out.
    pub program_id: Address,
    /// The accounts that the instruction works on.
    pub accounts: Vec<AccountMeta>,
    /// The instruction in the encoding of the program that carries it out.
    pub data: Vec<u8>,
}

/// A host instruction as contracts speak of it.
pub struct HostInstructionView {
    pub program_id: Seq<u8>,
    pub accounts: Seq<AccountMeta>,
    pub data: Seq<u8>,
}

impl View for HostInstruction {
    type V = HostInstructionView;

    open spec fn view(&self) -> HostInstructionView {
        HostInstructionView {
            program_id: self.program_id@,
            accounts: self.accounts@,
            data: self.data@,
        }
    }
}

/// The address of the system program, which creates accounts: 32 zero bytes.
pub open spec fn system_program_id() -> Seq<u8> {
    Seq::new(32, |i: int| 0u8)
}

/// The data of the system program's instruction that creates an account with
/// `lamports` of balance and `space` bytes of storage, owned by `owner`, as
/// `solana_program::system_instruction::create_account` encodes it.
pub uninterp spec fn create_account_data(lamports: u64, space: u64, owner: Seq<u8>) -> Seq<u8>;

/// The instruction that asks the system program to create `new_account`, paid
/// for by `payer`. Both accounts sign and both are changed.
pub open spec fn create_account_instruction(
    payer: Address,
    new_account: Address,
    lamports: u64,
    space: u64,
    owner: Address,
) -> HostInstructionView {
    HostInstructionView {
        program_id: system_program_id(),
        accounts: seq![
            AccountMeta { key: payer, is_signer: true, is_writable: true },
            AccountMeta { key: new_account, is_signer: true, is_writable: true },
        ],
        data: create_account_data(lamports, space, owner@),
    }
}

/// Calls `solana_program::system_instruction::create_account` and hands the
/// instruction back field by field. The contract claims what the function's
/// source shows: the instruction is addressed to the system program, it lists
/// the payer and the new account in that order, each as a writable signer, and
/// its data depend on the balance, the space and the owner alone.
#[verifier::external_body]
pub(crate) fn system_create_account(
    payer: &Address,
    new_account: &Address,
    lamports: u64,
    space: u64,
    owner: &Address,
) -> (instruction: HostInstruction)
    ensures
        instruction.program_id@ == system_program_id(),
        instruction.accounts@ == seq![
            AccountMeta { key: *payer, is_signer: true, is_writable: true },
            AccountMeta { key: *new_account, is_signer: true, is_writable: true },
        ],
        instruction.data@ == create_account_data(lamports, space, owner@),
{
    let built = solana_program::system_instruction::create_account(
        &solana_program::pubkey::Pubkey::new_from_array(payer.bytes),
        &solana_program::pubkey::Pubkey::new_from_array(new_account.bytes),
        lamports,
        space,
        &solana_program::pubkey::Pubkey::new_from_array(owner.bytes),
    );
    let accounts = built.accounts.iter().map(|meta| AccountMeta {
        key: Address { bytes: meta.pubkey.to_bytes() },
        is_signer: meta.is_signer,
        is_writable: meta.is_writable,
    }).collect();
    HostInstruction { program_id: Address { bytes: built.program_id.to_bytes() }, accounts, data: built.data }
}

/// What an unfinished instruction is waiting for.
#[derive(Clone, Debug, PartialEq, Eq)]
pub enum Pending {
    /// The host is asked for the least balance that keeps an account of `space`
    /// bytes free of rent.
    MinimumBalance { space: u64, initial_value: u64 },
    /// The host is asked to run `instruction`, which creates the counter
    /// account.
    CreateAccount { instruction: HostInstruction, initial_value: u64 },
}

/// An unfinished instruction as contracts speak of it.
pub enum PendingView {
    MinimumBalance { space: u64, initial_value: u64 },
    CreateAccount { instruction: HostInstructionView, initial_value: u64 },
}

impl View for Pending {
    type V = PendingView;

    open spec fn view(&self) -> PendingView {
        match *self {
            Pending::MinimumBalance { space, initial_value } => PendingView::MinimumBalance {
                space,
                initial_value,
            },
            Pending::CreateAccount { instruction, initial_value } => PendingView::CreateAccount {
                instruction: instruction@,
                initial_value,
            },
        }
    }
}

/// What the host answers to a request.
#[derive(Clone, Copy, Debug, PartialEq, Eq, Structural)]
pub enum HostReply {
    /// The least balance that was asked for.
    MinimumBalance(u64),
    /// The instruction was run.
    Created,
    /// The host could not do what was asked.
    Failed,
}

/// What a finished instruction has done.
#[derive(Clone, Copy, Debug, PartialEq, Eq, Structural)]
pub enum Outcome {
    /// The counter account was created and holds `initial_value`.
    Initialized { initial_value: u64 },
    /// The counter was incremented and now stands at `count`.
    Incremented { count: u64 },
}

/// How far an instruction has come.
#[derive(Clone, Debug, PartialEq, Eq)]
pub enum Step {
    /// Nothing is left to do.
    Finished(Outcome),
    /// The host has to answer before the instruction can go on.
    Ask(Pending),
}

/// A step as contracts speak of it.
pub enum StepView {
    Finished(Outcome),
    Ask(PendingView),
}

impl View for Step {
    type V = StepView;

    open spec fn view(&self) -> StepView {
        match *self {
            Step::Finished(outcome) => StepView::Finished(outcome),
            Step::Ask(pending) => StepView::Ask(pending@),
        }
    }
}

} // verus!
