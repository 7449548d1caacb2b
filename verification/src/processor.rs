use vstd::prelude::*;
use crate::account::{Account, AccountView, views};
use crate::address::Address;
use crate::codec::{
    decoded, le_bytes, lemma_decode_encode, lemma_decode_stored, next_count, stored,
    CounterAccount, COUNTER_SIZE,
};
use crate::error::CounterError;
use crate::host::{
    create_account_instruction, system_create_account, HostReply, Outcome, Pending, PendingView,
    Step, StepView,
};
use crate::instruction::{packed, unpacked, CounterInstruction};

verus! {

/// Where the counter account stands in the list of accounts.
pub const COUNTER_ACCOUNT: usize = 0;

/// Where the account that pays for a new counter account stands.
pub const PAYER_ACCOUNT: usize = 1;

/// Where the system program, which creates accounts, stands.
pub const SYSTEM_PROGRAM_ACCOUNT: usize = 2;

/// What incrementing does, given the accounts of the instruction: the new
/// count, or why nothing was done. The counter account comes first. It must be
/// owned by the program, must not have been closed, and must hold a counter.
pub open spec fn increment_result(program_id: Address, accounts: Seq<AccountView>) -> Result<
    u64,
    CounterError,
> {
    if accounts.len() <= COUNTER_ACCOUNT {
        Err(CounterError::NotEnoughAccountKeys)
    } else if accounts[COUNTER_ACCOUNT as int].owner != program_id
        || accounts[COUNTER_ACCOUNT as int].is_closed() {
        Err(CounterError::Unauthorized)
    } else {
        match decoded(accounts[COUNTER_ACCOUNT as int].data) {
            Ok(count) => Ok(next_count(count)),
            Err(error) => Err(error),
        }
    }
}

/// The accounts with `count` stored over the first eight bytes of the counter
/// account, and nothing else changed.
pub open spec fn with_counter_stored(accounts: Seq<AccountView>, count: u64) -> Seq<AccountView>
    recommends
        accounts.len() > COUNTER_ACCOUNT,
{
    let account = accounts[COUNTER_ACCOUNT as int];
    accounts.update(COUNTER_ACCOUNT as int, account.with_data(stored(account.data, count)))
}

/// The accounts after incrementing: the new count stored over the first eight
/// bytes of the counter account where the instruction succeeds, and nothing
/// changed where it fails.
pub open spec fn increment_accounts(program_id: Address, accounts: Seq<AccountView>) -> Seq<
    AccountView,
> {
    match increment_result(program_id, accounts) {
        Ok(count) => with_counter_stored(accounts, count),
        Err(_) => accounts,
    }
}

/// Adds one to the counter stored in the first account.
pub fn process_increment_counter(program_id: &Address, accounts: &mut Vec<Account>) -> (result:
    Result<u64, CounterError>)
    ensures
        result == increment_result(*program_id, views(old(accounts)@)),
        views(final(accounts)@) == increment_accounts(*program_id, views(old(accounts)@)),
        final(accounts)@.len() == old(accounts)@.len(),
{
    if accounts.len() <= COUNTER_ACCOUNT {
        return Err(CounterError::NotEnoughAccountKeys);
    }
    if !accounts[COUNTER_ACCOUNT].owner.same_as(program_id) || accounts[COUNTER_ACCOUNT].lamports
        == 0 {
        return Err(CounterError::Unauthorized);
    }
    let counter = match CounterAccount::decode(accounts[COUNTER_ACCOUNT].data.as_slice()) {
        Ok(counter) => counter,
        Err(error) => { return Err(error); },
    };
    let next = counter.incremented();
    match next.store(&mut accounts[COUNTER_ACCOUNT].data) {
        Ok(_) => {},
        Err(error) => { return Err(error); },
    }
    assert(views(accounts@) =~= increment_accounts(*program_id, views(old(accounts)@)));
    Ok(next.count())
}

/// A result as contracts speak of it: the step by its view, the error as it is.
pub open spec fn step_view(result: Result<Step, CounterError>) -> Result<StepView, CounterError> {
    match result {
        Ok(step) => Ok(step@),
        Err(error) => Err(error),
    }
}

/// Whether the accounts allow a counter account to be created. The list names
/// the new counter account, the account that pays, and the system program, in
/// that order. The payer must have signed, and the counter account must be
/// fresh: an address in use cannot be created again.
pub open spec fn initialize_check(accounts: Seq<AccountView>) -> Result<(), CounterError> {
    if accounts.len() <= SYSTEM_PROGRAM_ACCOUNT {
        Err(CounterError::NotEnoughAccountKeys)
    } else if !accounts[PAYER_ACCOUNT as int].is_signer {
        Err(CounterError::Unauthorized)
    } else if !accounts[COUNTER_ACCOUNT as int].is_fresh() {
        Err(CounterError::AccountCreationFailed)
    } else {
        Ok(())
    }
}

/// How initializing begins: with a question to the host for the least balance
/// of an account that holds a counter, where the accounts allow it.
pub open spec fn initialize_result(accounts: Seq<AccountView>, initial_value: u64) -> Result<
    StepView,
    CounterError,
> {
    match initialize_check(accounts) {
        Ok(_) => Ok(
            StepView::Ask(
                PendingView::MinimumBalance { space: COUNTER_SIZE as u64, initial_value },
            ),
        ),
        Err(error) => Err(error),
    }
}

/// Checks the accounts of an initialization.
fn check_initialize(accounts: &Vec<Account>) -> (result: Result<(), CounterError>)
    ensures
        result == initialize_check(views(accounts@)),
{
    if accounts.len() <= SYSTEM_PROGRAM_ACCOUNT {
        Err(CounterError::NotEnoughAccountKeys)
    } else if !accounts[PAYER_ACCOUNT].is_signer {
        Err(CounterError::Unauthorized)
    } else if accounts[COUNTER_ACCOUNT].lamports != 0 || accounts[COUNTER_ACCOUNT].data.len() != 0 {
        Err(CounterError::AccountCreationFailed)
    } else {
        Ok(())
    }
}

/// Begins the creation of a counter account that is to hold `initial_value`.
/// Nothing is changed yet: the host is first asked what balance the account
/// needs.
pub fn process_initialize_counter(accounts: &Vec<Account>, initial_value: u64) -> (result: Result<
    Step,
    CounterError,
>)
    ensures
        step_view(result) == initialize_result(views(accounts@), initial_value),
{
    match check_initialize(accounts) {
        Ok(_) => Ok(Step::Ask(Pending::MinimumBalance { space: COUNTER_SIZE as u64, initial_value })),
        Err(error) => Err(error),
    }
}

/// How an unfinished instruction goes on when the host has answered.
///
/// With the least balance known, the host is asked to create the counter
/// account with that balance and the space asked about, owned by the program
/// and paid for by the second account; the accounts are checked once more
/// before that. With the account created, it must belong to the program and
/// have room for a counter, and the initial value is stored in it. A host that
/// failed, or an answer to another question, ends the instruction.
pub open spec fn resume_result(
    program_id: Address,
    accounts: Seq<AccountView>,
    pending: PendingView,
    reply: HostReply,
) -> Result<StepView, CounterError> {
    match (pending, reply) {
        (
            PendingView::MinimumBalance { space, initial_value },
            HostReply::MinimumBalance(lamports),
        ) => match initialize_check(accounts) {
            Ok(_) => Ok(
                StepView::Ask(
                    PendingView::CreateAccount {
                        instruction: create_account_instruction(
                            accounts[PAYER_ACCOUNT as int].key,
                            accounts[COUNTER_ACCOUNT as int].key,
                            lamports,
                            space,
                            program_id,
                        ),
                        initial_value,
                    },
                ),
            ),
            Err(error) => Err(error),
        },
        (PendingView::CreateAccount { instruction, initial_value }, HostReply::Created) => {
            if accounts.len() <= SYSTEM_PROGRAM_ACCOUNT {
                Err(CounterError::NotEnoughAccountKeys)
            } else if accounts[COUNTER_ACCOUNT as int].owner != program_id {
                Err(CounterError::Unauthorized)
            } else if accounts[COUNTER_ACCOUNT as int].data.len() < COUNTER_SIZE {
                Err(CounterError::CorruptState)
            } else {
                Ok(StepView::Finished(Outcome::Initialized { initial_value }))
            }
        },
        _ => Err(CounterError::AccountCreationFailed),
    }
}

/// The accounts after an unfinished instruction has gone on: the initial value
/// stored over the first eight bytes of the counter account where that ends the
/// instruction, and nothing changed otherwise.
pub open spec fn resume_accounts(
    program_id: Address,
    accounts: Seq<AccountView>,
    pending: PendingView,
    reply: HostReply,
) -> Seq<AccountView> {
    match resume_result(program_id, accounts, pending, reply) {
        Ok(StepView::Finished(Outcome::Initialized { initial_value })) => with_counter_stored(
            accounts,
            initial_value,
        ),
        _ => accounts,
    }
}

/// Goes on with an unfinished instruction. `pending` is what the last step
/// asked, `reply` is what the host answered, and `accounts` are the accounts of
/// the instruction as they stand after the host has done its part.
pub fn resume_instruction(
    program_id: &Address,
    accounts: &mut Vec<Account>,
    pending: Pending,
    reply: HostReply,
) -> (result: Result<Step, CounterError>)
    ensures
        step_view(result) == resume_result(*program_id, views(old(accounts)@), pending@, reply),
        views(final(accounts)@) == resume_accounts(
            *program_id,
            views(old(accounts)@),
            pending@,
            reply,
        ),
        final(accounts)@.len() == old(accounts)@.len(),
{
    match pending {
        Pending::MinimumBalance { space, initial_value } => match reply {
            HostReply::MinimumBalance(lamports) => {
                match check_initialize(accounts) {
                    Ok(_) => {},
                    Err(error) => { return Err(error); },
                }
                let instruction = system_create_account(
                    &accounts[PAYER_ACCOUNT].key,
                    &accounts[COUNTER_ACCOUNT].key,
                    lamports,
                    space,
                    program_id,
                );
                Ok(Step::Ask(Pending::CreateAccount { instruction, initial_value }))
            },
            _ => Err(CounterError::AccountCreationFailed),
        },
        Pending::CreateAccount { instruction: _, initial_value } => match reply {
            HostReply::Created => {
                if accounts.len() <= SYSTEM_PROGRAM_ACCOUNT {
                    return Err(CounterError::NotEnoughAccountKeys);
                }
                if !accounts[COUNTER_ACCOUNT].owner.same_as(program_id) {
                    return Err(CounterError::Unauthorized);
                }
                match CounterAccount::new(initial_value).store(&mut accounts[COUNTER_ACCOUNT].data) {
                    Ok(_) => {},
                    Err(error) => { return Err(error); },
                }
                assert(views(accounts@) =~= resume_accounts(
                    *program_id,
                    views(old(accounts)@),
                    pending@,
                    reply,
                ));
                Ok(Step::Finished(Outcome::Initialized { initial_value }))
            },
            _ => Err(CounterError::AccountCreationFailed),
        },
    }
}

/// What an instruction does when it arrives: it is decoded, and then either
/// the counter is incremented at once or the creation of the counter account
/// begins.
pub open spec fn process_result(
    program_id: Address,
    accounts: Seq<AccountView>,
    instruction_data: Seq<u8>,
) -> Result<StepView, CounterError> {
    match unpacked(instruction_data) {
        Ok(CounterInstruction::InitializeCounter { initial_value }) => initialize_result(
            accounts,
            initial_value,
        ),
        Ok(CounterInstruction::IncrementCounter) => match increment_result(program_id, accounts) {
            Ok(count) => Ok(StepView::Finished(Outcome::Incremented { count })),
            Err(error) => Err(error),
        },
        Err(error) => Err(error),
    }
}

/// The accounts after an instruction has arrived: changed by an increment that
/// succeeds, and by nothing else.
pub open spec fn process_accounts(
    program_id: Address,
    accounts: Seq<AccountView>,
    instruction_data: Seq<u8>,
) -> Seq<AccountView> {
    match unpacked(instruction_data) {
        Ok(CounterInstruction::IncrementCounter) => increment_accounts(program_id, accounts),
        _ => accounts,
    }
}

/// The entry point: decodes the instruction that the host hands over and
/// carries it out as far as it can without the host. An increment is finished
/// when this returns. An initialization comes back as a question to the host,
/// and goes on in `resume_instruction`.
pub fn process_instruction(
    program_id: &Address,
    accounts: &mut Vec<Account>,
    instruction_data: &[u8],
) -> (result: Result<Step, CounterError>)
    ensures
        step_view(result) == process_result(
            *program_id,
            views(old(accounts)@),
            instruction_data@,
        ),
        views(final(accounts)@) == process_accounts(
            *program_id,
            views(old(accounts)@),
            instruction_data@,
        ),
        final(accounts)@.len() == old(accounts)@.len(),
{
    let instruction = match CounterInstruction::unpack(instruction_data) {
        Ok(instruction) => instruction,
        Err(error) => { return Err(error); },
    };
    match instruction {
        CounterInstruction::InitializeCounter { initial_value } => process_initialize_counter(
            accounts,
            initial_value,
        ),
        CounterInstruction::IncrementCounter => match process_increment_counter(
            program_id,
            accounts,
        ) {
            Ok(count) => Ok(Step::Finished(Outcome::Incremented { count })),
            Err(error) => Err(error),
        },
    }
}

/// An instruction that fails changes nothing, at its arrival and at every
/// later step.
pub proof fn lemma_failure_changes_nothing(
    program_id: Address,
    accounts: Seq<AccountView>,
    instruction_data: Seq<u8>,
    pending: PendingView,
    reply: HostReply,
)
    ensures
        process_result(program_id, accounts, instruction_data) is Err ==> process_accounts(
            program_id,
            accounts,
            instruction_data,
        ) == accounts,
        resume_result(program_id, accounts, pending, reply) is Err ==> resume_accounts(
            program_id,
            accounts,
            pending,
            reply,
        ) == accounts,
{
}

/// No step changes anything but the data of the first account: the list keeps
/// its length, every other account stays as it was, and the first keeps its
/// address, owner, balance and flags and the length of its data.
pub proof fn lemma_only_counter_data_changes(
    program_id: Address,
    accounts: Seq<AccountView>,
    instruction_data: Seq<u8>,
    pending: PendingView,
    reply: HostReply,
)
    ensures
        ({
            let after = process_accounts(program_id, accounts, instruction_data);
            &&& after.len() == accounts.len()
            &&& forall|i: int| 1 <= i < accounts.len() ==> after[i] == accounts[i]
            &&& accounts.len() > 0 ==> after[0] == accounts[0].with_data(after[0].data)
                && after[0].data.len() == accounts[0].data.len()
        }),
        ({
            let after = resume_accounts(program_id, accounts, pending, reply);
            &&& after.len() == accounts.len()
            &&& forall|i: int| 1 <= i < accounts.len() ==> after[i] == accounts[i]
            &&& accounts.len() > 0 ==> after[0] == accounts[0].with_data(after[0].data)
                && after[0].data.len() == accounts[0].data.len()
        }),
{
}

/// An account list that allows initialization, as it stands once the host has
/// created the counter account: the first account now belongs to the program,
/// holds `lamports` and has room for exactly one counter.
pub open spec fn created(
    program_id: Address,
    accounts: Seq<AccountView>,
    lamports: u64,
) -> Seq<AccountView> {
    accounts.update(
        COUNTER_ACCOUNT as int,
        AccountView {
            owner: program_id,
            lamports,
            data: Seq::new(COUNTER_SIZE as nat, |i: int| 0u8),
            ..accounts[COUNTER_ACCOUNT as int]
        },
    )
}

/// Initializing a fresh account takes two questions to the host and leaves the
/// counter account with exactly eight bytes, the initial value in little-endian
/// order.
pub proof fn lemma_initialize_fresh_account(
    program_id: Address,
    accounts: Seq<AccountView>,
    initial_value: u64,
    lamports: u64,
)
    requires
        initialize_check(accounts) is Ok,
    ensures
        ({
            let instruction_data = packed(CounterInstruction::InitializeCounter { initial_value });
            let asked_balance = PendingView::MinimumBalance {
                space: COUNTER_SIZE as u64,
                initial_value,
            };
            let asked_creation = PendingView::CreateAccount {
                instruction: create_account_instruction(
                    accounts[PAYER_ACCOUNT as int].key,
                    accounts[COUNTER_ACCOUNT as int].key,
                    lamports,
                    COUNTER_SIZE as u64,
                    program_id,
                ),
                initial_value,
            };
            let after = resume_accounts(
                program_id,
                created(program_id, accounts, lamports),
                asked_creation,
                HostReply::Created,
            );
            &&& process_result(program_id, accounts, instruction_data) == Ok::<
                StepView,
                CounterError,
            >(StepView::Ask(asked_balance))
            &&& process_accounts(program_id, accounts, instruction_data) == accounts
            &&& resume_result(
                program_id,
                accounts,
                asked_balance,
                HostReply::MinimumBalance(lamports),
            ) == Ok::<StepView, CounterError>(StepView::Ask(asked_creation))
            &&& resume_result(
                program_id,
                created(program_id, accounts, lamports),
                asked_creation,
                HostReply::Created,
            ) == Ok::<StepView, CounterError>(
                StepView::Finished(Outcome::Initialized { initial_value }),
            )
            &&& after[0].data == le_bytes(initial_value)
            &&& decoded(after[0].data) == Ok::<u64, CounterError>(initial_value)
        }),
{
    crate::instruction::lemma_unpack_packed(
        CounterInstruction::InitializeCounter { initial_value },
    );
    let before = created(program_id, accounts, lamports);
    assert(stored(before[0].data, initial_value) =~= le_bytes(initial_value));
    lemma_decode_encode(initial_value, Seq::<u8>::empty());
    assert(le_bytes(initial_value) + Seq::<u8>::empty() =~= le_bytes(initial_value));
}

/// Incrementing a counter account of the program that holds `count` leaves it
/// holding the next count, and reports that count.
pub proof fn lemma_increment_stored_counter(
    program_id: Address,
    accounts: Seq<AccountView>,
    trailing: Seq<u8>,
)
    requires
        accounts.len() >= 1,
        accounts[0].owner == program_id,
        !accounts[0].is_closed(),
        accounts[0].data.len() >= COUNTER_SIZE,
    ensures
        ({
            let instruction_data = seq![crate::instruction::TAG_INCREMENT] + trailing;
            let count = decoded(accounts[0].data)->Ok_0;
            let after = process_accounts(program_id, accounts, instruction_data);
            &&& process_result(program_id, accounts, instruction_data) == Ok::<
                StepView,
                CounterError,
            >(StepView::Finished(Outcome::Incremented { count: next_count(count) }))
            &&& decoded(after[0].data) == Ok::<u64, CounterError>(next_count(count))
            &&& after[0].data.len() == accounts[0].data.len()
        }),
{
    let count = decoded(accounts[0].data)->Ok_0;
    lemma_decode_stored(accounts[0].data, next_count(count));
}

/// Incrementing an account that the program does not own fails as
/// unauthorized and changes nothing.
pub proof fn lemma_increment_foreign_account(
    program_id: Address,
    accounts: Seq<AccountView>,
    trailing: Seq<u8>,
)
    requires
        accounts.len() >= 1,
        accounts[0].owner != program_id,
    ensures
        ({
            let instruction_data = seq![crate::instruction::TAG_INCREMENT] + trailing;
            &&& process_result(program_id, accounts, instruction_data) == Err::<
                StepView,
                CounterError,
            >(CounterError::Unauthorized)
            &&& process_accounts(program_id, accounts, instruction_data) == accounts
        }),
{
}

/// Initializing a fresh account and then incrementing once leaves the counter
/// account with exactly eight bytes, the count that follows the initial value.
pub proof fn lemma_initialize_then_increment(
    program_id: Address,
    accounts: Seq<AccountView>,
    initial_value: u64,
    lamports: u64,
    trailing: Seq<u8>,
)
    requires
        initialize_check(accounts) is Ok,
        lamports != 0,
    ensures
        ({
            let initialized = resume_accounts(
                program_id,
                created(program_id, accounts, lamports),
                PendingView::CreateAccount {
                    instruction: create_account_instruction(
                        accounts[PAYER_ACCOUNT as int].key,
                        accounts[COUNTER_ACCOUNT as int].key,
                        lamports,
                        COUNTER_SIZE as u64,
                        program_id,
                    ),
                    initial_value,
                },
                HostReply::Created,
            );
            let instruction_data = seq![crate::instruction::TAG_INCREMENT] + trailing;
            let after = process_accounts(program_id, initialized, instruction_data);
            &&& process_result(program_id, initialized, instruction_data) == Ok::<
                StepView,
                CounterError,
            >(StepView::Finished(Outcome::Incremented { count: next_count(initial_value) }))
            &&& after[COUNTER_ACCOUNT as int].data == le_bytes(next_count(initial_value))
        }),
{
    lemma_initialize_fresh_account(program_id, accounts, initial_value, lamports);
    let before = created(program_id, accounts, lamports);
    let initialized = with_counter_stored(before, initial_value);
    assert(initialized[COUNTER_ACCOUNT as int].data =~= le_bytes(initial_value));
    assert(stored(le_bytes(initial_value), next_count(initial_value)) =~= le_bytes(
        next_count(initial_value),
    ));
}

} // verus!
