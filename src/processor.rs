//! The entry point of the program: decodes the instruction, checks the
//! accounts it is given, and applies the transition to the memo account.

use vstd::prelude::*;
use crate::error::ProgramError;
use crate::instruction::{
    bytes_after, create_memo, create_outcome, delete_memo, delete_outcome, parse_instruction,
    status_of, update_memo, update_outcome, Context, InstructionModel, MemoInstruction,
};
use crate::state::{Pubkey, MAX_MEMO_SIZE};

verus! {

/// An account handed to the program: its identity, the program that holds it,
/// whether it signed the call, its funds and its bytes.
#[derive(Debug)]
pub struct Account {
    pub key: Pubkey,
    pub owner: Pubkey,
    pub is_signer: bool,
    pub lamports: u64,
    pub data: Vec<u8>,
}

/// The call context that the caller's account and the host's facts make.
pub open spec fn call_context(caller: Account, now: i64, required_balance: u64) -> Context {
    Context {
        caller: caller.key,
        caller_balance: caller.lamports,
        required_balance,
        now,
        max_memo_size: MAX_MEMO_SIZE,
    }
}

/// The new bytes of the memo account after a call, or the failure. The first
/// account is the caller, who must have signed; the second is the memo
/// account, which this program must hold.
pub open spec fn process_outcome(
    program_id: Pubkey,
    accounts: Seq<Account>,
    input: Seq<u8>,
    now: i64,
    required_balance: u64,
) -> Result<Seq<u8>, ProgramError> {
    match parse_instruction(input) {
        None => Err(ProgramError::InvalidInstructionData),
        Some(ins) => if accounts.len() < 2 {
            Err(ProgramError::NotEnoughAccountKeys)
        } else if !accounts[0].is_signer {
            Err(ProgramError::MissingRequiredSignature)
        } else if accounts[1].owner@ != program_id@ {
            Err(ProgramError::IncorrectProgramId)
        } else {
            let ctx = call_context(accounts[0], now, required_balance);
            let data = accounts[1].data@;
            match ins {
                InstructionModel::Create(c) => create_outcome(ctx, data, c),
                InstructionModel::Update(c) => update_outcome(ctx, data, c),
                InstructionModel::Delete => delete_outcome(ctx, data),
            }
        },
    }
}

/// Runs one call of the program. `now` is the chain time and
/// `required_balance` the funds that storing a memo costs, both as the host
/// reports them. Only the bytes of the memo account change, and only on
/// success.
pub fn process_instruction(
    program_id: &Pubkey,
    accounts: &mut Vec<Account>,
    instruction_data: &[u8],
    now: i64,
    required_balance: u64,
) -> (r: Result<(), ProgramError>)
    ensures
        r == status_of(
            process_outcome(*program_id, old(accounts)@, instruction_data@, now, required_balance),
        ),
        final(accounts)@.len() == old(accounts)@.len(),
        forall|i: int|
            0 <= i < old(accounts)@.len() && i != 1 ==> #[trigger] final(accounts)@[i]
                == old(accounts)@[i],
        old(accounts)@.len() >= 2 ==> {
            let before = old(accounts)@[1];
            let after = final(accounts)@[1];
            &&& after.key == before.key
            &&& after.owner == before.owner
            &&& after.is_signer == before.is_signer
            &&& after.lamports == before.lamports
            &&& after.data@ == bytes_after(
                before.data@,
                process_outcome(
                    *program_id,
                    old(accounts)@,
                    instruction_data@,
                    now,
                    required_balance,
                ),
            )
        },
{
    let ins = match MemoInstruction::unpack(instruction_data) {
        Ok(ins) => ins,
        Err(e) => return Err(e),
    };
    if accounts.len() < 2 {
        return Err(ProgramError::NotEnoughAccountKeys);
    }
    if !accounts[0].is_signer {
        return Err(ProgramError::MissingRequiredSignature);
    }
    if !(accounts[1].owner == *program_id) {
        return Err(ProgramError::IncorrectProgramId);
    }
    let ctx = Context {
        caller: accounts[0].key,
        caller_balance: accounts[0].lamports,
        required_balance,
        now,
        max_memo_size: MAX_MEMO_SIZE,
    };
    match ins {
        MemoInstruction::Create { content } => create_memo(&ctx, &mut accounts[1].data, content),
        MemoInstruction::Update { content } => update_memo(&ctx, &mut accounts[1].data, content),
        MemoInstruction::Delete => delete_memo(&ctx, &mut accounts[1].data),
    }
}

} // verus!
