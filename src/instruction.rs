//! The three instructions, their byte layout, and the state transitions they
//! make on a memo account's bytes.

use vstd::prelude::*;
use crate::codec::{announced_len, leading_string, read_string, starts_with_string};
use crate::error::{memo_failure, MemoError, ProgramError};
use crate::state::{content_len, lemma_memo_round_trip, memo_bytes, parse_memo, Memo, MemoModel, Pubkey};

verus! {

/// An operation that a caller asks of the program.
#[derive(Clone, Debug)]
pub enum MemoInstruction {
    /// Store a new memo with this content, owned by the caller.
    Create { content: String },
    /// Replace the content of the caller's memo.
    Update { content: String },
    /// Remove the caller's memo.
    Delete,
}

/// An instruction, as values.
pub ghost enum InstructionModel {
    Create(Seq<char>),
    Update(Seq<char>),
    Delete,
}

impl View for MemoInstruction {
    type V = InstructionModel;

    open spec fn view(&self) -> InstructionModel {
        match self {
            MemoInstruction::Create { content } => InstructionModel::Create(content@),
            MemoInstruction::Update { content } => InstructionModel::Update(content@),
            MemoInstruction::Delete => InstructionModel::Delete,
        }
    }
}

/// The bytes after the tag hold exactly one length-prefixed string.
pub open spec fn is_string_payload(s: Seq<u8>) -> bool {
    let rest = s.subrange(1, s.len() as int);
    starts_with_string(rest) && rest.len() == 4 + announced_len(rest)
}

/// The instruction that the bytes `s` hold: a tag byte (0 create, 1 update,
/// 2 delete), then for create and update the content as a length-prefixed
/// string, and nothing else.
pub open spec fn parse_instruction(s: Seq<u8>) -> Option<InstructionModel> {
    if s.len() == 0 {
        None
    } else if s[0] == 0 && is_string_payload(s) {
        Some(InstructionModel::Create(leading_string(s.subrange(1, s.len() as int))))
    } else if s[0] == 1 && is_string_payload(s) {
        Some(InstructionModel::Update(leading_string(s.subrange(1, s.len() as int))))
    } else if s[0] == 2 && s.len() == 1 {
        Some(InstructionModel::Delete)
    } else {
        None
    }
}

impl MemoInstruction {
    /// Decodes an instruction; any other bytes are `InvalidInstructionData`.
    pub fn unpack(data: &[u8]) -> (r: Result<MemoInstruction, ProgramError>)
        ensures
            match r {
                Ok(ins) => parse_instruction(data@) == Some(ins@),
                Err(e) => parse_instruction(data@) is None && e == ProgramError::InvalidInstructionData,
            },
    {
        let len: usize = data.len();
        if len == 0 {
            return Err(ProgramError::InvalidInstructionData);
        }
        let tag = data[0];
        if tag == 2 {
            if len == 1 {
                return Ok(MemoInstruction::Delete);
            }
            return Err(ProgramError::InvalidInstructionData);
        }
        if tag > 2 {
            return Err(ProgramError::InvalidInstructionData);
        }
        match read_string(data, 1) {
            Some((content, end)) => {
                if end != len {
                    return Err(ProgramError::InvalidInstructionData);
                }
                if tag == 0 {
                    Ok(MemoInstruction::Create { content })
                } else {
                    Ok(MemoInstruction::Update { content })
                }
            },
            None => Err(ProgramError::InvalidInstructionData),
        }
    }
}

/// What the host runtime tells the program about a call, besides the
/// instruction and the memo account's bytes.
#[derive(Clone, Copy, Debug)]
pub struct Context {
    /// The identity that authorized the call.
    pub caller: Pubkey,
    /// The caller's funds.
    pub caller_balance: u64,
    /// The funds that storing a memo costs.
    pub required_balance: u64,
    /// The current chain time, in seconds since the Unix epoch.
    pub now: i64,
    /// The ceiling on the number of content bytes.
    pub max_memo_size: usize,
}

impl Context {
    /// The ceiling fits the four-byte length prefix of the stored content.
    pub open spec fn wf(&self) -> bool {
        self.max_memo_size <= u32::MAX
    }
}

/// The new bytes of the account after a create, or the failure.
pub open spec fn create_outcome(ctx: Context, data: Seq<u8>, content: Seq<char>) -> Result<
    Seq<u8>,
    ProgramError,
> {
    if content_len(content) > ctx.max_memo_size {
        Err(memo_failure(MemoError::ExceedMaxMemoLen))
    } else if parse_memo(data) is Some {
        Err(ProgramError::AccountAlreadyInitialized)
    } else if ctx.caller_balance < ctx.required_balance {
        Err(memo_failure(MemoError::InsufficientBalance))
    } else {
        Ok(memo_bytes(MemoModel { owner: ctx.caller@, content, timestamp: ctx.now }))
    }
}

/// The new bytes of the account after an update, or the failure.
pub open spec fn update_outcome(ctx: Context, data: Seq<u8>, content: Seq<char>) -> Result<
    Seq<u8>,
    ProgramError,
> {
    if content_len(content) > ctx.max_memo_size {
        Err(memo_failure(MemoError::ExceedMaxMemoLen))
    } else {
        match parse_memo(data) {
            Some(m) => if m.owner == ctx.caller@ {
                Ok(memo_bytes(MemoModel { content, timestamp: ctx.now, ..m }))
            } else {
                Err(memo_failure(MemoError::OwnershipMismatch))
            },
            None => Err(memo_failure(MemoError::OwnershipMismatch)),
        }
    }
}

/// The new bytes of the account after a delete, or the failure.
pub open spec fn delete_outcome(ctx: Context, data: Seq<u8>) -> Result<Seq<u8>, ProgramError> {
    match parse_memo(data) {
        Some(m) => if m.owner == ctx.caller@ {
            Ok(Seq::empty())
        } else {
            Err(memo_failure(MemoError::OwnershipMismatch))
        },
        None => Err(memo_failure(MemoError::OwnershipMismatch)),
    }
}

/// The account bytes after a call with this outcome: the new bytes on
/// success, the old ones on failure.
pub open spec fn bytes_after(old_data: Seq<u8>, outcome: Result<Seq<u8>, ProgramError>) -> Seq<u8> {
    match outcome {
        Ok(b) => b,
        Err(_) => old_data,
    }
}

/// Success or the failure of an outcome, without the new bytes.
pub open spec fn status_of(outcome: Result<Seq<u8>, ProgramError>) -> Result<(), ProgramError> {
    match outcome {
        Ok(_) => Ok(()),
        Err(e) => Err(e),
    }
}

fn content_size(content: &String) -> (r: usize)
    ensures
        r == content_len(content@),
{
    content.as_str().as_bytes().len()
}

/// Stores a new memo owned by the caller in an account that holds none.
pub fn create_memo(ctx: &Context, data: &mut Vec<u8>, content: String) -> (r: Result<
    (),
    ProgramError,
>)
    requires
        ctx.wf(),
    ensures
        r == status_of(create_outcome(*ctx, old(data)@, content@)),
        final(data)@ == bytes_after(old(data)@, create_outcome(*ctx, old(data)@, content@)),
        content_len(content@) <= ctx.max_memo_size && parse_memo(old(data)@) is None
            && ctx.caller_balance >= ctx.required_balance ==> r is Ok && parse_memo(final(data)@)
            == Some(MemoModel { owner: ctx.caller@, content: content@, timestamp: ctx.now }),
        content_len(content@) > ctx.max_memo_size ==> r == Err::<(), ProgramError>(
            memo_failure(MemoError::ExceedMaxMemoLen),
        ) && final(data)@ == old(data)@,
{
    if content_size(&content) > ctx.max_memo_size {
        return Err(ProgramError::from(MemoError::ExceedMaxMemoLen));
    }
    if Memo::decode(data.as_slice()).is_some() {
        return Err(ProgramError::AccountAlreadyInitialized);
    }
    if ctx.caller_balance < ctx.required_balance {
        return Err(ProgramError::from(MemoError::InsufficientBalance));
    }
    let memo = Memo { owner: ctx.caller, content, timestamp: ctx.now };
    *data = memo.encode();
    proof {
        lemma_memo_round_trip(memo@);
    }
    Ok(())
}

/// Replaces the content of the caller's memo and stamps it with the current
/// time; the owner stays.
pub fn update_memo(ctx: &Context, data: &mut Vec<u8>, content: String) -> (r: Result<
    (),
    ProgramError,
>)
    requires
        ctx.wf(),
    ensures
        r == status_of(update_outcome(*ctx, old(data)@, content@)),
        final(data)@ == bytes_after(old(data)@, update_outcome(*ctx, old(data)@, content@)),
        content_len(content@) > ctx.max_memo_size ==> r == Err::<(), ProgramError>(
            memo_failure(MemoError::ExceedMaxMemoLen),
        ) && final(data)@ == old(data)@,
        content_len(content@) <= ctx.max_memo_size && (parse_memo(old(data)@) is None
            || parse_memo(old(data)@).unwrap().owner != ctx.caller@) ==> r == Err::<
            (),
            ProgramError,
        >(memo_failure(MemoError::OwnershipMismatch)) && final(data)@ == old(data)@,
        r is Ok ==> parse_memo(final(data)@) == Some(
            MemoModel {
                owner: parse_memo(old(data)@).unwrap().owner,
                content: content@,
                timestamp: ctx.now,
            },
        ),
{
    if content_size(&content) > ctx.max_memo_size {
        return Err(ProgramError::from(MemoError::ExceedMaxMemoLen));
    }
    let memo = match Memo::decode(data.as_slice()) {
        Some(m) => m,
        None => return Err(ProgramError::from(MemoError::OwnershipMismatch)),
    };
    if !(memo.owner == ctx.caller) {
        return Err(ProgramError::from(MemoError::OwnershipMismatch));
    }
    let updated = Memo { owner: memo.owner, content, timestamp: ctx.now };
    *data = updated.encode();
    proof {
        assert(memo.owner@.len() == 32);
        lemma_memo_round_trip(updated@);
    }
    Ok(())
}

/// Removes the caller's memo: the account's bytes are cleared.
pub fn delete_memo(ctx: &Context, data: &mut Vec<u8>) -> (r: Result<(), ProgramError>)
    ensures
        r == status_of(delete_outcome(*ctx, old(data)@)),
        final(data)@ == bytes_after(old(data)@, delete_outcome(*ctx, old(data)@)),
        parse_memo(old(data)@) is None || parse_memo(old(data)@).unwrap().owner != ctx.caller@
            ==> r == Err::<(), ProgramError>(memo_failure(MemoError::OwnershipMismatch))
            && final(data)@ == old(data)@,
        r is Ok ==> parse_memo(final(data)@) is None,
{
    let memo = match Memo::decode(data.as_slice()) {
        Some(m) => m,
        None => return Err(ProgramError::from(MemoError::OwnershipMismatch)),
    };
    if !(memo.owner == ctx.caller) {
        return Err(ProgramError::from(MemoError::OwnershipMismatch));
    }
    *data = Vec::new();
    Ok(())
}

/// Updating a memo twice in a row with the same content, as its owner, leaves
/// the same content as updating it once, and with a clock that does not go
/// back the timestamp does not go back either. Where the content fits the
/// ceiling both updates succeed.
pub proof fn lemma_update_twice(first: Context, second: Context, data: Seq<u8>, content: Seq<char>)
    requires
        first.wf(),
        second.wf(),
        first.caller@ == second.caller@,
        first.max_memo_size == second.max_memo_size,
        parse_memo(data) is Some,
        parse_memo(data).unwrap().owner == first.caller@,
        first.now <= second.now,
    ensures
        ({
            let once = bytes_after(data, update_outcome(first, data, content));
            let twice = bytes_after(once, update_outcome(second, once, content));
            &&& parse_memo(once) is Some
            &&& parse_memo(twice) is Some
            &&& parse_memo(twice).unwrap().content == parse_memo(once).unwrap().content
            &&& parse_memo(twice).unwrap().owner == parse_memo(data).unwrap().owner
            &&& parse_memo(once).unwrap().timestamp <= parse_memo(twice).unwrap().timestamp
            &&& content_len(content) <= first.max_memo_size ==> update_outcome(first, data, content) is Ok
                && update_outcome(second, once, content) is Ok && parse_memo(twice).unwrap().content
                == content
        }),
{
    let m = parse_memo(data).unwrap();
    let once = bytes_after(data, update_outcome(first, data, content));
    let fits_first = content_len(content) <= first.max_memo_size;
    let m1 = MemoModel { content, timestamp: first.now, ..m };
    if fits_first {
        lemma_memo_round_trip(m1);
        assert(parse_memo(once) == Some(m1));
    } else {
        assert(once == data);
    }
    let p1 = parse_memo(once).unwrap();
    let m2 = MemoModel { content, timestamp: second.now, ..p1 };
    if fits_first {
        assert(p1.owner == m.owner);
        lemma_memo_round_trip(m2);
    }
}

} // verus!
