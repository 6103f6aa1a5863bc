use memo_program::error::{MemoError, ProgramError};
use memo_program::instruction::{create_memo, delete_memo, update_memo, Context, MemoInstruction};
use memo_program::processor::{process_instruction, Account};
use memo_program::state::{Memo, Pubkey, MAX_MEMO_SIZE, MAX_MEMO_ACCOUNT_SIZE};

const PROGRAM: Pubkey = Pubkey([9u8; 32]);
const OWNER_A: Pubkey = Pubkey([1u8; 32]);
const OWNER_B: Pubkey = Pubkey([2u8; 32]);
const T0: i64 = 1_700_000_000;

fn ctx(caller: Pubkey, now: i64) -> Context {
    Context {
        caller,
        caller_balance: 1_000_000,
        required_balance: 5_000,
        now,
        max_memo_size: MAX_MEMO_SIZE,
    }
}

fn create_bytes(content: &str) -> Vec<u8> {
    borsh::to_vec(&(0u8, content.to_string())).unwrap()
}

fn update_bytes(content: &str) -> Vec<u8> {
    borsh::to_vec(&(1u8, content.to_string())).unwrap()
}

fn delete_bytes() -> Vec<u8> {
    vec![2u8]
}

fn accounts(caller: Pubkey, lamports: u64, data: Vec<u8>) -> Vec<Account> {
    vec![
        Account { key: caller, owner: Pubkey([0u8; 32]), is_signer: true, lamports, data: Vec::new() },
        Account { key: Pubkey([7u8; 32]), owner: PROGRAM, is_signer: false, lamports: 0, data },
    ]
}

fn stored(data: &[u8]) -> Option<Memo> {
    Memo::decode(data)
}

#[test]
fn create_hello_stores_memo() {
    let mut accs = accounts(OWNER_A, 1_000_000, Vec::new());
    let r = process_instruction(&PROGRAM, &mut accs, &create_bytes("hello"), T0, 5_000);
    assert_eq!(r, Ok(()));
    let m = stored(&accs[1].data).unwrap();
    assert_eq!(m.owner, OWNER_A);
    assert_eq!(m.content, "hello");
    assert_eq!(m.timestamp, T0);
    assert_eq!(accs[1].data.len(), 32 + 4 + 5 + 8);
}

#[test]
fn update_by_other_owner_is_rejected() {
    let mut accs = accounts(OWNER_A, 1_000_000, Vec::new());
    process_instruction(&PROGRAM, &mut accs, &create_bytes("hello"), T0, 5_000).unwrap();
    let before = accs[1].data.clone();
    accs[0].key = OWNER_B;
    let r = process_instruction(&PROGRAM, &mut accs, &update_bytes("stolen"), T0 + 5, 5_000);
    assert_eq!(r, Err(ProgramError::Custom(1)));
    assert_eq!(accs[1].data, before);
    let r = process_instruction(&PROGRAM, &mut accs, &delete_bytes(), T0 + 5, 5_000);
    assert_eq!(r, Err(ProgramError::Custom(1)));
    assert_eq!(accs[1].data, before);
}

#[test]
fn create_with_201_bytes_is_rejected() {
    let content = "x".repeat(201);
    let mut accs = accounts(OWNER_A, 1_000_000, Vec::new());
    let r = process_instruction(&PROGRAM, &mut accs, &create_bytes(&content), T0, 5_000);
    assert_eq!(r, Err(ProgramError::Custom(2)));
    assert!(accs[1].data.is_empty());
    assert!(stored(&accs[1].data).is_none());
}

#[test]
fn create_with_exactly_200_bytes_succeeds() {
    let content = "y".repeat(200);
    let mut accs = accounts(OWNER_A, 1_000_000, Vec::new());
    let r = process_instruction(&PROGRAM, &mut accs, &create_bytes(&content), T0, 5_000);
    assert_eq!(r, Ok(()));
    assert_eq!(accs[1].data.len(), MAX_MEMO_ACCOUNT_SIZE);
    assert_eq!(stored(&accs[1].data).unwrap().content, content);
}

#[test]
fn delete_then_update_fails() {
    let mut accs = accounts(OWNER_A, 1_000_000, Vec::new());
    process_instruction(&PROGRAM, &mut accs, &create_bytes("hello"), T0, 5_000).unwrap();
    let r = process_instruction(&PROGRAM, &mut accs, &delete_bytes(), T0 + 1, 5_000);
    assert_eq!(r, Ok(()));
    assert!(accs[1].data.is_empty());
    assert!(stored(&accs[1].data).is_none());
    let r = process_instruction(&PROGRAM, &mut accs, &update_bytes("again"), T0 + 2, 5_000);
    assert_eq!(r, Err(ProgramError::Custom(1)));
    assert!(accs[1].data.is_empty());
}

#[test]
fn update_by_owner_replaces_content_and_time() {
    let mut accs = accounts(OWNER_A, 1_000_000, Vec::new());
    process_instruction(&PROGRAM, &mut accs, &create_bytes("hello"), T0, 5_000).unwrap();
    let r = process_instruction(&PROGRAM, &mut accs, &update_bytes("héllo wörld"), T0 + 60, 5_000);
    assert_eq!(r, Ok(()));
    let m = stored(&accs[1].data).unwrap();
    assert_eq!(m.owner, OWNER_A);
    assert_eq!(m.content, "héllo wörld");
    assert_eq!(m.timestamp, T0 + 60);
}

#[test]
fn update_twice_keeps_content_and_time_moves_forward() {
    let mut data = Vec::new();
    create_memo(&ctx(OWNER_A, T0), &mut data, "first".to_string()).unwrap();
    update_memo(&ctx(OWNER_A, T0 + 10), &mut data, "same".to_string()).unwrap();
    let once = stored(&data).unwrap();
    update_memo(&ctx(OWNER_A, T0 + 20), &mut data, "same".to_string()).unwrap();
    let twice = stored(&data).unwrap();
    assert_eq!(once.content, "same");
    assert_eq!(twice.content, once.content);
    assert!(twice.timestamp >= once.timestamp);
    assert_eq!(twice.timestamp, T0 + 20);
}

#[test]
fn oversized_content_fails_regardless_of_owner_or_balance() {
    let long = "z".repeat(MAX_MEMO_SIZE + 1);
    let mut data = Vec::new();
    let mut poor = ctx(OWNER_B, T0);
    poor.caller_balance = 0;
    assert_eq!(
        create_memo(&poor, &mut data, long.clone()),
        Err(ProgramError::Custom(2))
    );
    create_memo(&ctx(OWNER_A, T0), &mut data, "short".to_string()).unwrap();
    let before = data.clone();
    assert_eq!(update_memo(&poor, &mut data, long.clone()), Err(ProgramError::Custom(2)));
    assert_eq!(update_memo(&ctx(OWNER_A, T0), &mut data, long), Err(ProgramError::Custom(2)));
    assert_eq!(data, before);
}

#[test]
fn multibyte_content_is_measured_in_bytes() {
    let content = "é".repeat(101);
    assert_eq!(content.len(), 202);
    let mut data = Vec::new();
    assert_eq!(
        create_memo(&ctx(OWNER_A, T0), &mut data, content),
        Err(ProgramError::Custom(2))
    );
    assert!(data.is_empty());
}

#[test]
fn ceiling_can_be_varied() {
    let mut small = ctx(OWNER_A, T0);
    small.max_memo_size = 3;
    let mut data = Vec::new();
    assert_eq!(create_memo(&small, &mut data, "four".to_string()), Err(ProgramError::Custom(2)));
    assert_eq!(create_memo(&small, &mut data, "abc".to_string()), Ok(()));
}

#[test]
fn insufficient_balance_is_rejected() {
    let mut accs = accounts(OWNER_A, 4_999, Vec::new());
    let r = process_instruction(&PROGRAM, &mut accs, &create_bytes("hello"), T0, 5_000);
    assert_eq!(r, Err(ProgramError::Custom(0)));
    assert!(accs[1].data.is_empty());
    let mut accs = accounts(OWNER_A, 5_000, Vec::new());
    let r = process_instruction(&PROGRAM, &mut accs, &create_bytes("hello"), T0, 5_000);
    assert_eq!(r, Ok(()));
}

#[test]
fn create_on_occupied_account_is_rejected() {
    let mut data = Vec::new();
    create_memo(&ctx(OWNER_A, T0), &mut data, "mine".to_string()).unwrap();
    let before = data.clone();
    assert_eq!(
        create_memo(&ctx(OWNER_B, T0), &mut data, "yours".to_string()),
        Err(ProgramError::AccountAlreadyInitialized)
    );
    assert_eq!(data, before);
}

#[test]
fn create_on_zeroed_slot_succeeds() {
    let mut data = vec![0u8; MAX_MEMO_ACCOUNT_SIZE];
    assert_eq!(create_memo(&ctx(OWNER_A, T0), &mut data, "fresh".to_string()), Ok(()));
    assert_eq!(stored(&data).unwrap().content, "fresh");
}

#[test]
fn delete_on_empty_account_is_rejected() {
    let mut data = Vec::new();
    assert_eq!(delete_memo(&ctx(OWNER_A, T0), &mut data), Err(ProgramError::Custom(1)));
}

#[test]
fn account_checks() {
    let mut one = vec![Account {
        key: OWNER_A,
        owner: Pubkey([0u8; 32]),
        is_signer: true,
        lamports: 10,
        data: Vec::new(),
    }];
    assert_eq!(
        process_instruction(&PROGRAM, &mut one, &create_bytes("a"), T0, 0),
        Err(ProgramError::NotEnoughAccountKeys)
    );
    let mut accs = accounts(OWNER_A, 1_000_000, Vec::new());
    accs[0].is_signer = false;
    assert_eq!(
        process_instruction(&PROGRAM, &mut accs, &create_bytes("a"), T0, 0),
        Err(ProgramError::MissingRequiredSignature)
    );
    let mut accs = accounts(OWNER_A, 1_000_000, Vec::new());
    accs[1].owner = OWNER_B;
    assert_eq!(
        process_instruction(&PROGRAM, &mut accs, &create_bytes("a"), T0, 0),
        Err(ProgramError::IncorrectProgramId)
    );
    assert!(accs[1].data.is_empty());
}

#[test]
fn malformed_instructions_are_invalid_data() {
    let mut accs = accounts(OWNER_A, 1_000_000, Vec::new());
    for bad in [
        vec![],
        vec![3u8],
        vec![2u8, 0],
        vec![0u8, 5, 0, 0, 0, b'h'],
        vec![0u8, 1, 0, 0, 0, 0xff],
        {
            let mut v = create_bytes("hi");
            v.push(0);
            v
        },
    ] {
        assert_eq!(
            process_instruction(&PROGRAM, &mut accs, &bad, T0, 0),
            Err(ProgramError::InvalidInstructionData)
        );
    }
}

#[test]
fn unpack_reads_each_instruction() {
    match MemoInstruction::unpack(&create_bytes("note")) {
        Ok(MemoInstruction::Create { content }) => assert_eq!(content, "note"),
        other => panic!("unexpected {:?}", other),
    }
    match MemoInstruction::unpack(&update_bytes("ünï")) {
        Ok(MemoInstruction::Update { content }) => assert_eq!(content, "ünï"),
        other => panic!("unexpected {:?}", other),
    }
    assert!(matches!(MemoInstruction::unpack(&delete_bytes()), Ok(MemoInstruction::Delete)));
}

#[test]
fn memo_round_trip() {
    for (owner, content, ts) in [
        (OWNER_A, "", 0i64),
        (OWNER_B, "hello", -1),
        (Pubkey([0xab; 32]), "日本語のメモ", i64::MIN),
        (OWNER_A, "edge", i64::MAX),
    ] {
        let m = Memo { owner, content: content.to_string(), timestamp: ts };
        let bytes = m.encode();
        let back = Memo::decode(&bytes).unwrap();
        assert_eq!(back.owner, owner);
        assert_eq!(back.content, content);
        assert_eq!(back.timestamp, ts);
    }
}

#[test]
fn memo_layout_matches_borsh() {
    let m = Memo { owner: OWNER_B, content: "hello".to_string(), timestamp: -2 };
    let expected = borsh::to_vec(&(OWNER_B.0, "hello".to_string(), -2i64)).unwrap();
    assert_eq!(m.encode(), expected);
}

#[test]
fn decode_rejects_bad_records() {
    let m = Memo { owner: OWNER_A, content: "abc".to_string(), timestamp: 5 };
    let good = m.encode();
    assert!(Memo::decode(&good[..good.len() - 1]).is_none());
    let mut longer = good.clone();
    longer.push(0);
    assert!(Memo::decode(&longer).is_none());
    let mut bad_utf8 = good.clone();
    bad_utf8[36] = 0xff;
    assert!(Memo::decode(&bad_utf8).is_none());
    assert!(Memo::decode(&[0u8; 10]).is_none());
}

#[test]
fn error_codes_and_messages() {
    assert_eq!(MemoError::InsufficientBalance.code(), 0);
    assert_eq!(MemoError::OwnershipMismatch.code(), 1);
    assert_eq!(MemoError::ExceedMaxMemoLen.code(), 2);
    assert_eq!(ProgramError::from(MemoError::ExceedMaxMemoLen), ProgramError::Custom(2));
    assert_eq!(MemoError::InsufficientBalance.message(), "user balance is insufficient");
    assert_eq!(MemoError::OwnershipMismatch.message(), "user is not the owner of current memo");
    assert_eq!(MemoError::ExceedMaxMemoLen.message(), "exceed max memo length");
    assert_eq!(
        MemoError::InsufficientBalance.print_text(),
        "Error: insufficient balance for current user"
    );
    assert_eq!(MemoError::OwnershipMismatch.print_text(), "Error: user doesn't own memo");
    assert_eq!(MemoError::ExceedMaxMemoLen.print_text(), "Error: user content exceeds max limit");
}
