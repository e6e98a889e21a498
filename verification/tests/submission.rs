use cypher_liquidator::pubkey::Pubkey;
use cypher_liquidator::submission::{
    compute_budget_instruction, is_compilable, pack_instructions, AccountMeta, Instruction,
    Packed, SubmitAction, SubmitEvent, Submitter,
};

fn key(n: u8) -> Pubkey {
    Pubkey { bytes: [n; 32] }
}

fn ix(program: u8, accounts: usize, data: usize) -> Instruction {
    let meta = |i: usize| AccountMeta {
        pubkey: key(i as u8),
        is_signer: false,
        is_writable: i % 2 == 0,
    };
    Instruction {
        program_id: key(program),
        accounts: (0..accounts).map(meta).collect(),
        data: vec![program; data],
    }
}

fn pack(start: Vec<Instruction>, ixs: Vec<Instruction>) -> Vec<Vec<Instruction>> {
    pack_instructions(start, ixs, &key(250), &[7; 32]).unwrap().transactions
}

#[test]
fn budget_goes_ahead() {
    let budget = compute_budget_instruction();
    assert_eq!(budget.program_id.bytes, solana_sdk::compute_budget::id().to_bytes());
    assert!(budget.accounts.is_empty());
    assert_eq!(budget.data, vec![0, 0x20, 0xa1, 0x07, 0, 0x88, 0x13, 0, 0]);
}

#[test]
fn instructions_are_copied_whole() {
    assert_eq!(ix(200, 4, 10).clone(), ix(200, 4, 10));
}

#[test]
fn one_transaction_where_all_fit() {
    let packed = pack(vec![compute_budget_instruction()], vec![ix(200, 4, 10), ix(201, 5, 10)]);
    assert_eq!(packed, vec![vec![compute_budget_instruction(), ix(200, 4, 10), ix(201, 5, 10)]]);
    assert_eq!(pack(vec![], vec![]), vec![vec![]]);
    let alone = pack(vec![compute_budget_instruction()], vec![]);
    assert_eq!(alone, vec![vec![compute_budget_instruction()]]);
}

#[test]
fn last_instruction_is_not_measured() {
    // nothing is measured behind the last instruction, however long it is
    assert_eq!(pack(vec![], vec![ix(200, 0, 5000)]), vec![vec![ix(200, 0, 5000)]]);
    let packed = pack(vec![], vec![ix(200, 0, 5), ix(200, 0, 5000)]);
    assert_eq!(packed, vec![vec![ix(200, 0, 5), ix(200, 0, 5000)]]);
}

#[test]
fn each_instruction_is_in_one_transaction() {
    let start = || compute_budget_instruction();
    let all = || {
        vec![ix(200, 0, 100), ix(201, 0, 800), ix(202, 0, 1), ix(203, 0, 1), ix(204, 0, 1)]
    };
    // the first two are over the limit together, and so are the three behind the first
    let packed = pack(vec![start()], all());
    assert_eq!(
        packed,
        vec![
            vec![start(), ix(200, 0, 100)],
            vec![start(), ix(201, 0, 800), ix(202, 0, 1)],
            vec![start(), ix(203, 0, 1), ix(204, 0, 1)],
        ]
    );
    let carried: Vec<Instruction> =
        packed.into_iter().flat_map(|tx| tx.into_iter().skip(1)).collect();
    assert_eq!(carried, all());
}

#[test]
fn transactions_are_filled_up() {
    // three of them take 3 + 1 + 2 * 32 + 32 + 1 + 3 * 304 bytes, which is over the limit
    let packed = pack(vec![], (0..7).map(|_| ix(200, 0, 300)).collect());
    let sizes: Vec<usize> = packed.iter().map(|tx| tx.len()).collect();
    assert_eq!(sizes, vec![2, 2, 3]);
}

#[test]
fn limit_is_a_thousand_bytes() {
    // header 3, addresses 1 + 64, block hash 32, instructions 1 + 1 + 1 + 2 + data
    let fits = pack(vec![], vec![ix(200, 0, 895), ix(200, 0, 1)]);
    assert_eq!(fits, vec![vec![ix(200, 0, 895), ix(200, 0, 1)]]);
    let over = pack(vec![], vec![ix(200, 0, 896), ix(200, 0, 1)]);
    assert_eq!(over, vec![vec![ix(200, 0, 896)], vec![ix(200, 0, 1)]]);
    let start_over = pack(vec![ix(200, 0, 896)], vec![ix(200, 0, 1), ix(200, 0, 2)]);
    assert_eq!(
        start_over,
        vec![vec![ix(200, 0, 896), ix(200, 0, 1)], vec![ix(200, 0, 896), ix(200, 0, 2)]]
    );
}

#[test]
fn messages_have_a_form() {
    assert!(is_compilable(&vec![ix(200, 100, 10)], &key(250)));
    assert!(is_compilable(&vec![ix(200, 300, 10), ix(201, 300, 10)], &key(250)));
    assert!(is_compilable(&vec![ix(200, 0, 65535)], &key(250)));
    assert!(!is_compilable(&vec![ix(200, 0, 65536)], &key(250)));
    let wide = |n: u16, is_signer: bool, is_writable: bool| Instruction {
        program_id: key(250),
        accounts: (0..n)
            .map(|i| {
                let mut pubkey = key(1);
                pubkey.bytes[0] = (i / 256) as u8;
                pubkey.bytes[1] = (i % 256) as u8;
                AccountMeta { pubkey, is_signer, is_writable }
            })
            .collect(),
        data: vec![],
    };
    assert!(is_compilable(&vec![wide(254, true, false)], &key(250)));
    assert!(!is_compilable(&vec![wide(255, true, true)], &key(250)));
    assert!(is_compilable(&vec![wide(255, false, false)], &key(250)));
    assert!(!is_compilable(&vec![wide(256, false, false)], &key(250)));
    assert!(is_compilable(&vec![wide(600, false, true)], &key(250)));
    assert!(pack_instructions(vec![], vec![wide(256, false, false)], &key(250), &[7; 32]).is_none());
    // large, but of a form: measured without a panic
    let packed = pack(vec![], vec![wide(255, false, false), ix(200, 0, 1)]);
    assert_eq!(packed, vec![vec![wide(255, false, false)], vec![ix(200, 0, 1)]]);
    let packed = pack(vec![], vec![wide(600, false, true), ix(200, 0, 1)]);
    assert_eq!(packed.len(), 2);
}

#[test]
fn submitting() {
    let packed = Packed { transactions: vec![vec![ix(200, 0, 1)], vec![ix(200, 0, 2)]] };
    let (mut submitter, action) = Submitter::start(&packed);
    assert_eq!(action, SubmitAction::Submit(0));
    assert_eq!(submitter.advance::<u8>(SubmitEvent::Accepted), Ok(SubmitAction::Confirm));
    assert_eq!(submitter.advance::<u8>(SubmitEvent::Missing), Ok(SubmitAction::WaitAndConfirm));
    assert_eq!(submitter.advance::<u8>(SubmitEvent::Found), Ok(SubmitAction::Submit(1)));
    assert_eq!(submitter.advance(SubmitEvent::Refused(5)), Err(5));
    assert_eq!(submitter.advance::<u8>(SubmitEvent::Accepted), Ok(SubmitAction::Confirm));
    assert_eq!(submitter.advance::<u8>(SubmitEvent::Found), Ok(SubmitAction::Done));
    assert_eq!((submitter.next, submitter.total), (2, 2));
    let nothing = Packed { transactions: vec![] };
    assert_eq!(Submitter::start(&nothing).1, SubmitAction::Done);
}
