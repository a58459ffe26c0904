use tps_bench::ledger::LockScript;
use tps_bench::packer::{
    burn, can_explode, explode, issue, prepare, target_capacity, CandidateOutput, CellDep, DepType,
    LiveCell, OutPoint, Owner, PackError, Prepared, SecpDeps, UnsignedTransaction,
    MAX_EXPLODE_OUTPUTS,
};

fn cell(index: u32, capacity: u64) -> LiveCell {
    LiveCell { out_point: OutPoint { tx_hash: [7u8; 32], index }, capacity }
}

fn dep() -> CellDep {
    CellDep { out_point: OutPoint { tx_hash: [9u8; 32], index: 0 }, dep_type: DepType::DepGroup }
}

fn receiver(capacity: u64) -> CandidateOutput {
    CandidateOutput { capacity, owner: Owner::Receiver }
}

fn change(capacity: u64) -> CandidateOutput {
    CandidateOutput { capacity, owner: Owner::Sender }
}

fn out_total(tx: &UnsignedTransaction) -> u64 {
    tx.outputs.iter().map(|o| o.capacity).sum()
}

fn secp_lock() -> LockScript {
    LockScript { code_hash: [3u8; 32], hash_type: 1, args: vec![0u8; 20] }
}

#[test]
fn end_to_end_example() {
    let target = target_capacity(61).unwrap();
    assert_eq!(target, 121);
    let txs = explode(&vec![cell(0, 10_000)], target, 2, 0, 0, dep()).unwrap();
    assert_eq!(txs.len(), 1);
    assert_eq!(txs[0].input.capacity, 10_000);
    assert_eq!(txs[0].outputs, vec![receiver(121), receiver(121), change(9758)]);
}

#[test]
fn target_capacity_edges() {
    assert_eq!(target_capacity(1), Some(1));
    assert_eq!(target_capacity(0), None);
    assert_eq!(target_capacity(1u64 << 63), Some(u64::MAX));
    assert_eq!(target_capacity((1u64 << 63) + 1), None);
}

#[test]
fn fan_out_conserves_capacity() {
    let cells = vec![cell(0, 1000), cell(1, 250), cell(2, 777)];
    let txs = explode(&cells, 100, 17, 0, 0, dep()).unwrap();
    for tx in &txs {
        assert_eq!(out_total(tx), tx.input.capacity);
    }
    let receivers: usize = txs
        .iter()
        .map(|t| t.outputs.iter().filter(|o| o.owner == Owner::Receiver).count())
        .sum();
    assert_eq!(receivers, 17);
}

#[test]
fn fan_out_remainder_becomes_change() {
    // 150 pays for one output of 100; the 50 left returns to the sender.
    let txs = explode(&vec![cell(0, 150), cell(1, 150)], 100, 2, 0, 0, dep()).unwrap();
    assert_eq!(txs.len(), 2);
    assert_eq!(txs[0].outputs, vec![receiver(100), change(50)]);
    assert_eq!(txs[1].outputs, vec![receiver(100), change(50)]);
}

#[test]
fn fan_out_outputs_hold_target() {
    let txs = explode(&vec![cell(0, 5000), cell(1, 9999)], 121, 60, 0, 0, dep()).unwrap();
    for tx in &txs {
        for o in &tx.outputs {
            if o.owner == Owner::Receiver {
                assert_eq!(o.capacity, 121);
                assert!(o.capacity >= 61);
            }
        }
    }
}

#[test]
fn fan_out_skips_ineligible_cells() {
    let cells = vec![cell(0, 500), cell(1, 10_000), cell(2, 999)];
    assert!(!can_explode(&cells[0], 1000));
    assert!(can_explode(&cells[1], 1000));
    assert!(can_explode(&LiveCell { out_point: cells[0].out_point, capacity: 1000 }, 1000));
    let txs = explode(&cells, 100, 3, 1000, 0, dep()).unwrap();
    assert_eq!(txs.len(), 1);
    assert_eq!(txs[0].input.out_point.index, 1);
    assert!(txs.iter().all(|t| t.input.capacity >= 1000));
}

#[test]
fn fan_out_output_cap() {
    let cells = vec![cell(0, 10_000), cell(1, 10_000)];
    let txs = explode(&cells, 1, 6000, 0, 0, dep()).unwrap();
    assert_eq!(txs.len(), 2);
    assert!(txs.iter().all(|t| t.outputs.len() <= MAX_EXPLODE_OUTPUTS));
    assert_eq!(txs[0].outputs.len(), MAX_EXPLODE_OUTPUTS);
    assert_eq!(txs[0].outputs[MAX_EXPLODE_OUTPUTS - 1], change(5001));
    assert_eq!(txs[1].outputs.len(), 1002);
    assert_eq!(txs[1].outputs[1001], change(8999));
}

#[test]
fn fan_out_exact_cap_without_change() {
    let txs = explode(&vec![cell(0, 5000)], 1, 5000, 0, 0, dep()).unwrap();
    assert_eq!(txs.len(), 1);
    assert_eq!(txs[0].outputs.len(), 5000);
    assert!(txs[0].outputs.iter().all(|o| *o == receiver(1)));
}

#[test]
fn fan_out_insufficient_funds() {
    let cells = vec![cell(0, 250), cell(1, 90)];
    let r = explode(&cells, 100, 3, 50, 0, dep());
    assert_eq!(r.unwrap_err(), PackError::InsufficientFunds { unfunded: 1, shortfall: 100 });
    let none: Vec<LiveCell> = Vec::new();
    assert_eq!(explode(&none, 100, 4, 0, 0, dep()).unwrap_err(), PackError::InsufficientFunds { unfunded: 4, shortfall: 400 });
}

#[test]
fn fan_out_exactly_sufficient_leaves_no_change() {
    let cells = vec![cell(0, 300), cell(1, 40), cell(2, 200)];
    let txs = explode(&cells, 100, 5, 100, 0, dep()).unwrap();
    assert_eq!(txs.len(), 2);
    assert!(txs.iter().all(|t| t.outputs.iter().all(|o| o.owner == Owner::Receiver)));
}

#[test]
fn fan_out_zero_outputs() {
    let txs = explode(&vec![cell(0, 300)], 100, 0, 0, 0, dep()).unwrap();
    assert!(txs.is_empty());
}

#[test]
fn issue_uses_lock_minimum() {
    let lock = secp_lock();
    let cells = vec![cell(0, 1_000_000_000_000)];
    let txs = issue(&cells, &lock, &lock, 2, 0, dep()).unwrap();
    let t = 2 * 61 * 100_000_000 - 1;
    assert_eq!(txs[0].outputs, vec![receiver(t), receiver(t), change(1_000_000_000_000 - 2 * t)]);
}

#[test]
fn burn_moves_whole_cells() {
    let cells = vec![cell(0, 11), cell(1, 22), cell(2, 33)];
    let txs = burn(&cells, 2, dep());
    assert_eq!(txs.len(), 2);
    assert_eq!(txs[1].input.out_point.index, 1);
    assert_eq!(txs[1].outputs, vec![receiver(22)]);
    assert!(txs.iter().all(|t| out_total(t) == t.input.capacity));
    assert_eq!(burn(&cells, 10, dep()).len(), 3);
}

fn secp() -> SecpDeps {
    SecpDeps { code: OutPoint { tx_hash: [1u8; 32], index: 0 }, dep_group_tx_hash: [2u8; 32] }
}

#[test]
fn prepare_issues_burns_or_waits() {
    let bank = vec![cell(0, 1_000_000_000_000)];
    let alice = vec![cell(1, 5), cell(2, 6), cell(3, 7)];
    match prepare(2, &bank, &alice, &secp_lock(), &secp_lock(), 0, secp()).unwrap() {
        Prepared::Issue(txs) => {
            assert_eq!(txs.len(), 1);
            assert_eq!(txs[0].outputs.len(), 2);
            assert_eq!(txs[0].cell_dep.dep_type, DepType::DepGroup);
            assert_eq!(txs[0].cell_dep.out_point.tx_hash, [2u8; 32]);
        }
        _ => panic!("expected a fan-out"),
    }
    match prepare(1, &bank, &alice, &secp_lock(), &secp_lock(), 0, secp()).unwrap() {
        Prepared::Burn(txs) => {
            assert_eq!(txs.len(), 1);
            assert_eq!(txs[0].input.capacity, 5);
            assert_eq!(txs[0].cell_dep.dep_type, DepType::Code);
        }
        _ => panic!("expected a consolidation"),
    }
    let four = vec![cell(1, 5), cell(2, 6), cell(3, 7), cell(4, 8)];
    assert!(matches!(prepare(2, &bank, &four, &secp_lock(), &secp_lock(), 0, secp()).unwrap(), Prepared::Ready));
    assert_eq!(prepare(usize::MAX, &bank, &alice, &secp_lock(), &secp_lock(), 0, secp()).unwrap_err(), PackError::CountOverflow);
    let poor = vec![cell(0, 10)];
    assert!(matches!(
        prepare(5, &poor, &alice, &secp_lock(), &secp_lock(), 0, secp()),
        Err(PackError::InsufficientFunds { unfunded: 7, .. })
    ));
}

#[test]
fn change_respects_sender_minimum() {
    // 250 pays for two outputs of 100 but would leave 50, below the 60 a
    // change cell needs: one output is given back and 150 returns.
    let txs = explode(&vec![cell(0, 250)], 100, 2, 0, 60, dep());
    assert_eq!(txs.unwrap_err(), PackError::InsufficientFunds { unfunded: 1, shortfall: 100 });
    let txs = explode(&vec![cell(0, 250), cell(1, 260)], 100, 3, 0, 60, dep()).unwrap();
    assert_eq!(txs[0].outputs, vec![receiver(100), change(150)]);
    assert_eq!(txs[1].outputs, vec![receiver(100), receiver(100), change(60)]);
    // Two cells of 150 can each leave only 50: neither is spent.
    let r = explode(&vec![cell(0, 150), cell(1, 150)], 100, 2, 0, 60, dep());
    assert_eq!(r.unwrap_err(), PackError::InsufficientFunds { unfunded: 2, shortfall: 200 });
}

#[test]
fn issue_never_leaves_dust_change() {
    let sender = secp_lock();
    let receiver_lock = LockScript { code_hash: [0u8; 32], hash_type: 0, args: Vec::new() };
    let r = issue(&vec![cell(0, 8_200_000_000)], &sender, &receiver_lock, 1, 6_100_000_000, dep());
    assert_eq!(r.unwrap_err(), PackError::InsufficientFunds { unfunded: 1, shortfall: 8_199_999_999 });
    let txs = issue(&vec![cell(0, 8_199_999_999)], &sender, &receiver_lock, 1, 6_100_000_000, dep()).unwrap();
    assert_eq!(txs[0].outputs, vec![receiver(8_199_999_999)]);
}
