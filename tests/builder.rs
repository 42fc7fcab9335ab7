use batch_payments::builder::{build_budgeted_transfers, build_transfers, ComputeBudget, InvalidAddress};
use batch_payments::chain::{AccountMeta, Address, Instruction};
use batch_payments::ledger::PaymentEntry;

const RENT: &str = "SysvarRent111111111111111111111111111111111";
const ZERO: &str = "11111111111111111111111111111111";
const COMPUTE_BUDGET: [u8; 32] = [
    3, 6, 70, 111, 229, 33, 23, 50, 255, 236, 173, 186, 114, 195, 155, 231, 188, 140, 229, 187,
    197, 247, 18, 107, 44, 67, 155, 58, 64, 0, 0, 0,
];

fn entry(address: &str, amount: u64) -> PaymentEntry {
    PaymentEntry { address: address.to_string(), amount }
}

fn source() -> Address {
    Address { bytes: [7u8; 32] }
}

fn accounts(ix: &Instruction) -> Vec<([u8; 32], bool, bool)> {
    ix.accounts.iter().map(|m: &AccountMeta| (m.address.bytes, m.is_signer, m.is_writable)).collect()
}

#[test]
fn one_transfer_per_entry_in_order() {
    let batch = vec![entry(RENT, 5000), entry(ZERO, 1)];
    let ixs = build_transfers(&source(), &batch).unwrap();
    assert_eq!(ixs.len(), 2);
    assert_eq!(ixs[0].program_id.bytes, [0u8; 32]);
    assert_eq!(ixs[0].data, vec![2, 0, 0, 0, 0x88, 0x13, 0, 0, 0, 0, 0, 0]);
    assert_eq!(ixs[1].data, vec![2, 0, 0, 0, 1, 0, 0, 0, 0, 0, 0, 0]);
    let rent = ixs[0].accounts[1].address.bytes;
    assert_ne!(rent, [0u8; 32]);
    assert_eq!(accounts(&ixs[0]), vec![([7u8; 32], true, true), (rent, false, true)]);
    assert_eq!(accounts(&ixs[1]), vec![([7u8; 32], true, true), ([0u8; 32], false, true)]);
}

#[test]
fn empty_batch_builds_nothing() {
    assert!(build_transfers(&source(), &Vec::new()).unwrap().is_empty());
}

#[test]
fn budget_directives_come_first() {
    let batch = vec![entry(RENT, 10), entry(RENT, 20), entry(ZERO, 30)];
    let budget = ComputeBudget { unit_price: 100_000, unit_limit: 3500 };
    let ixs = build_budgeted_transfers(&source(), &budget, &batch).unwrap();
    assert_eq!(ixs.len(), 5);
    assert_eq!(ixs[0].program_id.bytes, COMPUTE_BUDGET);
    assert_eq!(ixs[0].data, vec![3, 0xa0, 0x86, 0x01, 0, 0, 0, 0, 0]);
    assert!(ixs[0].accounts.is_empty());
    assert_eq!(ixs[1].program_id.bytes, COMPUTE_BUDGET);
    assert_eq!(ixs[1].data, vec![2, 0xac, 0x0d, 0, 0]);
    assert_eq!(ixs[2].data[4], 10);
    assert_eq!(ixs[3].data[4], 20);
    assert_eq!(ixs[4].data[4], 30);
}

#[test]
fn invalid_address_names_first_bad_entry() {
    let batch = vec![entry(RENT, 1), entry("Addr0", 2), entry("abc", 3)];
    assert_eq!(build_transfers(&source(), &batch).unwrap_err(), InvalidAddress { index: 1 });
    let batch = vec![entry("abc", 3)];
    let budget = ComputeBudget { unit_price: 1, unit_limit: 1 };
    assert_eq!(build_budgeted_transfers(&source(), &budget, &batch).unwrap_err(), InvalidAddress { index: 0 });
}

#[test]
fn overlong_address_is_refused() {
    let long = "1".repeat(45);
    let batch = vec![entry(&long, 1)];
    assert_eq!(build_transfers(&source(), &batch).unwrap_err(), InvalidAddress { index: 0 });
}
