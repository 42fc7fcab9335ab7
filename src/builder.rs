//! Turning a batch of payments into the instructions of one transaction.
use vstd::prelude::*;
use crate::chain::{
    Address, Instruction, decode_address, parse_address, set_unit_limit, set_unit_price,
    system_transfer, transfer_view, unit_limit_view, unit_price_view,
};
use crate::ledger::PaymentEntry;

verus! {

/// The compute-budget directives that lead a transaction sent straight to a node.
#[derive(Clone, Copy, Debug)]
pub struct ComputeBudget {
    /// Price of a compute unit, in micro-lamports.
    pub unit_price: u64,
    /// Most compute units the transaction may use.
    pub unit_limit: u32,
}

/// The entry at `index` of a batch has an address that does not decode.
#[derive(Clone, Copy, Debug, PartialEq, Eq)]
pub struct InvalidAddress {
    pub index: usize,
}

/// `index` is the first entry of `batch` whose address does not decode.
pub open spec fn first_invalid(batch: Seq<PaymentEntry>, index: int) -> bool {
    &&& 0 <= index < batch.len()
    &&& decode_address(batch[index].address@) is None
    &&& forall|j: int| 0 <= j < index ==> (#[trigger] decode_address(batch[j].address@)) is Some
}

/// `ixs` holds, in entry order, one transfer from `source` per entry of `batch`.
pub open spec fn transfers_of(source: Seq<u8>, batch: Seq<PaymentEntry>, ixs: Seq<Instruction>) -> bool {
    &&& ixs.len() == batch.len()
    &&& forall|i: int|
        0 <= i < batch.len() ==> {
            &&& (#[trigger] decode_address(batch[i].address@)) is Some
            &&& ixs[i]@ == transfer_view(
                source,
                decode_address(batch[i].address@).unwrap(),
                batch[i].amount,
            )
        }
}

/// `ixs` is the two directives of `budget`, the price first, then the
/// transfers of `batch` from `source`.
pub open spec fn budgeted_transfers_of(
    source: Seq<u8>,
    budget: ComputeBudget,
    batch: Seq<PaymentEntry>,
    ixs: Seq<Instruction>,
) -> bool {
    &&& ixs.len() >= 2
    &&& ixs[0]@ == unit_price_view(budget.unit_price)
    &&& ixs[1]@ == unit_limit_view(budget.unit_limit)
    &&& transfers_of(source, batch, ixs.skip(2))
}

/// One transfer from `source` per entry of `batch`, in entry order; fails on
/// the first entry whose address does not decode.
pub fn build_transfers(source: &Address, batch: &Vec<PaymentEntry>) -> (r: Result<
    Vec<Instruction>,
    InvalidAddress,
>)
    ensures
        match r {
            Ok(v) => transfers_of(source.bytes@, batch@, v@),
            Err(e) => first_invalid(batch@, e.index as int),
        },
{
    let mut ixs: Vec<Instruction> = Vec::new();
    let mut i: usize = 0;
    while i < batch.len()
        invariant
            i <= batch@.len(),
            transfers_of(source.bytes@, batch@.take(i as int), ixs@),
        decreases batch@.len() - i,
    {
        match parse_address(batch[i].address.as_str()) {
            Ok(to) => {
                let ix = system_transfer(source, &to, batch[i].amount);
                ixs.push(ix);
                assert(batch@.take(i + 1)[i as int] == batch@[i as int]);
                assert forall|j: int| 0 <= j < i implies #[trigger] batch@.take(i + 1)[j]
                    == batch@.take(i as int)[j] by {}
            },
            Err(_) => {
                assert forall|j: int| 0 <= j < i implies (#[trigger] decode_address(
                    batch@[j].address@,
                )) is Some by {
                    assert(batch@.take(i as int)[j] == batch@[j]);
                }
                return Err(InvalidAddress { index: i });
            },
        }
        i = i + 1;
    }
    assert(batch@.take(i as int) =~= batch@);
    Ok(ixs)
}

/// The directives of `budget` (price, then limit) followed by the transfers
/// of [`build_transfers`]; fails as it does.
pub fn build_budgeted_transfers(
    source: &Address,
    budget: &ComputeBudget,
    batch: &Vec<PaymentEntry>,
) -> (r: Result<Vec<Instruction>, InvalidAddress>)
    ensures
        match r {
            Ok(v) => budgeted_transfers_of(source.bytes@, *budget, batch@, v@),
            Err(e) => first_invalid(batch@, e.index as int),
        },
{
    let mut transfers = build_transfers(source, batch)?;
    let mut ixs: Vec<Instruction> = Vec::new();
    ixs.push(set_unit_price(budget.unit_price));
    ixs.push(set_unit_limit(budget.unit_limit));
    let ghost t = transfers@;
    ixs.append(&mut transfers);
    assert(ixs@.skip(2) =~= t);
    Ok(ixs)
}

} // verus!
