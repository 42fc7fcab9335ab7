//! Plain-value models of chain addresses and instructions, and the calls into
//! `solana_sdk` that produce them.
use std::str::FromStr;
use vstd::prelude::*;

verus! {

/// A 32-byte account address.
#[derive(Clone, Copy, Debug)]
pub struct Address {
    pub bytes: [u8; 32],
}

/// One account that an instruction reads or writes.
#[derive(Clone, Copy, Debug)]
pub struct AccountMeta {
    pub address: Address,
    pub is_signer: bool,
    pub is_writable: bool,
}

/// An instruction as plain values: the program that runs it, the accounts it
/// touches, and its encoded arguments.
#[derive(Clone, Debug)]
pub struct Instruction {
    pub program_id: Address,
    pub accounts: Vec<AccountMeta>,
    pub data: Vec<u8>,
}

/// The mathematical content of an [`Instruction`].
pub struct InstructionView {
    pub program_id: Seq<u8>,
    /// Each account as its address, whether it signs, whether it is written.
    pub accounts: Seq<(Seq<u8>, bool, bool)>,
    pub data: Seq<u8>,
}

impl View for Instruction {
    type V = InstructionView;

    open spec fn view(&self) -> InstructionView {
        InstructionView {
            program_id: self.program_id.bytes@,
            accounts: self.accounts@.map_values(
                |m: AccountMeta| (m.address.bytes@, m.is_signer, m.is_writable),
            ),
            data: self.data@,
        }
    }
}

/// The little-endian encoding of `x` in `n` bytes.
pub open spec fn le_bytes(x: nat, n: nat) -> Seq<u8>
    decreases n,
{
    if n == 0 {
        Seq::empty()
    } else {
        seq![(x % 256) as u8] + le_bytes(x / 256, (n - 1) as nat)
    }
}

/// The system program's address: 32 zero bytes.
pub open spec fn system_program_id() -> Seq<u8> {
    Seq::new(32, |i: int| 0u8)
}

/// The compute-budget program's address (`ComputeBudget111111111111111111111111111111`).
pub open spec fn compute_budget_program_id() -> Seq<u8> {
    seq![
        3u8, 6, 70, 111, 229, 33, 23, 50, 255, 236, 173, 186, 114, 195, 155, 231,
        188, 140, 229, 187, 197, 247, 18, 107, 44, 67, 155, 58, 64, 0, 0, 0,
    ]
}

/// A transfer of `lamports` from `from` (writable signer) to `to` (writable).
pub open spec fn transfer_view(from: Seq<u8>, to: Seq<u8>, lamports: u64) -> InstructionView {
    InstructionView {
        program_id: system_program_id(),
        accounts: seq![(from, true, true), (to, false, true)],
        data: seq![2u8, 0, 0, 0] + le_bytes(lamports as nat, 8),
    }
}

/// The directive that sets the price of a compute unit, in micro-lamports.
pub open spec fn unit_price_view(micro_lamports: u64) -> InstructionView {
    InstructionView {
        program_id: compute_budget_program_id(),
        accounts: Seq::empty(),
        data: seq![3u8] + le_bytes(micro_lamports as nat, 8),
    }
}

/// The directive that caps the compute units a transaction may use.
pub open spec fn unit_limit_view(units: u32) -> InstructionView {
    InstructionView {
        program_id: compute_budget_program_id(),
        accounts: Seq::empty(),
        data: seq![2u8] + le_bytes(units as nat, 4),
    }
}

/// The 32 bytes that base-58 text denotes, if it denotes an address at all.
pub uninterp spec fn decode_address(text: Seq<char>) -> Option<Seq<u8>>;

#[verifier::external_type_specification]
#[verifier::external_body]
pub struct ExParsePubkeyError(solana_sdk::pubkey::ParsePubkeyError);

/// Relies on `Pubkey::from_str` (solana_pubkey): base-58 decoding into exactly
/// 32 bytes; text longer than 44 bytes is refused before decoding.
#[verifier::external_body]
pub(crate) fn parse_address(text: &str) -> (r: Result<Address, solana_sdk::pubkey::ParsePubkeyError>)
    ensures
        match r {
            Ok(a) => decode_address(text@) == Some(a.bytes@),
            Err(_) => decode_address(text@) is None,
        },
        text@.len() > 44 ==> r is Err,
{
    solana_sdk::pubkey::Pubkey::from_str(text).map(|k| Address { bytes: k.to_bytes() })
}

/// Relies on `system_instruction::transfer` (solana_system_interface): the
/// system program, `[from: writable signer, to: writable]`, and the bincode
/// encoding of `Transfer { lamports }` (variant 2 as a `u32`, then the `u64`).
#[allow(deprecated)]
#[verifier::external_body]
pub(crate) fn system_transfer(from: &Address, to: &Address, lamports: u64) -> (r: Instruction)
    ensures
        r@ == transfer_view(from.bytes@, to.bytes@, lamports),
{
    let ix = solana_sdk::system_instruction::transfer(
        &solana_sdk::pubkey::Pubkey::new_from_array(from.bytes),
        &solana_sdk::pubkey::Pubkey::new_from_array(to.bytes),
        lamports,
    );
    let accounts = ix.accounts.iter().map(|m| AccountMeta {
        address: Address { bytes: m.pubkey.to_bytes() },
        is_signer: m.is_signer,
        is_writable: m.is_writable,
    }).collect();
    Instruction { program_id: Address { bytes: ix.program_id.to_bytes() }, accounts, data: ix.data }
}

/// Relies on `ComputeBudgetInstruction::set_compute_unit_price`: the
/// compute-budget program, no accounts, data `[3]` then the `u64` little-endian.
#[verifier::external_body]
pub(crate) fn set_unit_price(micro_lamports: u64) -> (r: Instruction)
    ensures
        r@ == unit_price_view(micro_lamports),
{
    let ix = solana_sdk::compute_budget::ComputeBudgetInstruction::set_compute_unit_price(
        micro_lamports,
    );
    Instruction {
        program_id: Address { bytes: ix.program_id.to_bytes() },
        accounts: Vec::new(),
        data: ix.data,
    }
}

/// Relies on `ComputeBudgetInstruction::set_compute_unit_limit`: the
/// compute-budget program, no accounts, data `[2]` then the `u32` little-endian.
#[verifier::external_body]
pub(crate) fn set_unit_limit(units: u32) -> (r: Instruction)
    ensures
        r@ == unit_limit_view(units),
{
    let ix = solana_sdk::compute_budget::ComputeBudgetInstruction::set_compute_unit_limit(units);
    Instruction {
        program_id: Address { bytes: ix.program_id.to_bytes() },
        accounts: Vec::new(),
        data: ix.data,
    }
}

} // verus!
