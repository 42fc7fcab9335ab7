//! The payment ledger: one `address,amount` entry per line.
use vstd::prelude::*;
use crate::text::{
    Strip, decimal_of, decimal_string, decimal_text, lemma_decimal_text,
    lemma_next_comma_skip, find_comma, is_digit, next_comma,
    parse_decimal, strip, strip_end, strip_start, stripped, unsigned_digits,
};

verus! {

/// One payment: a destination address (not yet checked) and an amount in the
/// smallest unit of the currency.
#[derive(Clone, Debug)]
pub struct PaymentEntry {
    pub address: String,
    pub amount: u64,
}

impl View for PaymentEntry {
    type V = (Seq<char>, u64);

    open spec fn view(&self) -> (Seq<char>, u64) {
        (self.address@, self.amount)
    }
}

/// Why a ledger line was refused.
#[derive(Clone, Copy, Debug, PartialEq, Eq)]
pub enum LineError {
    /// The line holds no comma, so no amount field.
    MissingAmount,
    /// The amount field is not an unsigned decimal that fits in 64 bits.
    InvalidAmount,
}

/// The first refused line of a ledger (counted from zero) and why.
#[derive(Clone, Copy, Debug, PartialEq, Eq)]
pub struct LedgerError {
    pub line: usize,
    pub error: LineError,
}

/// What a ledger line denotes. The address is everything before the first
/// comma; the amount is the field after it, up to a second comma if there is
/// one, with white space around it ignored.
pub open spec fn line_result(line: Seq<char>) -> Result<(Seq<char>, u64), LineError> {
    let c1 = next_comma(line, 0);
    if c1 >= line.len() {
        Err(LineError::MissingAmount)
    } else {
        let field = line.subrange(c1 + 1, next_comma(line, c1 + 1));
        match decimal_of(stripped(field, Strip::Whitespace), u64::MAX as nat) {
            Some(v) => Ok((line.subrange(0, c1), v as u64)),
            None => Err(LineError::InvalidAmount),
        }
    }
}

/// The ledger line that holds `address` and `amount`.
pub open spec fn line_text(address: Seq<char>, amount: u64) -> Seq<char> {
    address + seq![','] + decimal_text(amount as nat)
}

impl PaymentEntry {
    /// Writes the entry as a ledger line: the address, a comma, the amount in decimal.
    pub fn to_line(&self) -> (r: String)
        ensures
            r@ == line_text(self.address@, self.amount),
    {
        let digits = decimal_string(self.amount);
        proof {
            reveal_strlit(",");
        }
        String::from_str(self.address.as_str()).concat(",").concat(digits.as_str())
    }
}

/// Writing an entry as a ledger line and parsing that line gives the entry
/// back, whenever its address holds no comma.
pub proof fn lemma_line_round_trip(address: Seq<char>, amount: u64)
    requires
        forall|i: int| 0 <= i < address.len() ==> address[i] != ',',
    ensures
        line_result(line_text(address, amount)) == Ok::<(Seq<char>, u64), LineError>(
            (address, amount),
        ),
{
    let t = decimal_text(amount as nat);
    let line = line_text(address, amount);
    let a = address.len() as int;
    lemma_decimal_text(amount as nat);
    lemma_next_comma_skip(line, 0, a);
    lemma_next_comma_skip(line, a + 1, line.len() as int);
    assert(next_comma(line, 0) == a);
    assert(line.subrange(a + 1, line.len() as int) =~= t);
    assert(line.subrange(0, a) =~= address);
    assert(is_digit(t[0]));
    assert(is_digit(t.last()));
    assert(strip_start(t, Strip::Whitespace) == t);
    assert(strip_end(t, Strip::Whitespace) == t);
    assert(unsigned_digits(t) == t);
}

/// Parses one ledger line into an entry.
pub fn process_line(line: &str) -> (r: Result<PaymentEntry, LineError>)
    ensures
        match r {
            Ok(e) => line_result(line@) == Ok::<(Seq<char>, u64), LineError>(e@),
            Err(err) => line_result(line@) == Err::<(Seq<char>, u64), LineError>(err),
        },
{
    let n = line.unicode_len();
    let c1 = find_comma(line, 0);
    if c1 >= n {
        return Err(LineError::MissingAmount);
    }
    let c2 = find_comma(line, c1 + 1);
    let field = line.substring_char(c1 + 1, c2);
    match parse_decimal(strip(field, Strip::Whitespace), u64::MAX) {
        Some(amount) => {
            let address = String::from_str(line.substring_char(0, c1));
            Ok(PaymentEntry { address, amount })
        },
        None => Err(LineError::InvalidAmount),
    }
}

/// Parses every line of a ledger, in order; the first refused line stops the
/// whole parse, so a ledger yields all of its entries or none.
pub fn parse_entries(lines: &Vec<String>) -> (r: Result<Vec<PaymentEntry>, LedgerError>)
    ensures
        match r {
            Ok(v) => {
                &&& v@.len() == lines@.len()
                &&& forall|i: int|
                    0 <= i < lines@.len() ==> line_result(#[trigger] lines@[i]@) == Ok::<
                        (Seq<char>, u64),
                        LineError,
                    >(v@[i]@)
            },
            Err(e) => {
                &&& e.line < lines@.len()
                &&& line_result(lines@[e.line as int]@) == Err::<(Seq<char>, u64), LineError>(
                    e.error,
                )
                &&& forall|i: int| 0 <= i < e.line ==> (#[trigger] line_result(lines@[i]@)) is Ok
            },
        },
{
    let mut entries: Vec<PaymentEntry> = Vec::new();
    let mut i: usize = 0;
    while i < lines.len()
        invariant
            i <= lines@.len(),
            entries@.len() == i,
            forall|j: int|
                0 <= j < i ==> line_result(#[trigger] lines@[j]@) == Ok::<(Seq<char>, u64), LineError>(
                    entries@[j]@,
                ),
        decreases lines@.len() - i,
    {
        match process_line(lines[i].as_str()) {
            Ok(e) => entries.push(e),
            Err(error) => {
                return Err(LedgerError { line: i, error });
            },
        }
        i = i + 1;
    }
    Ok(entries)
}

} // verus!
