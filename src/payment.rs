use vstd::prelude::*;

use crate::model::{Address, Sats, ScriptPubkey};
use crate::text::{
    bare_checksum, decoded_address, digits_value, first_at, is_bare_checksum, is_u64_literal,
    parse_address, parse_sats, split_at_sign, is_max_text, unsigned_digits,
};

verus! {

/// How much a beneficiary receives.
#[derive(Clone, Copy, Debug, PartialEq, Eq, Structural)]
pub enum Payment {
    /// Exactly this many satoshis.
    Fixed(Sats),
    /// Whatever remains once fixed payments and the fee are covered.
    Max,
}

/// The amount a payment contributes to the sum of fixed outputs.
pub open spec fn fixed_amount(p: Payment) -> Sats {
    match p {
        Payment::Fixed(a) => a,
        Payment::Max => 0,
    }
}

/// The payment that the amount text `s` stands for: `MAX`, or an unsigned
/// decimal number of satoshis.
pub open spec fn payment_of(s: Seq<char>) -> Option<Payment> {
    if s == "MAX"@ {
        Some(Payment::Max)
    } else if is_u64_literal(s) {
        Some(Payment::Fixed(digits_value(unsigned_digits(s)) as u64))
    } else {
        None
    }
}

impl Payment {
    pub fn sats(&self) -> (r: Option<Sats>)
        ensures
            r == (match *self {
                Payment::Fixed(a) => Some(a),
                Payment::Max => None,
            }),
    {
        match self {
            Payment::Fixed(sats) => Some(*sats),
            Payment::Max => None,
        }
    }

    pub fn unwrap_or(&self, default: Sats) -> (r: Sats)
        ensures
            r == (match *self {
                Payment::Fixed(a) => a,
                Payment::Max => default,
            }),
    {
        match self.sats() {
            Some(sats) => sats,
            None => default,
        }
    }

    pub fn is_max(&self) -> (r: bool)
        ensures
            r == (*self is Max),
    {
        *self == Payment::Max
    }

    /// Reads an amount: the literal `MAX`, or a decimal number of satoshis.
    pub fn parse(s: &str) -> (r: Result<Payment, std::num::ParseIntError>)
        ensures
            r is Ok <==> payment_of(s@) is Some,
            r matches Ok(p) ==> payment_of(s@) == Some(p),
    {
        if is_max_text(s) {
            return Ok(Payment::Max);
        }
        match parse_sats(s) {
            Ok(v) => Ok(Payment::Fixed(v)),
            Err(e) => Err(e),
        }
    }
}

impl std::str::FromStr for Payment {
    type Err = std::num::ParseIntError;

    fn from_str(s: &str) -> Result<Payment, std::num::ParseIntError> {
        Payment::parse(s)
    }
}

/// Why a text `AMOUNT@ADDRESS` is no beneficiary.
#[derive(Debug)]
pub enum BeneficiaryParseError {
    /// The text holds no `@`.
    InvalidFormat,
    /// The amount is neither `MAX` nor a decimal number.
    Int(std::num::ParseIntError),
    /// The address does not decode.
    Address(derive::AddressParseError),
    /// The address is segwit text whose data part is a valid checksum and
    /// nothing else: it holds no witness version or program.
    NoWitnessProgram,
}

/// One requested payment: a destination and how much it receives.
#[derive(Clone, Debug)]
pub struct Beneficiary {
    pub address: Address,
    pub amount: Payment,
}

impl Beneficiary {
    pub fn new(address: Address, amount: Payment) -> (r: Beneficiary)
        ensures
            r.address == address,
            r.amount == amount,
    {
        Beneficiary { address, amount }
    }

    pub fn with_max(address: Address) -> (r: Beneficiary)
        ensures
            r.address == address,
            r.amount == Payment::Max,
    {
        Beneficiary { address, amount: Payment::Max }
    }

    pub fn is_max(&self) -> (r: bool)
        ensures
            r == (self.amount is Max),
    {
        self.amount.is_max()
    }

    pub fn script_pubkey(&self) -> (r: ScriptPubkey)
        ensures
            r.bytes@ == self.address.script_pubkey.bytes@,
    {
        ScriptPubkey { bytes: self.address.script_pubkey.bytes.clone() }
    }

    /// Reads a beneficiary from `AMOUNT@ADDRESS`, split at the first `@`.
    /// The address is decoded before the amount is read, so a text where both
    /// are wrong reports the address.
    pub fn parse(s: &str) -> (r: Result<Beneficiary, BeneficiaryParseError>)
        ensures
            first_at(s@) is None <==> r matches Err(BeneficiaryParseError::InvalidFormat),
            first_at(s@) matches Some(i) ==> {
                let amount = s@.subrange(0, i);
                let address = s@.subrange(i + 1, s@.len() as int);
                &&& (r matches Err(BeneficiaryParseError::NoWitnessProgram) <==> is_bare_checksum(
                    address,
                ))
                &&& (r matches Err(BeneficiaryParseError::Address(_)) <==> !is_bare_checksum(
                    address,
                ) && decoded_address(address) is None)
                &&& (r matches Err(BeneficiaryParseError::Int(_)) <==> !is_bare_checksum(address)
                    && decoded_address(address) is Some && payment_of(amount) is None)
                &&& (r matches Ok(b) ==> {
                    &&& decoded_address(address) == Some(
                        (b.address.network, b.address.script_pubkey.bytes@),
                    )
                    &&& payment_of(amount) == Some(b.amount)
                })
            },
    {
        let (amount, address) = match split_at_sign(s) {
            Some(parts) => parts,
            None => return Err(BeneficiaryParseError::InvalidFormat),
        };
        if bare_checksum(address) {
            return Err(BeneficiaryParseError::NoWitnessProgram);
        }
        let address = match parse_address(address) {
            Ok(a) => a,
            Err(e) => return Err(BeneficiaryParseError::Address(e)),
        };
        let amount = match Payment::parse(amount) {
            Ok(p) => p,
            Err(e) => return Err(BeneficiaryParseError::Int(e)),
        };
        Ok(Beneficiary::new(address, amount))
    }
}

impl std::str::FromStr for Beneficiary {
    type Err = BeneficiaryParseError;

    fn from_str(s: &str) -> Result<Beneficiary, BeneficiaryParseError> {
        Beneficiary::parse(s)
    }
}

} // verus!
