use vstd::prelude::*;

use crate::model::{
    Address, AddressNetwork, Keychain, LockTime, Outpoint, RawTx, Sats, ScriptPubkey, Terminal,
    XpubSpec, INNER_KEYCHAIN,
};

verus! {

/// One input of a draft transaction, with what a signer needs to sign it.
#[derive(Clone, Debug)]
pub struct Input {
    pub previous_outpoint: Outpoint,
    pub value: Sats,
    pub terminal: Terminal,
    pub script_pubkey: ScriptPubkey,
    pub prev_tx: RawTx,
    pub seq_no: u32,
}

/// One output of a draft transaction; a change output carries the terminal
/// its script was derived at.
#[derive(Clone, Debug)]
pub struct Output {
    pub script_pubkey: ScriptPubkey,
    pub amount: Sats,
    pub change_terminal: Option<Terminal>,
}

/// An unsigned draft transaction with the metadata co-signers need.
#[derive(Clone, Debug)]
pub struct Psbt {
    pub tx_version: u32,
    pub fallback_locktime: Option<LockTime>,
    pub xpubs: Vec<XpubSpec>,
    pub inputs: Vec<Input>,
    pub outputs: Vec<Output>,
}

/// The transaction version of every draft built here.
pub const DRAFT_TX_VERSION: u32 = 2;

/// Parameters of one construction.
#[derive(Clone, Copy, Debug, PartialEq, Eq, Structural)]
pub struct TxParams {
    /// The absolute fee, in satoshis.
    pub fee: Sats,
    pub lock_time: Option<LockTime>,
    /// The sequence number of every input.
    pub seq_no: u32,
    /// Whether taking a change index advances the wallet's counter or only
    /// reads it.
    pub change_shift: bool,
    pub change_keychain: Keychain,
}

impl TxParams {
    pub fn with(fee: Sats) -> (r: TxParams)
        ensures
            r.fee == fee,
            r.lock_time is None,
            r.seq_no == 0,
            r.change_shift,
            r.change_keychain == Keychain(INNER_KEYCHAIN),
    {
        TxParams {
            fee,
            lock_time: None,
            seq_no: 0,
            change_shift: true,
            change_keychain: Keychain(INNER_KEYCHAIN),
        }
    }
}

/// Where the change output of a draft stands.
#[derive(Clone, Copy, Debug, PartialEq, Eq, Structural)]
pub struct ChangeInfo {
    pub vout: u32,
    pub terminal: Terminal,
}

/// The summary returned beside a draft. Weight and size are not computed
/// yet and stay zero.
#[derive(Clone, Copy, Debug, PartialEq, Eq, Structural)]
pub struct PsbtMeta {
    pub network: AddressNetwork,
    pub fee: Sats,
    pub weight: u32,
    pub size: u32,
    pub change: Option<ChangeInfo>,
}

/// Why a draft could not be built.
#[derive(Clone, Debug)]
pub enum ConstructionError {
    /// The coin spending this outpoint is not known to the wallet.
    UnknownInput(Outpoint),
    /// No input was left to spend.
    NoInputs,
    /// A running total passed the number of satoshis in existence; the total
    /// before the addition that failed.
    Overflow(Sats),
    /// Outputs ask for more than the inputs hold, before the fee.
    OutputExceedsInputs { input_value: Sats, output_value: Sats },
    /// Outputs fit within the inputs, but the fee does not.
    NoFundsForFee { input_value: Sats, output_value: Sats, fee: Sats },
    /// This beneficiary's address is for another network than the wallet's.
    NetworkMismatch(Address),
}

} // verus!
