//! Construction of unsigned draft transactions (PSBTs) from a wallet's coins
//! and a list of payments, with checked amounts, de-duplicated inputs, equal
//! shares for "send the rest" payments and change above the dust limit.

pub mod constructor;
pub mod laws;
pub mod model;
pub mod payment;
pub mod psbt;
pub mod text;

pub use constructor::{
    add_inputs, attach_change, build_draft, check_outputs, make_outputs, CoinLookup,
    PsbtConstructor,
};
pub use model::{
    Address, AddressNetwork, Keychain, LockTime, Network, Outpoint, Prevout, RawTx, Sats,
    ScriptPubkey, Terminal, Txid, Utxo, XpubSpec, INNER_KEYCHAIN, MAX_SATS,
};
pub use payment::{Beneficiary, BeneficiaryParseError, Payment};
pub use psbt::{
    ChangeInfo, ConstructionError, Input, Output, Psbt, PsbtMeta, TxParams, DRAFT_TX_VERSION,
};
