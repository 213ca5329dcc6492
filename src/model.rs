use vstd::prelude::*;

verus! {

/// An amount of bitcoin, in satoshis.
pub type Sats = u64;

/// The number of satoshis that can ever exist: 21 million bitcoin.
pub const MAX_SATS: u64 = 2_100_000_000_000_000;

/// Identifier of a transaction: its 32-byte hash, held as two 128-bit
/// big-endian halves so that identifiers compare as plain values.
#[derive(Clone, Copy, Debug, PartialEq, Eq, Structural)]
pub struct Txid {
    pub hi: u128,
    pub lo: u128,
}

/// A reference to one output of a previous transaction.
#[derive(Clone, Copy, Debug, PartialEq, Eq, Structural)]
pub struct Outpoint {
    pub txid: Txid,
    pub vout: u32,
}

/// The Bitcoin network a wallet operates on.
#[derive(Clone, Copy, Debug, PartialEq, Eq, Structural)]
pub enum Network {
    Mainnet,
    Testnet3,
    Testnet4,
    Signet,
    Regtest,
}

/// The network an address is encoded for. Testnets and signet share one
/// address format.
#[derive(Clone, Copy, Debug, PartialEq, Eq, Structural)]
pub enum AddressNetwork {
    Mainnet,
    Testnet,
    Regtest,
}

/// The address network that addresses of wallet network `n` use.
pub open spec fn address_network_of(n: Network) -> AddressNetwork {
    match n {
        Network::Mainnet => AddressNetwork::Mainnet,
        Network::Regtest => AddressNetwork::Regtest,
        _ => AddressNetwork::Testnet,
    }
}

impl Network {
    pub fn address_network(self) -> (r: AddressNetwork)
        ensures
            r == address_network_of(self),
    {
        match self {
            Network::Mainnet => AddressNetwork::Mainnet,
            Network::Testnet3 => AddressNetwork::Testnet,
            Network::Testnet4 => AddressNetwork::Testnet,
            Network::Signet => AddressNetwork::Testnet,
            Network::Regtest => AddressNetwork::Regtest,
        }
    }
}

/// A locking script, as raw script bytes.
#[derive(Clone, Debug)]
pub struct ScriptPubkey {
    pub bytes: Vec<u8>,
}

/// A destination: the locking script it stands for and the network it is
/// encoded for.
#[derive(Clone, Debug)]
pub struct Address {
    pub network: AddressNetwork,
    pub script_pubkey: ScriptPubkey,
}

/// A derivation branch of a wallet's keys (receiving, change, ...).
#[derive(Clone, Copy, Debug, PartialEq, Eq, Structural)]
pub struct Keychain(pub u8);

/// The keychain that change addresses come from by default.
pub const INNER_KEYCHAIN: u8 = 1;

/// Coordinates of one key in a wallet: its keychain and index there.
#[derive(Clone, Copy, Debug, PartialEq, Eq, Structural)]
pub struct Terminal {
    pub keychain: Keychain,
    pub index: u32,
}

impl Terminal {
    pub fn new(keychain: Keychain, index: u32) -> (r: Terminal)
        ensures
            r.keychain == keychain,
            r.index == index,
    {
        Terminal { keychain, index }
    }
}

/// A transaction lock time, in its consensus encoding.
#[derive(Clone, Copy, Debug, PartialEq, Eq, Structural)]
pub struct LockTime(pub u32);

/// An outpoint together with the value it holds.
#[derive(Clone, Copy, Debug, PartialEq, Eq, Structural)]
pub struct Prevout {
    pub outpoint: Outpoint,
    pub value: Sats,
}

/// One spendable output owned by the wallet.
#[derive(Clone, Copy, Debug, PartialEq, Eq, Structural)]
pub struct Utxo {
    pub outpoint: Outpoint,
    pub value: Sats,
    pub terminal: Terminal,
}

impl Utxo {
    pub fn to_prevout(&self) -> (r: Prevout)
        ensures
            r.outpoint == self.outpoint,
            r.value == self.value,
    {
        Prevout { outpoint: self.outpoint, value: self.value }
    }
}

/// A previous transaction, in its consensus serialization.
#[derive(Clone, Debug)]
pub struct RawTx {
    pub bytes: Vec<u8>,
}

/// An extended public key known to a wallet's descriptor, with the origin
/// (master fingerprint and derivation path) it was derived at, both encoded.
#[derive(Clone, Debug)]
pub struct XpubSpec {
    pub xpub: Vec<u8>,
    pub origin: Vec<u8>,
}

} // verus!
