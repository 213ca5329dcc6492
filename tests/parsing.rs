use psbt_constructor::{AddressNetwork, Beneficiary, BeneficiaryParseError, Network, Payment, TxParams, Keychain, Utxo, Outpoint, Txid, Terminal};
use std::str::FromStr;

const MAINNET_WPKH: &str = "bc1qw508d6qejxtdg4y5r3zarvary0c5xw7kv8f3t4";
const TESTNET_WPKH: &str = "tb1qw508d6qejxtdg4y5r3zarvary0c5xw7kxpjzsx";

fn wpkh_script() -> Vec<u8> {
    let mut s = vec![0x00, 0x14];
    s.extend_from_slice(&[
        0x75, 0x1e, 0x76, 0xe8, 0x19, 0x91, 0x96, 0xd4, 0x54, 0x94, 0x1c, 0x45, 0xd1, 0xb3, 0xa3,
        0x23, 0xf1, 0x43, 0x3b, 0xd6,
    ]);
    s
}

#[test]
fn payment_reads_max_and_numbers() {
    assert_eq!(Payment::from_str("MAX").unwrap(), Payment::Max);
    assert_eq!(Payment::from_str("1500").unwrap(), Payment::Fixed(1500));
    assert_eq!(Payment::from_str("+7").unwrap(), Payment::Fixed(7));
    assert!(Payment::from_str("max").is_err());
    assert!(Payment::from_str("-1").is_err());
    assert!(Payment::from_str("").is_err());
    assert!(Payment::from_str("18446744073709551616").is_err());
    assert_eq!(Payment::from_str("18446744073709551615").unwrap(), Payment::Fixed(u64::MAX));
}

#[test]
fn payment_accessors() {
    assert_eq!(Payment::Fixed(5).sats(), Some(5));
    assert_eq!(Payment::Max.sats(), None);
    assert_eq!(Payment::Max.unwrap_or(9), 9);
    assert_eq!(Payment::Fixed(5).unwrap_or(9), 5);
    assert!(Payment::Max.is_max());
    assert!(!Payment::Fixed(0).is_max());
}

#[test]
fn beneficiary_reads_amount_and_address() {
    let b = Beneficiary::from_str(&format!("1000@{}", MAINNET_WPKH)).unwrap();
    assert_eq!(b.amount, Payment::Fixed(1000));
    assert_eq!(b.address.network, AddressNetwork::Mainnet);
    assert_eq!(b.script_pubkey().bytes, wpkh_script());
    assert!(!b.is_max());
    let m = Beneficiary::from_str(&format!("MAX@{}", TESTNET_WPKH)).unwrap();
    assert!(m.is_max());
    assert_eq!(m.address.network, AddressNetwork::Testnet);
    assert_eq!(m.address.script_pubkey.bytes, wpkh_script());
}

#[test]
fn beneficiary_without_separator() {
    assert!(matches!(Beneficiary::from_str("1000"), Err(BeneficiaryParseError::InvalidFormat)));
}

#[test]
fn beneficiary_with_bad_amount() {
    let r = Beneficiary::from_str(&format!("ten@{}", MAINNET_WPKH));
    assert!(matches!(r, Err(BeneficiaryParseError::Int(_))));
}

#[test]
fn beneficiary_with_bad_address() {
    assert!(matches!(Beneficiary::from_str("1000@nowhere"), Err(BeneficiaryParseError::Address(_))));
    assert!(matches!(Beneficiary::from_str("ten@nowhere"), Err(BeneficiaryParseError::Address(_))));
}

#[test]
fn beneficiary_splits_at_first_separator() {
    let r = Beneficiary::from_str(&format!("5@{}@x", MAINNET_WPKH));
    assert!(matches!(r, Err(BeneficiaryParseError::Address(_))));
}

#[test]
fn tx_params_defaults() {
    let p = TxParams::with(250);
    assert_eq!(p.fee, 250);
    assert_eq!(p.lock_time, None);
    assert_eq!(p.seq_no, 0);
    assert!(p.change_shift);
    assert_eq!(p.change_keychain, Keychain(1));
}

#[test]
fn utxo_prevout_and_networks() {
    let o = Outpoint { txid: Txid { hi: 1, lo: 2 }, vout: 3 };
    let u = Utxo { outpoint: o, value: 42, terminal: Terminal::new(Keychain(0), 5) };
    let p = u.to_prevout();
    assert_eq!((p.outpoint, p.value), (o, 42));
    assert_eq!(Network::Signet.address_network(), AddressNetwork::Testnet);
    assert_eq!(Network::Testnet4.address_network(), AddressNetwork::Testnet);
    assert_eq!(Network::Regtest.address_network(), AddressNetwork::Regtest);
    assert_eq!(Network::Mainnet.address_network(), AddressNetwork::Mainnet);
}

#[test]
fn beneficiary_with_checksum_only_address() {
    for text in ["5@bc1gmk9yu", "MAX@bc1a8xfp7", "ten@BC1GMK9YU"] {
        assert!(matches!(Beneficiary::from_str(text), Err(BeneficiaryParseError::NoWitnessProgram)));
    }
    assert!(matches!(Beneficiary::from_str("5@xy1gmk9yu"), Err(BeneficiaryParseError::Address(_))));
}

#[test]
fn checksum_only_shapes_that_do_not_decode_are_address_errors() {
    for text in ["5@bc1gmk9yv", "5@bC1gmk9yu", "5@bc1GMK9YU", "5@bc1gmk9y", "5@tb1gmk9yu"] {
        assert!(
            matches!(Beneficiary::from_str(text), Err(BeneficiaryParseError::Address(_))),
            "{}",
            text
        );
    }
}
