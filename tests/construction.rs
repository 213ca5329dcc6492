use psbt_constructor::{
    add_inputs, build_draft, check_outputs, make_outputs, Address, AddressNetwork, Beneficiary,
    CoinLookup, ConstructionError, Keychain, Network, Outpoint, Payment, PsbtConstructor, RawTx,
    Sats, ScriptPubkey, Terminal, TxParams, Txid, Utxo, XpubSpec, MAX_SATS,
};

struct Wallet {
    network: Network,
    coins: Vec<(Utxo, ScriptPubkey)>,
    dust: Sats,
    next_index: u32,
    hook_calls: u32,
}

fn outpoint(n: u128) -> Outpoint {
    Outpoint { txid: Txid { hi: 0, lo: n }, vout: 0 }
}

fn spk(tag: u8) -> ScriptPubkey {
    ScriptPubkey { bytes: vec![0x00, 0x14, tag] }
}

fn address(network: AddressNetwork, tag: u8) -> Address {
    Address { network, script_pubkey: spk(tag) }
}

fn wallet(values: &[Sats], dust: Sats) -> Wallet {
    let coins = values
        .iter()
        .enumerate()
        .map(|(i, v)| {
            let utxo = Utxo {
                outpoint: outpoint(i as u128 + 1),
                value: *v,
                terminal: Terminal { keychain: Keychain(0), index: i as u32 },
            };
            (utxo, spk(200 + i as u8))
        })
        .collect();
    Wallet { network: Network::Mainnet, coins, dust, next_index: 7, hook_calls: 0 }
}

impl PsbtConstructor for Wallet {
    fn prev_tx(&self, txid: Txid) -> Option<RawTx> {
        self.coins
            .iter()
            .find(|(u, _)| u.outpoint.txid == txid)
            .map(|_| RawTx { bytes: vec![2, 0, 0, 0] })
    }

    fn utxo(&self, outpoint: Outpoint) -> Option<(Utxo, ScriptPubkey)> {
        self.coins.iter().find(|(u, _)| u.outpoint == outpoint).cloned()
    }

    fn network(&self) -> Network {
        self.network
    }

    fn xpubs(&self) -> Vec<XpubSpec> {
        vec![XpubSpec { xpub: vec![4, 136, 178, 30], origin: vec![1, 2, 3, 4] }]
    }

    fn dust_limit(&self) -> Sats {
        self.dust
    }

    fn derive_script(&self, terminal: Terminal) -> ScriptPubkey {
        ScriptPubkey { bytes: vec![0x51, terminal.keychain.0, terminal.index as u8] }
    }

    fn next_derivation_index(&mut self, _keychain: Keychain, shift: bool) -> u32 {
        let index = self.next_index;
        if shift {
            self.next_index += 1;
        }
        index
    }

    fn after_construct_psbt(
        &mut self,
        _psbt: &psbt_constructor::Psbt,
        _meta: &psbt_constructor::PsbtMeta,
    ) {
        self.hook_calls += 1;
    }
}

fn fixed(tag: u8, amount: Sats) -> Beneficiary {
    Beneficiary::new(address(AddressNetwork::Mainnet, tag), Payment::Fixed(amount))
}

fn max(tag: u8) -> Beneficiary {
    Beneficiary::with_max(address(AddressNetwork::Mainnet, tag))
}

#[test]
fn duplicate_outpoint_gives_one_input() {
    let mut w = wallet(&[60_000, 40_000], 546);
    let coins = vec![outpoint(1), outpoint(2), outpoint(1)];
    let (psbt, _) = w.construct_psbt(coins, vec![fixed(1, 50_000)], TxParams::with(1_000)).unwrap();
    assert_eq!(psbt.inputs.len(), 2);
    assert_eq!(psbt.inputs[0].previous_outpoint, outpoint(1));
    assert_eq!(psbt.inputs[1].previous_outpoint, outpoint(2));
    assert_eq!(psbt.inputs[0].value, 60_000);
}

#[test]
fn empty_coin_list_is_no_inputs() {
    let mut w = wallet(&[100_000], 546);
    let r = w.construct_psbt(vec![], vec![fixed(1, 1_000)], TxParams::with(1_000));
    assert!(matches!(r, Err(ConstructionError::NoInputs)));
    assert_eq!(w.hook_calls, 0);
}

#[test]
fn unknown_coin_is_named() {
    let mut w = wallet(&[100_000], 546);
    let coins = vec![outpoint(1), outpoint(9)];
    let r = w.construct_psbt(coins, vec![fixed(1, 1_000)], TxParams::with(1_000));
    match r {
        Err(ConstructionError::UnknownInput(o)) => assert_eq!(o, outpoint(9)),
        other => panic!("unexpected {:?}", other),
    }
    assert_eq!(w.hook_calls, 0);
    assert_eq!(w.next_index, 7);
}

#[test]
fn only_unknown_coins_fail_on_the_first() {
    let mut w = wallet(&[100_000], 546);
    let r = w.construct_psbt(vec![outpoint(5), outpoint(6)], vec![], TxParams::with(0));
    assert!(matches!(r, Err(ConstructionError::UnknownInput(o)) if o == outpoint(5)));
}

#[test]
fn foreign_network_is_named() {
    let mut w = wallet(&[100_000], 546);
    let foreign = Beneficiary::new(address(AddressNetwork::Testnet, 9), Payment::Fixed(1_000));
    let bs = vec![fixed(1, 1_000), foreign, fixed(2, 1_000)];
    match w.construct_psbt(vec![outpoint(1)], bs, TxParams::with(1_000)) {
        Err(ConstructionError::NetworkMismatch(a)) => {
            assert_eq!(a.network, AddressNetwork::Testnet);
            assert_eq!(a.script_pubkey.bytes, spk(9).bytes);
        }
        other => panic!("unexpected {:?}", other),
    }
}

#[test]
fn outputs_beyond_inputs() {
    let mut w = wallet(&[100_000], 546);
    let r = w.construct_psbt(vec![outpoint(1)], vec![fixed(1, 100_001)], TxParams::with(0));
    match r {
        Err(ConstructionError::OutputExceedsInputs { input_value, output_value }) => {
            assert_eq!((input_value, output_value), (100_000, 100_001));
        }
        other => panic!("unexpected {:?}", other),
    }
}

#[test]
fn fee_beyond_what_remains() {
    let mut w = wallet(&[100_000], 546);
    let r = w.construct_psbt(vec![outpoint(1)], vec![fixed(1, 99_500)], TxParams::with(1_000));
    match r {
        Err(ConstructionError::NoFundsForFee { input_value, output_value, fee }) => {
            assert_eq!((input_value, output_value, fee), (100_000, 99_500, 1_000));
        }
        other => panic!("unexpected {:?}", other),
    }
}

#[test]
fn exact_accounting_with_change() {
    let mut w = wallet(&[60_000, 40_000], 546);
    let (psbt, meta) = w
        .construct_psbt(vec![outpoint(1), outpoint(2)], vec![fixed(1, 50_000)], TxParams::with(1_000))
        .unwrap();
    assert_eq!(meta.fee, 1_000);
    let change = meta.change.expect("change output");
    assert_eq!(change.vout, 1);
    assert_eq!(change.terminal, Terminal { keychain: Keychain(1), index: 7 });
    assert_eq!(psbt.outputs.len(), 2);
    assert_eq!(psbt.outputs[0].amount, 50_000);
    assert_eq!(psbt.outputs[1].amount, 49_000);
    assert_eq!(psbt.outputs[1].change_terminal, Some(change.terminal));
    assert_eq!(psbt.outputs[1].script_pubkey.bytes, vec![0x51, 1, 7]);
    assert_eq!(meta.network, AddressNetwork::Mainnet);
    assert_eq!((meta.weight, meta.size), (0, 0));
    assert_eq!(psbt.tx_version, 2);
    assert_eq!(psbt.xpubs.len(), 1);
    assert_eq!(w.next_index, 8);
    assert_eq!(w.hook_calls, 1);
}

#[test]
fn change_without_shift_keeps_index() {
    let mut w = wallet(&[100_000], 546);
    let mut params = TxParams::with(1_000);
    params.change_shift = false;
    let (_, meta) = w.construct_psbt(vec![outpoint(1)], vec![fixed(1, 50_000)], params).unwrap();
    assert_eq!(meta.change.unwrap().terminal.index, 7);
    assert_eq!(w.next_index, 7);
}

#[test]
fn dust_is_absorbed_into_fee() {
    let mut w = wallet(&[100_000], 700);
    let (psbt, meta) =
        w.construct_psbt(vec![outpoint(1)], vec![fixed(1, 98_400)], TxParams::with(1_000)).unwrap();
    assert!(meta.change.is_none());
    assert_eq!(meta.fee, 1_000);
    assert_eq!(psbt.outputs.len(), 1);
    assert_eq!(psbt.outputs[0].amount, 98_400);
    assert_eq!(w.next_index, 7);
}

#[test]
fn remainder_equal_to_dust_limit_makes_no_change() {
    let mut w = wallet(&[100_000], 546);
    let (_, meta) =
        w.construct_psbt(vec![outpoint(1)], vec![fixed(1, 98_454)], TxParams::with(1_000)).unwrap();
    assert!(meta.change.is_none());
}

#[test]
fn two_max_beneficiaries_split_evenly() {
    let mut w = wallet(&[100_000], 546);
    let (psbt, meta) =
        w.construct_psbt(vec![outpoint(1)], vec![max(1), max(2)], TxParams::with(1_000)).unwrap();
    assert_eq!(psbt.outputs.len(), 2);
    assert_eq!(psbt.outputs[0].amount, 49_500);
    assert_eq!(psbt.outputs[1].amount, 49_500);
    assert!(meta.change.is_none());
}

#[test]
fn three_max_beneficiaries_split_evenly() {
    let mut w = wallet(&[100_000], 546);
    let (psbt, _) = w
        .construct_psbt(vec![outpoint(1)], vec![max(1), max(2), max(3)], TxParams::with(1_000))
        .unwrap();
    let amounts: Vec<Sats> = psbt.outputs.iter().map(|o| o.amount).collect();
    assert_eq!(amounts, vec![33_000, 33_000, 33_000]);
}

#[test]
fn max_share_rounds_down_and_makes_no_change() {
    let mut w = wallet(&[1_101], 0);
    let (psbt, meta) = w
        .construct_psbt(vec![outpoint(1)], vec![max(1), max(2)], TxParams::with(1_000))
        .unwrap();
    assert_eq!(psbt.outputs[0].amount, 50);
    assert_eq!(psbt.outputs[1].amount, 50);
    assert!(meta.change.is_none());
}

#[test]
fn max_beside_fixed_takes_the_rest() {
    let mut w = wallet(&[100_000], 546);
    let (psbt, meta) = w
        .construct_psbt(vec![outpoint(1)], vec![fixed(1, 30_000), max(2)], TxParams::with(1_000))
        .unwrap();
    assert_eq!(psbt.outputs[0].amount, 30_000);
    assert_eq!(psbt.outputs[1].amount, 69_000);
    assert!(meta.change.is_none());
}

#[test]
fn sum_past_supply_overflows() {
    let mut w = wallet(&[100_000], 546);
    let bs = vec![fixed(1, MAX_SATS), fixed(2, 1)];
    match w.construct_psbt(vec![outpoint(1)], bs, TxParams::with(0)) {
        Err(ConstructionError::Overflow(partial)) => assert_eq!(partial, MAX_SATS),
        other => panic!("unexpected {:?}", other),
    }
    assert_eq!(w.hook_calls, 0);
}

#[test]
fn sum_past_u64_overflows() {
    let mut w = wallet(&[100_000], 546);
    let bs = vec![fixed(1, 5), fixed(2, u64::MAX)];
    let r = w.construct_psbt(vec![outpoint(1)], bs, TxParams::with(0));
    assert!(matches!(r, Err(ConstructionError::Overflow(5))));
}

#[test]
fn input_phase_alone() {
    let lookups = vec![
        CoinLookup { outpoint: outpoint(1), prev_tx: None, utxo: None },
    ];
    assert!(matches!(add_inputs(&lookups, 0), Err(ConstructionError::UnknownInput(_))));
    let u = Utxo { outpoint: outpoint(3), value: 10, terminal: Terminal { keychain: Keychain(0), index: 0 } };
    let known = CoinLookup { outpoint: outpoint(3), prev_tx: Some(RawTx { bytes: vec![1] }), utxo: Some((u, spk(3))) };
    let (inputs, value) = add_inputs(&vec![known.clone(), known], 0xffff_fffe).unwrap();
    assert_eq!(inputs.len(), 1);
    assert_eq!(value, 10);
    assert_eq!(inputs[0].seq_no, 0xffff_fffe);
    assert_eq!(inputs[0].prev_tx.bytes, vec![1]);
}

#[test]
fn output_phase_alone() {
    let bs = vec![fixed(1, 10), max(2), fixed(3, 20)];
    let (total, count) = check_outputs(&bs, AddressNetwork::Mainnet).unwrap();
    assert_eq!((total, count), (30, 1));
    let outputs = make_outputs(&bs, 7);
    let amounts: Vec<Sats> = outputs.iter().map(|o| o.amount).collect();
    assert_eq!(amounts, vec![10, 7, 20]);
    assert_eq!(outputs[2].script_pubkey.bytes, spk(3).bytes);
}

#[test]
fn draft_reports_change_due() {
    let u = Utxo { outpoint: outpoint(3), value: 10_000, terminal: Terminal { keychain: Keychain(0), index: 0 } };
    let known = CoinLookup { outpoint: outpoint(3), prev_tx: Some(RawTx { bytes: vec![1] }), utxo: Some((u, spk(3))) };
    let (psbt, change) =
        build_draft(&vec![known], &vec![fixed(1, 4_000)], &TxParams::with(500), AddressNetwork::Mainnet, vec![], 546)
            .unwrap();
    assert_eq!(change, Some(5_500));
    assert_eq!(psbt.outputs.len(), 1);
}

#[test]
fn inputs_past_supply_overflow() {
    let mut w = wallet(&[MAX_SATS, 1], 546);
    let r = w.construct_psbt(vec![outpoint(1), outpoint(2)], vec![max(1)], TxParams::with(0));
    assert!(matches!(r, Err(ConstructionError::Overflow(v)) if v == MAX_SATS));
}

#[test]
fn whole_supply_in_one_coin_is_spendable() {
    let mut w = wallet(&[MAX_SATS], 546);
    let (psbt, meta) =
        w.construct_psbt(vec![outpoint(1)], vec![fixed(1, MAX_SATS - 10)], TxParams::with(10)).unwrap();
    assert_eq!(psbt.outputs[0].amount, MAX_SATS - 10);
    assert!(meta.change.is_none());
}

#[test]
fn fixed_payment_leaving_less_than_fee() {
    let mut w = wallet(&[100_000], 700);
    let r = w.construct_psbt(vec![outpoint(1)], vec![fixed(1, 99_400)], TxParams::with(1_000));
    assert!(matches!(
        r,
        Err(ConstructionError::NoFundsForFee { input_value: 100_000, output_value: 99_400, fee: 1_000 })
    ));
}

#[test]
fn remaining_hundred_split_between_two() {
    let mut w = wallet(&[1_100], 0);
    let (psbt, meta) = w
        .construct_psbt(vec![outpoint(1)], vec![max(1), max(2)], TxParams::with(1_000))
        .unwrap();
    assert_eq!(psbt.outputs.len(), 2);
    assert_eq!((psbt.outputs[0].amount, psbt.outputs[1].amount), (50, 50));
    assert!(meta.change.is_none());
}

#[test]
fn empty_coin_list_wins_over_bad_beneficiaries() {
    let mut w = wallet(&[100_000], 546);
    let foreign = Beneficiary::new(address(AddressNetwork::Regtest, 9), Payment::Fixed(u64::MAX));
    let r = w.construct_psbt(vec![], vec![foreign, fixed(1, u64::MAX)], TxParams::with(1_000));
    assert!(matches!(r, Err(ConstructionError::NoInputs)));
    assert_eq!((w.hook_calls, w.next_index), (0, 7));
}

#[test]
fn unknown_coin_named_even_past_supply() {
    let mut w = wallet(&[MAX_SATS, 1], 546);
    let coins = vec![outpoint(1), outpoint(2), outpoint(9)];
    let r = w.construct_psbt(coins, vec![fixed(1, 1)], TxParams::with(0));
    assert!(matches!(r, Err(ConstructionError::UnknownInput(o)) if o == outpoint(9)));
}
