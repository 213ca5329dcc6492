use vstd::prelude::*;

use crate::model::{
    Address, AddressNetwork, Keychain, Network, Outpoint, RawTx, Sats,
    ScriptPubkey, Terminal, Txid, Utxo, XpubSpec, MAX_SATS,
};
use crate::laws::{lemma_accounting, lemma_inputs_unique, lemma_no_coins_no_inputs};
use crate::payment::{fixed_amount, Beneficiary, Payment};
use crate::psbt::{
    ChangeInfo, ConstructionError, Input, Output, Psbt, PsbtMeta, TxParams, DRAFT_TX_VERSION,
};

verus! {

/// What the wallet answered for one requested coin: the previous transaction
/// that created it and its UTXO record with locking script.
#[derive(Clone, Debug)]
pub struct CoinLookup {
    pub outpoint: Outpoint,
    pub prev_tx: Option<RawTx>,
    pub utxo: Option<(Utxo, ScriptPubkey)>,
}

/// The wallet knows the coin: it has both its previous transaction and its
/// UTXO record.
pub open spec fn is_resolved(l: CoinLookup) -> bool {
    l.prev_tx is Some && l.utxo is Some
}

/// The outpoint that the wallet's UTXO record of a resolved coin names.
pub open spec fn coin_outpoint(l: CoinLookup) -> Outpoint {
    l.utxo.unwrap().0.outpoint
}

/// The value that the wallet's UTXO record of a resolved coin holds.
pub open spec fn coin_value(l: CoinLookup) -> nat {
    l.utxo.unwrap().0.value as nat
}

/// Whether one of the coins of `ls` at the positions `kept` spends `o`.
pub open spec fn spends(ls: Seq<CoinLookup>, kept: Seq<int>, o: Outpoint) -> bool {
    exists|j: int| 0 <= j < kept.len() && coin_outpoint(#[trigger] ls[kept[j]]) == o
}

/// The coins of `ls` that become inputs, by position, or the first coin the
/// wallet does not know. A coin whose outpoint an earlier input already
/// spends is skipped.
pub open spec fn select_coins(ls: Seq<CoinLookup>) -> Result<Seq<int>, ConstructionError>
    decreases ls.len(),
{
    if ls.len() == 0 {
        Ok(seq![])
    } else {
        let n = ls.len() - 1;
        match select_coins(ls.take(n)) {
            Err(e) => Err(e),
            Ok(kept) => {
                let l = ls[n];
                if !is_resolved(l) {
                    Err(ConstructionError::UnknownInput(l.outpoint))
                } else if spends(ls, kept, coin_outpoint(l)) {
                    Ok(kept)
                } else {
                    Ok(kept.push(n))
                }
            },
        }
    }
}

/// The total value of the coins of `ls` at the positions `kept`, summed in
/// order, or the running total before the addition that passes the supply.
pub open spec fn kept_total(ls: Seq<CoinLookup>, kept: Seq<int>) -> Result<nat, ConstructionError>
    decreases kept.len(),
{
    if kept.len() == 0 {
        Ok(0)
    } else {
        match kept_total(ls, kept.drop_last()) {
            Err(e) => Err(e),
            Ok(total) => {
                let value = coin_value(ls[kept.last()]);
                if total + value > MAX_SATS {
                    Err(ConstructionError::Overflow(total as u64))
                } else {
                    Ok(total + value)
                }
            },
        }
    }
}

/// The input phase over the coin lookups `ls`: every coin is resolved and
/// de-duplicated first, then the inputs are summed. Gives the positions of
/// the coins that become inputs and their total value, or the first failure.
pub open spec fn resolve_coins(ls: Seq<CoinLookup>) -> Result<(Seq<int>, nat), ConstructionError> {
    match select_coins(ls) {
        Err(e) => Err(e),
        Ok(kept) => match kept_total(ls, kept) {
            Err(e) => Err(e),
            Ok(total) => Ok((kept, total)),
        },
    }
}

/// Input `inp` spends the resolved coin `l` with sequence number `seq_no`.
pub open spec fn input_from(inp: Input, l: CoinLookup, seq_no: u32) -> bool {
    &&& is_resolved(l)
    &&& inp.previous_outpoint == l.utxo.unwrap().0.outpoint
    &&& inp.value == l.utxo.unwrap().0.value
    &&& inp.terminal == l.utxo.unwrap().0.terminal
    &&& inp.script_pubkey.bytes@ == l.utxo.unwrap().1.bytes@
    &&& inp.prev_tx.bytes@ == l.prev_tx->0.bytes@
    &&& inp.seq_no == seq_no
}

/// The sum of the fixed amounts of `bs`, or the first failure: a beneficiary
/// on another network than `net`, or a running total past the supply.
pub open spec fn fixed_total(bs: Seq<Beneficiary>, net: AddressNetwork) -> Result<
    nat,
    ConstructionError,
>
    decreases bs.len(),
{
    if bs.len() == 0 {
        Ok(0)
    } else {
        let n = bs.len() - 1;
        match fixed_total(bs.take(n), net) {
            Err(e) => Err(e),
            Ok(total) => {
                let b = bs[n];
                if b.address.network != net {
                    Err(ConstructionError::NetworkMismatch(b.address))
                } else if total + fixed_amount(b.amount) > MAX_SATS {
                    Err(ConstructionError::Overflow(total as u64))
                } else {
                    Ok(total + fixed_amount(b.amount) as nat)
                }
            },
        }
    }
}

/// The number of beneficiaries of `bs` that take what remains.
pub open spec fn max_count(bs: Seq<Beneficiary>) -> nat
    decreases bs.len(),
{
    if bs.len() == 0 {
        0
    } else {
        max_count(bs.take(bs.len() - 1)) + if bs.last().amount is Max {
            1nat
        } else {
            0nat
        }
    }
}

/// Output `o` pays beneficiary `b`, a remainder taker getting `share`.
pub open spec fn output_for(o: Output, b: Beneficiary, share: nat) -> bool {
    &&& o.script_pubkey.bytes@ == b.address.script_pubkey.bytes@
    &&& o.amount == if b.amount is Max {
        share
    } else {
        fixed_amount(b.amount) as nat
    }
    &&& o.change_terminal is None
}

/// The sum of the values of `inputs`.
pub open spec fn inputs_total(inputs: Seq<Input>) -> nat
    decreases inputs.len(),
{
    if inputs.len() == 0 {
        0
    } else {
        inputs_total(inputs.drop_last()) + inputs.last().value as nat
    }
}

/// The sum of the amounts of `outs`.
pub open spec fn outputs_total(outs: Seq<Output>) -> nat
    decreases outs.len(),
{
    if outs.len() == 0 {
        0
    } else {
        outputs_total(outs.drop_last()) + outs.last().amount as nat
    }
}

/// Two errors are the same failure; addresses compare by network and script.
pub open spec fn same_error(a: ConstructionError, b: ConstructionError) -> bool {
    match (a, b) {
        (ConstructionError::NetworkMismatch(x), ConstructionError::NetworkMismatch(y)) => {
            x.network == y.network && x.script_pubkey.bytes@ == y.script_pubkey.bytes@
        },
        _ => a == b,
    }
}


/// An unknown coin among a prefix of the coins is the failure of the whole
/// selection.
pub(crate) proof fn lemma_resolve_failure_stays(ls: Seq<CoinLookup>, m: int)
    requires
        0 <= m <= ls.len(),
        select_coins(ls.take(m)) is Err,
    ensures
        select_coins(ls) == select_coins(ls.take(m)),
    decreases ls.len() - m,
{
    if m < ls.len() {
        assert(ls.take(m + 1).take(m) =~= ls.take(m));
        lemma_resolve_failure_stays(ls, m + 1);
    } else {
        assert(ls.take(m) =~= ls);
    }
}

/// A failure of the sum over a prefix of the kept coins is the failure of
/// the whole sum.
proof fn lemma_kept_total_failure_stays(ls: Seq<CoinLookup>, kept: Seq<int>, m: int)
    requires
        0 <= m <= kept.len(),
        kept_total(ls, kept.take(m)) is Err,
    ensures
        kept_total(ls, kept) == kept_total(ls, kept.take(m)),
    decreases kept.len() - m,
{
    if m < kept.len() {
        assert(kept.take(m + 1).drop_last() =~= kept.take(m));
        lemma_kept_total_failure_stays(ls, kept, m + 1);
    } else {
        assert(kept.take(m) =~= kept);
    }
}

/// The input phase: turns the wallet's answers for the requested coins into
/// inputs, in order, skipping coins already spent by an earlier input.
#[verifier::loop_isolation(false)]
pub fn add_inputs(coins: &Vec<CoinLookup>, seq_no: u32) -> (r: Result<
    (Vec<Input>, Sats),
    ConstructionError,
>)
    ensures
        match resolve_coins(coins@) {
            Err(e) => r matches Err(e2) && e2 == e,
            Ok((kept, total)) => r matches Ok((inputs, value)) && {
                &&& value == total
                &&& inputs_total(inputs@) == total
                &&& inputs.len() == kept.len()
                &&& forall|j: int| 0 <= j < kept.len() ==> 0 <= #[trigger] kept[j] < coins.len()
                &&& forall|j: int|
                    0 <= j < kept.len() ==> input_from(
                        #[trigger] inputs[j],
                        coins@[kept[j]],
                        seq_no,
                    )
            },
        },
{
    let mut inputs: Vec<Input> = Vec::new();
    let ghost mut kept: Seq<int> = seq![];
    let mut i: usize = 0;
    while i < coins.len()
        invariant
            0 <= i <= coins.len(),
            select_coins(coins@.take(i as int)) == Ok::<Seq<int>, ConstructionError>(kept),
            inputs.len() == kept.len(),
            forall|j: int| 0 <= j < kept.len() ==> 0 <= #[trigger] kept[j] < i,
            forall|j: int|
                0 <= j < kept.len() ==> input_from(#[trigger] inputs[j], coins@[kept[j]], seq_no),
        decreases coins.len() - i,
    {
        let coin = &coins[i];
        proof {
            assert(coins@.take(i + 1).take(i as int) =~= coins@.take(i as int));
        }
        let (prev_tx, utxo, spk) = match (&coin.prev_tx, &coin.utxo) {
            (Some(tx), Some(pair)) => (tx, pair.0, &pair.1),
            _ => {
                proof {
                    lemma_resolve_failure_stays(coins@, i + 1);
                }
                return Err(ConstructionError::UnknownInput(coin.outpoint));
            },
        };
        let mut dup = false;
        let mut j: usize = 0;
        while j < inputs.len()
            invariant
                0 <= j <= inputs.len(),
                dup <==> exists|k: int|
                    0 <= k < j && (#[trigger] inputs[k]).previous_outpoint == utxo.outpoint,
            decreases inputs.len() - j,
        {
            if inputs[j].previous_outpoint == utxo.outpoint {
                dup = true;
            }
            j += 1;
        }
        proof {
            let ls = coins@.take(i + 1);
            if dup {
                let k = choose|k: int|
                    0 <= k < j && (#[trigger] inputs[k]).previous_outpoint == utxo.outpoint;
                assert(ls[kept[k]] == coins@[kept[k]]);
                assert(spends(ls, kept, coin_outpoint(ls[i as int])));
            } else {
                assert forall|k: int| 0 <= k < kept.len() implies coin_outpoint(
                    #[trigger] ls[kept[k]],
                ) != utxo.outpoint by {
                    assert(input_from(inputs[k], coins@[kept[k]], seq_no));
                    assert(ls[kept[k]] == coins@[kept[k]]);
                }
            }
        }
        if !dup {
            let spk_bytes = spk.bytes.clone();
            let tx_bytes = prev_tx.bytes.clone();
            assert(spk_bytes@ == spk.bytes@);
            assert(tx_bytes@ == prev_tx.bytes@);
            let input = Input {
                previous_outpoint: utxo.outpoint,
                value: utxo.value,
                terminal: utxo.terminal,
                script_pubkey: ScriptPubkey { bytes: spk_bytes },
                prev_tx: RawTx { bytes: tx_bytes },
                seq_no,
            };
            assert(input_from(input, coins@[i as int], seq_no));
            let ghost before = inputs@;
            inputs.push(input);
            proof {
                assert(inputs@.drop_last() =~= before);
                kept = kept.push(i as int);
                assert forall|j: int| 0 <= j < kept.len() implies input_from(
                    #[trigger] inputs[j],
                    coins@[kept[j]],
                    seq_no,
                ) by {
                    if j < kept.len() - 1 {
                        assert(inputs[j] == before[j]);
                    }
                }
            }
        }
        i += 1;
    }
    proof {
        assert(coins@.take(coins.len() as int) =~= coins@);
    }
    let mut total: u64 = 0;
    let mut j: usize = 0;
    while j < inputs.len()
        invariant
            0 <= j <= inputs.len(),
            select_coins(coins@) == Ok::<Seq<int>, ConstructionError>(kept),
            kept_total(coins@, kept.take(j as int)) == Ok::<nat, ConstructionError>(total as nat),
            inputs_total(inputs@.take(j as int)) == total,
            total <= MAX_SATS,
        decreases inputs.len() - j,
    {
        proof {
            assert(kept.take(j + 1).drop_last() =~= kept.take(j as int));
            assert(inputs@.take(j + 1).drop_last() =~= inputs@.take(j as int));
            assert(input_from(inputs[j as int], coins@[kept[j as int]], seq_no));
        }
        let value = inputs[j].value;
        if value > MAX_SATS - total {
            proof {
                lemma_kept_total_failure_stays(coins@, kept, j + 1);
            }
            return Err(ConstructionError::Overflow(total));
        }
        total = total + value;
        j += 1;
    }
    proof {
        assert(kept.take(kept.len() as int) =~= kept);
        assert(inputs@.take(inputs.len() as int) =~= inputs@);
    }
    Ok((inputs, total))
}

/// A failure of the output checks on a prefix of the beneficiaries is their
/// failure on all of them.
pub(crate) proof fn lemma_fixed_total_failure_stays(
    bs: Seq<Beneficiary>,
    net: AddressNetwork,
    m: int,
)
    requires
        0 <= m <= bs.len(),
        fixed_total(bs.take(m), net) is Err,
    ensures
        fixed_total(bs, net) == fixed_total(bs.take(m), net),
    decreases bs.len() - m,
{
    if m < bs.len() {
        assert(bs.take(m + 1).take(m) =~= bs.take(m));
        lemma_fixed_total_failure_stays(bs, net, m + 1);
    } else {
        assert(bs.take(m) =~= bs);
    }
}

/// The checks of the output phase: every beneficiary is on `network` and
/// the fixed amounts, summed in order, stay within the supply. Returns that
/// sum and the number of beneficiaries that take what remains.
pub fn check_outputs(beneficiaries: &Vec<Beneficiary>, network: AddressNetwork) -> (r: Result<
    (Sats, usize),
    ConstructionError,
>)
    ensures
        match fixed_total(beneficiaries@, network) {
            Err(e) => r matches Err(e2) && same_error(e2, e),
            Ok(total) => {
                &&& max_count(beneficiaries@) <= beneficiaries.len()
                &&& r == Ok::<(Sats, usize), ConstructionError>(
                    (total as u64, max_count(beneficiaries@) as usize),
                )
            },
        },
{
    let mut total: u64 = 0;
    let mut count: usize = 0;
    let mut i: usize = 0;
    while i < beneficiaries.len()
        invariant
            0 <= i <= beneficiaries.len(),
            fixed_total(beneficiaries@.take(i as int), network) == Ok::<nat, ConstructionError>(
                total as nat,
            ),
            max_count(beneficiaries@.take(i as int)) == count,
            total <= MAX_SATS,
            count <= i,
        decreases beneficiaries.len() - i,
    {
        let b = &beneficiaries[i];
        proof {
            let next = beneficiaries@.take(i + 1);
            assert(next.take(i as int) =~= beneficiaries@.take(i as int));
            assert(next[i as int] == b);
            assert(next.last() == b);
        }
        if b.address.network != network {
            proof {
                lemma_fixed_total_failure_stays(beneficiaries@, network, i + 1);
            }
            let bytes = b.address.script_pubkey.bytes.clone();
            return Err(
                ConstructionError::NetworkMismatch(
                    Address { network: b.address.network, script_pubkey: ScriptPubkey { bytes } },
                ),
            );
        }
        let amount = b.amount.unwrap_or(0);
        if amount > MAX_SATS - total {
            proof {
                lemma_fixed_total_failure_stays(beneficiaries@, network, i + 1);
            }
            return Err(ConstructionError::Overflow(total));
        }
        total = total + amount;
        if b.is_max() {
            count = count + 1;
        }
        i += 1;
    }
    proof {
        assert(beneficiaries@.take(beneficiaries.len() as int) =~= beneficiaries@);
    }
    Ok((total, count))
}

/// The outputs paying `beneficiaries` in order, those that take what remains
/// getting `share` each.
pub fn make_outputs(beneficiaries: &Vec<Beneficiary>, share: Sats) -> (r: Vec<Output>)
    ensures
        r.len() == beneficiaries.len(),
        forall|j: int|
            0 <= j < r.len() ==> output_for(#[trigger] r[j], beneficiaries@[j], share as nat),
{
    let mut outputs: Vec<Output> = Vec::new();
    let mut i: usize = 0;
    while i < beneficiaries.len()
        invariant
            0 <= i <= beneficiaries.len(),
            outputs.len() == i,
            forall|j: int|
                0 <= j < i ==> output_for(#[trigger] outputs[j], beneficiaries@[j], share as nat),
        decreases beneficiaries.len() - i,
    {
        let b = &beneficiaries[i];
        let amount = b.amount.unwrap_or(share);
        let output = Output { script_pubkey: b.script_pubkey(), amount, change_terminal: None };
        outputs.push(output);
        i += 1;
    }
    outputs
}

/// The first failure of a construction from the coin lookups `ls`, the
/// beneficiaries `bs`, the wallet's address network `net` and the fee, if
/// there is one. The input phase comes first, then the check that some input
/// is left, then the output checks, then the inputs against the outputs and
/// finally against the outputs and the fee.
pub open spec fn construction_error(
    ls: Seq<CoinLookup>,
    bs: Seq<Beneficiary>,
    net: AddressNetwork,
    fee: u64,
) -> Option<ConstructionError> {
    match resolve_coins(ls) {
        Err(e) => Some(e),
        Ok((kept, input_value)) => if kept.len() == 0 {
            Some(ConstructionError::NoInputs)
        } else {
            match fixed_total(bs, net) {
                Err(e) => Some(e),
                Ok(output_value) => if input_value < output_value {
                    Some(
                        ConstructionError::OutputExceedsInputs {
                            input_value: input_value as u64,
                            output_value: output_value as u64,
                        },
                    )
                } else if input_value - output_value < fee {
                    Some(
                        ConstructionError::NoFundsForFee {
                            input_value: input_value as u64,
                            output_value: output_value as u64,
                            fee,
                        },
                    )
                } else {
                    None
                },
            }
        },
    }
}

/// What the inputs hold beyond the fixed outputs and the fee.
pub open spec fn remaining_value(
    ls: Seq<CoinLookup>,
    bs: Seq<Beneficiary>,
    net: AddressNetwork,
    fee: u64,
) -> int {
    match (resolve_coins(ls), fixed_total(bs, net)) {
        (Ok((_, input_value)), Ok(output_value)) => input_value - output_value - fee,
        _ => 0,
    }
}

/// What each beneficiary that takes the remainder receives: an equal share,
/// rounded down.
pub open spec fn max_share(remaining: int, bs: Seq<Beneficiary>) -> nat {
    if max_count(bs) > 0 {
        (remaining / (max_count(bs) as int)) as nat
    } else {
        0
    }
}

/// The amount of the change output that is due, if one is: only where no
/// beneficiary takes the remainder and the remainder is above the dust limit.
pub open spec fn change_due(remaining: int, bs: Seq<Beneficiary>, dust_limit: u64) -> Option<u64> {
    if max_count(bs) == 0 && remaining > dust_limit {
        Some(remaining as u64)
    } else {
        None
    }
}

/// `psbt` is the draft, before any change, that spends the coins of `ls`
/// and pays `bs`, each remainder taker getting `share`.
pub open spec fn draft_of(
    psbt: Psbt,
    ls: Seq<CoinLookup>,
    bs: Seq<Beneficiary>,
    params: TxParams,
    xpubs: Seq<XpubSpec>,
    share: nat,
) -> bool {
    &&& psbt.tx_version == DRAFT_TX_VERSION
    &&& psbt.fallback_locktime == params.lock_time
    &&& psbt.xpubs@ == xpubs
    &&& resolve_coins(ls) matches Ok((kept, total)) && {
        &&& inputs_total(psbt.inputs@) == total
        &&& psbt.inputs.len() == kept.len()
        &&& forall|j: int|
            0 <= j < kept.len() ==> input_from(
                #[trigger] psbt.inputs[j],
                ls[kept[j]],
                params.seq_no,
            )
    }
    &&& psbt.outputs.len() == bs.len()
    &&& forall|j: int| 0 <= j < bs.len() ==> output_for(#[trigger] psbt.outputs[j], bs[j], share)
}

/// The construction up to the change output: inputs, outputs, and the share
/// of each remainder taker. Returns the draft and the change amount that is
/// due, or the first failure.
pub fn build_draft(
    coins: &Vec<CoinLookup>,
    beneficiaries: &Vec<Beneficiary>,
    params: &TxParams,
    network: AddressNetwork,
    xpubs: Vec<XpubSpec>,
    dust_limit: Sats,
) -> (r: Result<(Psbt, Option<Sats>), ConstructionError>)
    ensures
        match construction_error(coins@, beneficiaries@, network, params.fee) {
            Some(e) => r matches Err(e2) && same_error(e2, e),
            None => r matches Ok((psbt, change)) && {
                let remaining = remaining_value(coins@, beneficiaries@, network, params.fee);
                &&& draft_of(
                    psbt,
                    coins@,
                    beneficiaries@,
                    *params,
                    xpubs@,
                    max_share(remaining, beneficiaries@),
                )
                &&& change == change_due(remaining, beneficiaries@, dust_limit)
            },
        },
{
    let (inputs, input_value) = match add_inputs(coins, params.seq_no) {
        Ok(found) => found,
        Err(e) => return Err(e),
    };
    if inputs.len() == 0 {
        return Err(ConstructionError::NoInputs);
    }
    let (output_value, max_outputs) = match check_outputs(beneficiaries, network) {
        Ok(checked) => checked,
        Err(e) => return Err(e),
    };
    if input_value < output_value {
        return Err(ConstructionError::OutputExceedsInputs { input_value, output_value });
    }
    if input_value - output_value < params.fee {
        return Err(ConstructionError::NoFundsForFee { input_value, output_value, fee: params.fee });
    }
    let remaining = input_value - output_value - params.fee;
    let share: Sats = if max_outputs > 0 {
        remaining / (max_outputs as u64)
    } else {
        0
    };
    let outputs = make_outputs(beneficiaries, share);
    let change = if max_outputs == 0 && remaining > dust_limit {
        Some(remaining)
    } else {
        None
    };
    let psbt = Psbt {
        tx_version: DRAFT_TX_VERSION,
        fallback_locktime: params.lock_time,
        xpubs,
        inputs,
        outputs,
    };
    Ok((psbt, change))
}

/// Appends the change output, paying `amount` to `script_pubkey` derived at
/// `terminal`, and tells where it stands.
pub fn attach_change(
    psbt: &mut Psbt,
    terminal: Terminal,
    script_pubkey: ScriptPubkey,
    amount: Sats,
) -> (r: ChangeInfo)
    requires
        old(psbt).outputs.len() < u32::MAX,
    ensures
        r.vout == old(psbt).outputs.len(),
        r.terminal == terminal,
        final(psbt).outputs@ == old(psbt).outputs@.push(
            Output { script_pubkey, amount, change_terminal: Some(terminal) },
        ),
        final(psbt).inputs == old(psbt).inputs,
        final(psbt).xpubs == old(psbt).xpubs,
        final(psbt).tx_version == old(psbt).tx_version,
        final(psbt).fallback_locktime == old(psbt).fallback_locktime,
{
    let vout = psbt.outputs.len() as u32;
    psbt.outputs.push(Output { script_pubkey, amount, change_terminal: Some(terminal) });
    ChangeInfo { vout, terminal }
}

/// The wallet a draft is built for: where coins are looked up, which network
/// it runs on, what its descriptor knows, and where change keys come from.
pub trait PsbtConstructor {
    /// The previous transaction with id `txid`, if the wallet has it.
    fn prev_tx(&self, txid: Txid) -> Option<RawTx>;

    /// The wallet's record of the coin at `outpoint` and its locking script.
    fn utxo(&self, outpoint: Outpoint) -> Option<(Utxo, ScriptPubkey)>;

    fn network(&self) -> Network;

    /// The extended public keys of the descriptor, with their origins.
    fn xpubs(&self) -> Vec<XpubSpec>;

    /// The dust limit of the descriptor's script class.
    fn dust_limit(&self) -> Sats;

    /// The locking script the descriptor derives at `terminal`.
    fn derive_script(&self, terminal: Terminal) -> ScriptPubkey;

    /// The next unused index on `keychain`; with `shift` the wallet also
    /// advances its counter, without it the counter stays where it is.
    fn next_derivation_index(&mut self, keychain: Keychain, shift: bool) -> u32;

    /// Builds the draft spending `coins` and paying `beneficiaries`, with
    /// change where enough remains. The wallet's answers decide the outcome
    /// as `build_draft` states; the hook runs once, after success only.
    fn construct_psbt(
        &mut self,
        coins: Vec<Outpoint>,
        beneficiaries: Vec<Beneficiary>,
        params: TxParams,
    ) -> (r: Result<(Psbt, PsbtMeta), ConstructionError>)
        requires
            beneficiaries.len() < u32::MAX,
        ensures
            coins.len() == 0 ==> r matches Err(ConstructionError::NoInputs),
            r matches Ok((psbt, meta)) ==> {
                &&& meta.fee == params.fee
                &&& meta.weight == 0
                &&& meta.size == 0
                &&& psbt.tx_version == DRAFT_TX_VERSION
                &&& psbt.fallback_locktime == params.lock_time
                &&& psbt.inputs.len() > 0
                &&& outputs_total(psbt.outputs@) + params.fee <= inputs_total(psbt.inputs@)
                &&& meta.change is Some ==> outputs_total(psbt.outputs@) + params.fee
                    == inputs_total(psbt.inputs@)
                &&& forall|j: int|
                    0 <= j < psbt.inputs.len() ==> (#[trigger] psbt.inputs[j]).seq_no
                        == params.seq_no
                &&& forall|j: int, k: int|
                    0 <= j < k < psbt.inputs.len() ==> (#[trigger] psbt.inputs[j]).previous_outpoint
                        != (#[trigger] psbt.inputs[k]).previous_outpoint
                &&& forall|j: int|
                    0 <= j < beneficiaries.len() ==> {
                        &&& (#[trigger] psbt.outputs[j]).script_pubkey.bytes@
                            == beneficiaries@[j].address.script_pubkey.bytes@
                        &&& psbt.outputs[j].change_terminal is None
                        &&& beneficiaries@[j].amount matches Payment::Fixed(a)
                            ==> psbt.outputs[j].amount == a
                    }
                &&& forall|j: int, k: int|
                    0 <= j < beneficiaries.len() && 0 <= k < beneficiaries.len() && (
                    #[trigger] beneficiaries@[j]).amount is Max && (
                    #[trigger] beneficiaries@[k]).amount is Max ==> psbt.outputs[j].amount
                        == psbt.outputs[k].amount
                &&& max_count(beneficiaries@) > 0 ==> {
                    &&& meta.change is None
                    &&& inputs_total(psbt.inputs@) - outputs_total(psbt.outputs@) - params.fee
                        < max_count(beneficiaries@)
                }
                &&& match meta.change {
                    None => psbt.outputs.len() == beneficiaries.len(),
                    Some(c) => {
                        &&& psbt.outputs.len() == beneficiaries.len() + 1
                        &&& c.vout == beneficiaries.len()
                        &&& c.terminal.keychain == params.change_keychain
                        &&& psbt.outputs[c.vout as int].change_terminal == Some(c.terminal)
                    },
                }
            },
    {
        let mut lookups: Vec<CoinLookup> = Vec::new();
        let mut i: usize = 0;
        while i < coins.len()
            invariant_except_break
                lookups.len() == i,
            invariant
                0 <= i <= coins.len(),
                lookups.len() <= i + 1,
            ensures
                lookups.len() <= coins.len(),
            decreases coins.len() - i,
        {
            let coin = coins[i];
            let prev_tx = self.prev_tx(coin.txid);
            let utxo = match prev_tx {
                Some(_) => self.utxo(coin),
                None => None,
            };
            let known = utxo.is_some();
            lookups.push(CoinLookup { outpoint: coin, prev_tx, utxo });
            if !known {
                break;
            }
            i += 1;
        }
        let network = self.network().address_network();
        let dust_limit = self.dust_limit();
        let xpubs = self.xpubs();
        let ghost xpub_list = xpubs@;
        let (mut psbt, change_due) = match build_draft(
            &lookups,
            &beneficiaries,
            &params,
            network,
            xpubs,
            dust_limit,
        ) {
            Ok(draft) => draft,
            Err(e) => {
                proof {
                    if coins.len() == 0 {
                        lemma_no_coins_no_inputs(beneficiaries@, network, params.fee);
                        assert(lookups@ =~= seq![]);
                    }
                }
                return Err(e);
            },
        };
        proof {
            if coins.len() == 0 {
                lemma_no_coins_no_inputs(beneficiaries@, network, params.fee);
                assert(lookups@ =~= seq![]);
            }
            lemma_accounting(
                psbt,
                lookups@,
                beneficiaries@,
                params,
                xpub_list,
                network,
                dust_limit,
            );
            lemma_inputs_unique(lookups@);
            assert(psbt.inputs.len() > 0);
            assert forall|j: int, k: int| 0 <= j < k < psbt.inputs.len() implies (
            #[trigger] psbt.inputs[j]).previous_outpoint
                != (#[trigger] psbt.inputs[k]).previous_outpoint by {
                let kept = select_coins(lookups@)->Ok_0;
                assert(input_from(psbt.inputs[j], lookups@[kept[j]], params.seq_no));
                assert(input_from(psbt.inputs[k], lookups@[kept[k]], params.seq_no));
            }
        }
        let change = match change_due {
            Some(amount) => {
                let index = self.next_derivation_index(params.change_keychain, params.change_shift);
                let terminal = Terminal::new(params.change_keychain, index);
                let script = self.derive_script(terminal);
                let ghost before = psbt.outputs@;
                let info = attach_change(&mut psbt, terminal, script, amount);
                assert(psbt.outputs@.drop_last() =~= before);
                Some(info)
            },
            None => None,
        };
        let meta = PsbtMeta { network, fee: params.fee, weight: 0, size: 0, change };
        self.after_construct_psbt(&psbt, &meta);
        Ok((psbt, meta))
    }

    /// Runs once after a successful construction, before the draft is
    /// returned, so the wallet can keep what the construction used (the
    /// change index it handed out). It does nothing unless a wallet says so.
    fn after_construct_psbt(&mut self, psbt: &Psbt, meta: &PsbtMeta) {
    }
}

} // verus!
