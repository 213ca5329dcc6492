use vstd::prelude::*;

use crate::constructor::{
    change_due, coin_outpoint, construction_error, draft_of, fixed_total, is_resolved,
    lemma_fixed_total_failure_stays, lemma_resolve_failure_stays, max_count, max_share,
    output_for, outputs_total, remaining_value, resolve_coins, select_coins, kept_total, spends,
    CoinLookup,
};
use crate::model::{AddressNetwork, XpubSpec, MAX_SATS};
use crate::payment::{fixed_amount, Beneficiary};
use crate::psbt::{ConstructionError, Output, Psbt, TxParams};

verus! {

/// A coin list never yields two inputs for one outpoint: the coins that the
/// input phase keeps spend pairwise distinct outpoints, they are kept in the
/// order of the list, each is the first coin of the list that spends its
/// outpoint, and every coin it skips spends the outpoint of a coin it kept.
pub proof fn lemma_inputs_unique(ls: Seq<CoinLookup>)
    ensures
        select_coins(ls) matches Ok(kept) ==> {
            &&& forall|j: int| 0 <= j < kept.len() ==> 0 <= #[trigger] kept[j] < ls.len()
            &&& forall|j: int, k: int|
                0 <= j < k < kept.len() ==> coin_outpoint(#[trigger] ls[kept[j]]) != coin_outpoint(
                    #[trigger] ls[kept[k]],
                )
            &&& forall|i: int|
                0 <= i < ls.len() ==> spends(ls, kept, coin_outpoint(#[trigger] ls[i]))
            &&& forall|j: int, k: int|
                0 <= j < k < kept.len() ==> #[trigger] kept[j] < #[trigger] kept[k]
            &&& forall|j: int, i: int|
                0 <= j < kept.len() && 0 <= i < kept[j] ==> coin_outpoint(#[trigger] ls[i])
                    != coin_outpoint(#[trigger] ls[kept[j]])
        },
    decreases ls.len(),
{
    if ls.len() > 0 {
        let n = ls.len() - 1;
        let p = ls.take(n);
        lemma_inputs_unique(p);
        if let Ok(kept) = select_coins(p) {
            assert forall|j: int| 0 <= j < kept.len() implies p[kept[j]] == ls[kept[j]] by {}
            assert forall|i: int| 0 <= i < n implies spends(
                ls,
                kept,
                coin_outpoint(#[trigger] ls[i]),
            ) by {
                assert(p[i] == ls[i]);
                assert(spends(p, kept, coin_outpoint(p[i])));
                let j = choose|j: int|
                    0 <= j < kept.len() && coin_outpoint(#[trigger] p[kept[j]]) == coin_outpoint(
                        p[i],
                    );
                assert(ls[kept[j]] == p[kept[j]]);
            }
            if let Ok(kept2) = select_coins(ls) {
                if kept2.len() > kept.len() {
                    assert(kept2 == kept.push(n));
                    assert(!spends(ls, kept, coin_outpoint(ls[n])));
                    assert forall|j: int, i: int|
                        0 <= j < kept2.len() && 0 <= i < kept2[j] implies coin_outpoint(
                        #[trigger] ls[i],
                    ) != coin_outpoint(#[trigger] ls[kept2[j]]) by {
                        if j < kept.len() {
                            assert(kept2[j] == kept[j]);
                            assert(p[i] == ls[i]);
                            assert(coin_outpoint(p[i]) != coin_outpoint(p[kept[j]]));
                        } else {
                            assert(kept2[j] == n);
                            assert(spends(ls, kept, coin_outpoint(ls[i])));
                            let m = choose|m: int|
                                0 <= m < kept.len() && coin_outpoint(#[trigger] ls[kept[m]])
                                    == coin_outpoint(ls[i]);
                        }
                    }
                    assert forall|i: int| 0 <= i < ls.len() implies spends(
                        ls,
                        kept2,
                        coin_outpoint(#[trigger] ls[i]),
                    ) by {
                        if i < n {
                            let j = choose|j: int|
                                0 <= j < kept.len() && coin_outpoint(#[trigger] ls[kept[j]])
                                    == coin_outpoint(ls[i]);
                            assert(kept2[j] == kept[j]);
                        } else {
                            assert(kept2[kept.len() as int] == n);
                        }
                    }
                } else {
                    assert(kept2 == kept);
                    assert forall|j: int, i: int|
                        0 <= j < kept2.len() && 0 <= i < kept2[j] implies coin_outpoint(
                        #[trigger] ls[i],
                    ) != coin_outpoint(#[trigger] ls[kept2[j]]) by {
                        assert(p[i] == ls[i]);
                        assert(coin_outpoint(p[i]) != coin_outpoint(p[kept[j]]));
                    }
                }
            }
        }
    }
}

/// With no coins to spend there is no input, whatever is to be paid.
pub proof fn lemma_no_coins_no_inputs(bs: Seq<Beneficiary>, net: AddressNetwork, fee: u64)
    ensures
        construction_error(seq![], bs, net, fee) == Some(ConstructionError::NoInputs),
{
}

/// A coin the wallet does not know fails the construction, naming that
/// coin, when every coin before it is known; the coins after it, and what
/// the known ones hold, do not matter.
pub proof fn lemma_unknown_coin(
    ls: Seq<CoinLookup>,
    i: int,
    bs: Seq<Beneficiary>,
    net: AddressNetwork,
    fee: u64,
)
    requires
        0 <= i < ls.len(),
        !is_resolved(ls[i]),
        forall|k: int| 0 <= k < i ==> is_resolved(#[trigger] ls[k]),
    ensures
        construction_error(ls, bs, net, fee) == Some(
            ConstructionError::UnknownInput(ls[i].outpoint),
        ),
{
    lemma_known_prefix_selects(ls, i);
    assert(ls.take(i + 1).take(i) =~= ls.take(i));
    assert(ls.take(i + 1)[i] == ls[i]);
    lemma_resolve_failure_stays(ls, i + 1);
}

/// A beneficiary on another network than the wallet's fails the
/// construction, naming its address, when the inputs are in order and every
/// beneficiary before it is valid; those after it do not matter.
pub proof fn lemma_network_mismatch(
    ls: Seq<CoinLookup>,
    bs: Seq<Beneficiary>,
    i: int,
    net: AddressNetwork,
    fee: u64,
)
    requires
        resolve_coins(ls) matches Ok((kept, _)) && kept.len() > 0,
        0 <= i < bs.len(),
        fixed_total(bs.take(i), net) is Ok,
        bs[i].address.network != net,
    ensures
        construction_error(ls, bs, net, fee) == Some(
            ConstructionError::NetworkMismatch(bs[i].address),
        ),
{
    assert(bs.take(i + 1).take(i) =~= bs.take(i));
    assert(bs.take(i + 1)[i] == bs[i]);
    lemma_fixed_total_failure_stays(bs, net, i + 1);
}

/// Fixed amounts whose running sum passes the supply fail the construction
/// with the sum before the addition that failed, when the inputs are in order
/// and the beneficiaries before are valid.
pub proof fn lemma_output_overflow(
    ls: Seq<CoinLookup>,
    bs: Seq<Beneficiary>,
    i: int,
    net: AddressNetwork,
    fee: u64,
)
    requires
        resolve_coins(ls) matches Ok((kept, _)) && kept.len() > 0,
        0 <= i < bs.len(),
        fixed_total(bs.take(i), net) is Ok,
        bs[i].address.network == net,
        fixed_total(bs.take(i), net)->Ok_0 + fixed_amount(bs[i].amount) > MAX_SATS,
    ensures
        construction_error(ls, bs, net, fee) == Some(
            ConstructionError::Overflow(fixed_total(bs.take(i), net)->Ok_0 as u64),
        ),
{
    assert(bs.take(i + 1).take(i) =~= bs.take(i));
    assert(bs.take(i + 1)[i] == bs[i]);
    lemma_fixed_total_failure_stays(bs, net, i + 1);
}

/// Outputs beyond the inputs and a fee beyond what the outputs leave are two
/// failures that are never confused.
pub proof fn lemma_insufficiency_order(
    ls: Seq<CoinLookup>,
    bs: Seq<Beneficiary>,
    net: AddressNetwork,
    fee: u64,
)
    requires
        resolve_coins(ls) matches Ok((kept, _)) && kept.len() > 0,
        fixed_total(bs, net) is Ok,
    ensures
        ({
            let input_value = resolve_coins(ls)->Ok_0.1;
            let output_value = fixed_total(bs, net)->Ok_0;
            &&& output_value > input_value ==> construction_error(ls, bs, net, fee) == Some(
                ConstructionError::OutputExceedsInputs {
                    input_value: input_value as u64,
                    output_value: output_value as u64,
                },
            )
            &&& output_value <= input_value < output_value + fee ==> construction_error(
                ls,
                bs,
                net,
                fee,
            ) == Some(
                ConstructionError::NoFundsForFee {
                    input_value: input_value as u64,
                    output_value: output_value as u64,
                    fee,
                },
            )
        }),
{
}

/// Remainder takers share what remains equally, rounded down: together they
/// get no more than remains, what is left over is less than one satoshi per
/// taker and goes to the fee, and no change output is made.
pub proof fn lemma_max_distribution(remaining: int, bs: Seq<Beneficiary>, dust_limit: u64)
    requires
        remaining >= 0,
        max_count(bs) > 0,
    ensures
        max_share(remaining, bs) == remaining / (max_count(bs) as int),
        max_share(remaining, bs) * max_count(bs) <= remaining,
        remaining - max_share(remaining, bs) * max_count(bs) < max_count(bs),
        change_due(remaining, bs, dust_limit) is None,
{
    let count = max_count(bs) as int;
    let share = remaining / count;
    assert(share >= 0) by (nonlinear_arith)
        requires
            remaining >= 0,
            count > 0,
            share == remaining / count,
    ;
    assert(share * count <= remaining && remaining - share * count < count) by (nonlinear_arith)
        requires
            remaining >= 0,
            count > 0,
            share == remaining / count,
    ;
}

/// Outputs that pay `bs`, each remainder taker getting `share`, sum to the
/// fixed amounts and one share per taker.
proof fn lemma_outputs_sum(outs: Seq<Output>, bs: Seq<Beneficiary>, net: AddressNetwork, share: nat)
    requires
        outs.len() == bs.len(),
        forall|j: int| 0 <= j < bs.len() ==> output_for(#[trigger] outs[j], bs[j], share),
        fixed_total(bs, net) is Ok,
    ensures
        outputs_total(outs) == fixed_total(bs, net)->Ok_0 + share * max_count(bs),
    decreases bs.len(),
{
    if bs.len() > 0 {
        let n = bs.len() - 1;
        let front = bs.take(n);
        let outs_front = outs.drop_last();
        assert forall|j: int| 0 <= j < front.len() implies output_for(
            #[trigger] outs_front[j],
            front[j],
            share,
        ) by {
            assert(outs_front[j] == outs[j]);
            assert(front[j] == bs[j]);
            assert(output_for(outs[j], bs[j], share));
        }
        lemma_outputs_sum(outs_front, front, net, share);
        assert(output_for(outs[n], bs[n], share));
        assert(bs.last() == bs[n]);
        let m = max_count(front);
        let ft = fixed_total(front, net)->Ok_0;
        assert(outs.last() == outs[n]);
        assert(outputs_total(outs) == outputs_total(outs_front) + outs[n].amount);
        assert(fixed_total(bs, net)->Ok_0 == ft + fixed_amount(bs[n].amount));
        if bs[n].amount is Max {
            assert(max_count(bs) == m + 1);
            assert(outs[n].amount == share);
            assert(share * (m + 1) == share * m + share) by (nonlinear_arith);
        } else {
            assert(max_count(bs) == m);
            assert(outs[n].amount == fixed_amount(bs[n].amount));
        }
    } else {
        assert(share * 0 == 0);
    }
}

/// Every satoshi of the inputs is accounted for: the outputs of a draft and
/// the fee never exceed the inputs, and what they leave is the change that is
/// due, or, with no change, at most the dust limit where no one takes the
/// rest and less than one satoshi per taker where some do.
pub proof fn lemma_accounting(
    psbt: Psbt,
    ls: Seq<CoinLookup>,
    bs: Seq<Beneficiary>,
    params: TxParams,
    xpubs: Seq<XpubSpec>,
    net: AddressNetwork,
    dust_limit: u64,
)
    requires
        construction_error(ls, bs, net, params.fee) is None,
        draft_of(
            psbt,
            ls,
            bs,
            params,
            xpubs,
            max_share(remaining_value(ls, bs, net, params.fee), bs),
        ),
    ensures
        ({
            let left = resolve_coins(ls)->Ok_0.1 - outputs_total(psbt.outputs@) - params.fee;
            let change = change_due(remaining_value(ls, bs, net, params.fee), bs, dust_limit);
            &&& left >= 0
            &&& change matches Some(c) ==> left == c
            &&& max_count(bs) == 0 && change is None ==> left <= dust_limit
            &&& max_count(bs) > 0 ==> left < max_count(bs)
        }),
{
    let remaining = remaining_value(ls, bs, net, params.fee);
    let share = max_share(remaining, bs);
    assert forall|j: int| 0 <= j < bs.len() implies output_for(
        #[trigger] psbt.outputs@[j],
        bs[j],
        share,
    ) by {
        assert(output_for(psbt.outputs[j], bs[j], share));
    }
    lemma_outputs_sum(psbt.outputs@, bs, net, share);
    lemma_inputs_within_supply(ls, resolve_coins(ls)->Ok_0.0);
    let input_value = resolve_coins(ls)->Ok_0.1;
    let output_value = fixed_total(bs, net)->Ok_0;
    assert(remaining == input_value - output_value - params.fee);
    assert(outputs_total(psbt.outputs@) == output_value + share * max_count(bs));
    if max_count(bs) > 0 {
        lemma_max_distribution(remaining, bs, dust_limit);
    } else {
        assert(share == 0);
        assert(share * max_count(bs) == 0);
    }
}

/// The inputs that the input phase keeps hold no more than the supply.
proof fn lemma_inputs_within_supply(ls: Seq<CoinLookup>, kept: Seq<int>)
    ensures
        kept_total(ls, kept) matches Ok(total) ==> total <= MAX_SATS,
    decreases kept.len(),
{
    if kept.len() > 0 {
        lemma_inputs_within_supply(ls, kept.drop_last());
    }
}

/// Coins that the wallet all knows are selected without failure.
proof fn lemma_known_prefix_selects(ls: Seq<CoinLookup>, i: int)
    requires
        0 <= i <= ls.len(),
        forall|k: int| 0 <= k < i ==> is_resolved(#[trigger] ls[k]),
    ensures
        select_coins(ls.take(i)) is Ok,
    decreases i,
{
    if i > 0 {
        lemma_known_prefix_selects(ls, i - 1);
        assert(ls.take(i).take(i - 1) =~= ls.take(i - 1));
        assert(ls.take(i)[i - 1] == ls[i - 1]);
    }
}

} // verus!
