use vstd::prelude::*;

use crate::model::{Address, AddressNetwork, ScriptPubkey};

verus! {

#[verifier::external_type_specification]
#[verifier::external_body]
pub struct ExParseIntError(std::num::ParseIntError);

#[verifier::external_type_specification]
#[verifier::external_body]
pub struct ExAddressParseError(derive::AddressParseError);

/// Index of the first `@` in `s`, if there is one.
pub open spec fn first_at(s: Seq<char>) -> Option<int>
    decreases s.len(),
{
    if s.len() == 0 {
        None
    } else if s[0] == '@' {
        Some(0)
    } else {
        match first_at(s.drop_first()) {
            Some(i) => Some(i + 1),
            None => None,
        }
    }
}

pub open spec fn is_digit(c: char) -> bool {
    '0' <= c && c <= '9'
}

/// The value of a string of decimal digits.
pub open spec fn digits_value(d: Seq<char>) -> nat
    decreases d.len(),
{
    if d.len() == 0 {
        0
    } else {
        digits_value(d.drop_last()) * 10 + ((d.last() as nat) - ('0' as nat)) as nat
    }
}

/// The digits of an unsigned decimal literal: the text without an optional
/// leading `+`.
pub open spec fn unsigned_digits(s: Seq<char>) -> Seq<char> {
    if s.len() > 0 && s[0] == '+' {
        s.drop_first()
    } else {
        s
    }
}

/// Whether `s` is an unsigned decimal literal whose value fits in 64 bits.
pub open spec fn is_u64_literal(s: Seq<char>) -> bool {
    let d = unsigned_digits(s);
    &&& d.len() > 0
    &&& forall|i: int| 0 <= i < d.len() ==> is_digit(#[trigger] d[i])
    &&& digits_value(d) <= u64::MAX
}

/// Index of the last `1` in `s`: where bech32 text divides its prefix from
/// its data.
pub open spec fn last_one(s: Seq<char>) -> Option<int>
    decreases s.len(),
{
    if s.len() == 0 {
        None
    } else if s.last() == '1' {
        Some(s.len() - 1)
    } else {
        last_one(s.drop_last())
    }
}

/// The value of a bech32 data character, in either case.
pub open spec fn bech32_value(c: char) -> Option<u32> {
    match c {
        'q' | 'Q' => Some(0u32),
        'p' | 'P' => Some(1u32),
        'z' | 'Z' => Some(2u32),
        'r' | 'R' => Some(3u32),
        'y' | 'Y' => Some(4u32),
        '9' => Some(5u32),
        'x' | 'X' => Some(6u32),
        '8' => Some(7u32),
        'g' | 'G' => Some(8u32),
        'f' | 'F' => Some(9u32),
        '2' => Some(10u32),
        't' | 'T' => Some(11u32),
        'v' | 'V' => Some(12u32),
        'd' | 'D' => Some(13u32),
        'w' | 'W' => Some(14u32),
        '0' => Some(15u32),
        's' | 'S' => Some(16u32),
        '3' => Some(17u32),
        'j' | 'J' => Some(18u32),
        'n' | 'N' => Some(19u32),
        '5' => Some(20u32),
        '4' => Some(21u32),
        'k' | 'K' => Some(22u32),
        'h' | 'H' => Some(23u32),
        'c' | 'C' => Some(24u32),
        'e' | 'E' => Some(25u32),
        '6' => Some(26u32),
        'm' | 'M' => Some(27u32),
        'u' | 'U' => Some(28u32),
        'a' | 'A' => Some(29u32),
        '7' => Some(30u32),
        'l' | 'L' => Some(31u32),
        _ => None,
    }
}

fn char_value(c: char) -> (r: Option<u32>)
    ensures
        r == bech32_value(c),
{
    match c {
        'q' | 'Q' => Some(0u32),
        'p' | 'P' => Some(1u32),
        'z' | 'Z' => Some(2u32),
        'r' | 'R' => Some(3u32),
        'y' | 'Y' => Some(4u32),
        '9' => Some(5u32),
        'x' | 'X' => Some(6u32),
        '8' => Some(7u32),
        'g' | 'G' => Some(8u32),
        'f' | 'F' => Some(9u32),
        '2' => Some(10u32),
        't' | 'T' => Some(11u32),
        'v' | 'V' => Some(12u32),
        'd' | 'D' => Some(13u32),
        'w' | 'W' => Some(14u32),
        '0' => Some(15u32),
        's' | 'S' => Some(16u32),
        '3' => Some(17u32),
        'j' | 'J' => Some(18u32),
        'n' | 'N' => Some(19u32),
        '5' => Some(20u32),
        '4' => Some(21u32),
        'k' | 'K' => Some(22u32),
        'h' | 'H' => Some(23u32),
        'c' | 'C' => Some(24u32),
        'e' | 'E' => Some(25u32),
        '6' => Some(26u32),
        'm' | 'M' => Some(27u32),
        'u' | 'U' => Some(28u32),
        'a' | 'A' => Some(29u32),
        '7' => Some(30u32),
        'l' | 'L' => Some(31u32),
        _ => None,
    }
}

pub open spec fn is_lower_letter(c: char) -> bool {
    'a' <= c && c <= 'z'
}

pub open spec fn is_upper_letter(c: char) -> bool {
    'A' <= c && c <= 'Z'
}

/// A segwit address prefix in one letter case: whether it is lower case,
/// and the expansion of its lower-case form that the bech32 checksum starts
/// from.
pub open spec fn segwit_prefix(h: Seq<char>) -> Option<(bool, Seq<u32>)> {
    if h == seq!['b', 'c'] {
        Some((true, seq![3u32, 3, 0, 2, 3]))
    } else if h == seq!['B', 'C'] {
        Some((false, seq![3u32, 3, 0, 2, 3]))
    } else if h == seq!['t', 'b'] {
        Some((true, seq![3u32, 3, 0, 20, 2]))
    } else if h == seq!['T', 'B'] {
        Some((false, seq![3u32, 3, 0, 20, 2]))
    } else if h == seq!['b', 'c', 'r', 't'] {
        Some((true, seq![3u32, 3, 3, 3, 0, 2, 3, 18, 20]))
    } else if h == seq!['B', 'C', 'R', 'T'] {
        Some((false, seq![3u32, 3, 3, 3, 0, 2, 3, 18, 20]))
    } else {
        None
    }
}

/// One step of the bech32 checksum over the value `v`.
pub open spec fn polymod_step(chk: u32, v: u32) -> u32 {
    let top = chk >> 25u32;
    let c0 = ((chk & 0x1ff_ffffu32) << 5u32) ^ v;
    let c1 = if top & 1u32 != 0 { c0 ^ 0x3b6a_57b2u32 } else { c0 };
    let c2 = if top & 2u32 != 0 { c1 ^ 0x2650_8e6du32 } else { c1 };
    let c3 = if top & 4u32 != 0 { c2 ^ 0x1ea1_19fau32 } else { c2 };
    let c4 = if top & 8u32 != 0 { c3 ^ 0x3d42_33ddu32 } else { c3 };
    if top & 16u32 != 0 { c4 ^ 0x2a14_62b3u32 } else { c4 }
}

/// The bech32 checksum polynomial over `vs`.
pub open spec fn polymod(vs: Seq<u32>) -> u32
    decreases vs.len(),
{
    if vs.len() == 0 {
        1
    } else {
        polymod_step(polymod(vs.drop_last()), vs.last())
    }
}

fn step(chk: u32, v: u32) -> (r: u32)
    ensures
        r == polymod_step(chk, v),
{
    let top = chk >> 25u32;
    let c0 = ((chk & 0x1ff_ffffu32) << 5u32) ^ v;
    let c1 = if top & 1u32 != 0 { c0 ^ 0x3b6a_57b2u32 } else { c0 };
    let c2 = if top & 2u32 != 0 { c1 ^ 0x2650_8e6du32 } else { c1 };
    let c3 = if top & 4u32 != 0 { c2 ^ 0x1ea1_19fau32 } else { c2 };
    let c4 = if top & 8u32 != 0 { c3 ^ 0x3d42_33ddu32 } else { c3 };
    if top & 16u32 != 0 { c4 ^ 0x2a14_62b3u32 } else { c4 }
}

/// The values of the data characters `d`, where all are bech32 characters in
/// the letter case `lower` says.
pub open spec fn data_values(d: Seq<char>, lower: bool) -> Option<Seq<u32>> {
    if forall|i: int|
        0 <= i < d.len() ==> bech32_value(#[trigger] d[i]) is Some && (if lower {
            !is_upper_letter(d[i])
        } else {
            !is_lower_letter(d[i])
        }) {
        Some(Seq::new(d.len(), |i: int| bech32_value(d[i]).unwrap()))
    } else {
        None
    }
}

/// Segwit address text that bech32 decodes with a valid checksum (bech32 or
/// bech32m) but with no data beyond it: no witness version, no program.
pub open spec fn is_bare_checksum(s: Seq<char>) -> bool {
    match last_one(s) {
        Some(p) => s.len() - p - 1 == 6 && match segwit_prefix(s.take(p)) {
            Some((lower, expanded)) => match data_values(s.skip(p + 1), lower) {
                Some(values) => {
                    let chk = polymod(expanded + values);
                    chk == 1 || chk == 0x2bc8_30a3
                },
                None => false,
            },
            None => false,
        },
        None => false,
    }
}

/// Whether `s` is segwit address text with a valid checksum and no data
/// beyond it.
pub fn bare_checksum(s: &str) -> (r: bool)
    ensures
        r == is_bare_checksum(s@),
{
    let n = s.unicode_len();
    let mut i: usize = n;
    let mut found = false;
    assert(s@.take(n as int) =~= s@);
    while i > 0 && !found
        invariant
            i <= n,
            n == s@.len(),
            found ==> i > 0 && s@[i - 1] == '1',
            last_one(s@) == last_one(s@.take(i as int)),
        decreases i + if found {
            0int
        } else {
            1int
        },
    {
        if s.get_char(i - 1) == '1' {
            found = true;
        } else {
            proof {
                assert(s@.take(i as int).drop_last() =~= s@.take(i - 1));
            }
            i -= 1;
        }
    }
    if !found {
        return false;
    }
    let p = i - 1;
    assert(s@.take(i as int).last() == '1');
    if n - p - 1 != 6 {
        return false;
    }
    let ghost h = s@.take(p as int);
    let (lower, mut values): (bool, Vec<u32>) = if p == 2 {
        let a = s.get_char(0);
        let b = s.get_char(1);
        assert(h[0] == a && h[1] == b);
        if a == 'b' && b == 'c' {
            assert(h =~= seq!['b', 'c']);
            (true, vec![3u32, 3, 0, 2, 3])
        } else if a == 'B' && b == 'C' {
            assert(h =~= seq!['B', 'C']);
            (false, vec![3u32, 3, 0, 2, 3])
        } else if a == 't' && b == 'b' {
            assert(h =~= seq!['t', 'b']);
            (true, vec![3u32, 3, 0, 20, 2])
        } else if a == 'T' && b == 'B' {
            assert(h =~= seq!['T', 'B']);
            (false, vec![3u32, 3, 0, 20, 2])
        } else {
            assert(seq!['b', 'c'][0] == 'b' && seq!['b', 'c'][1] == 'c');
            assert(seq!['B', 'C'][0] == 'B' && seq!['B', 'C'][1] == 'C');
            assert(seq!['t', 'b'][0] == 't' && seq!['t', 'b'][1] == 'b');
            assert(seq!['T', 'B'][0] == 'T' && seq!['T', 'B'][1] == 'B');
            assert(seq!['b', 'c', 'r', 't'].len() == 4 && seq!['B', 'C', 'R', 'T'].len() == 4);
            return false;
        }
    } else if p == 4 {
        let a = s.get_char(0);
        let b = s.get_char(1);
        let c = s.get_char(2);
        let d = s.get_char(3);
        assert(h[0] == a && h[1] == b && h[2] == c && h[3] == d);
        if a == 'b' && b == 'c' && c == 'r' && d == 't' {
            assert(h =~= seq!['b', 'c', 'r', 't']);
            (true, vec![3u32, 3, 3, 3, 0, 2, 3, 18, 20])
        } else if a == 'B' && b == 'C' && c == 'R' && d == 'T' {
            assert(h =~= seq!['B', 'C', 'R', 'T']);
            (false, vec![3u32, 3, 3, 3, 0, 2, 3, 18, 20])
        } else {
            assert(seq!['b', 'c', 'r', 't'][0] == 'b' && seq!['b', 'c', 'r', 't'][3] == 't');
            assert(seq!['b', 'c', 'r', 't'][1] == 'c' && seq!['b', 'c', 'r', 't'][2] == 'r');
            assert(seq!['B', 'C', 'R', 'T'][0] == 'B' && seq!['B', 'C', 'R', 'T'][3] == 'T');
            assert(seq!['B', 'C', 'R', 'T'][1] == 'C' && seq!['B', 'C', 'R', 'T'][2] == 'R');
            assert(seq!['b', 'c'].len() == 2 && seq!['B', 'C'].len() == 2);
            assert(seq!['t', 'b'].len() == 2 && seq!['T', 'B'].len() == 2);
            return false;
        }
    } else {
        assert(seq!['b', 'c'].len() == 2 && seq!['B', 'C'].len() == 2);
        assert(seq!['t', 'b'].len() == 2 && seq!['T', 'B'].len() == 2);
        assert(seq!['b', 'c', 'r', 't'].len() == 4 && seq!['B', 'C', 'R', 'T'].len() == 4);
        return false;
    };
    assert(segwit_prefix(h) == Some((lower, values@)));
    let ghost expanded = values@;
    let ghost data = s@.skip(p + 1);
    let mut k: usize = 0;
    while k < 6
        invariant
            0 <= k <= 6,
            n == s@.len(),
            p + 7 == n,
            last_one(s@) == Some(p as int),
            segwit_prefix(s@.take(p as int)) == Some((lower, expanded)),
            data == s@.skip(p + 1),
            data.len() == 6,
            forall|j: int|
                0 <= j < k ==> bech32_value(#[trigger] data[j]) is Some && (if lower {
                    !is_upper_letter(data[j])
                } else {
                    !is_lower_letter(data[j])
                }),
            values@ == expanded + Seq::new(k as nat, |j: int| bech32_value(data[j]).unwrap()),
        decreases 6 - k,
    {
        let c = s.get_char(p + 1 + k);
        assert(data[k as int] == c);
        let v = match char_value(c) {
            Some(v) => v,
            None => {
                assert(data_values(data, lower) is None);
                return false;
            },
        };
        if lower && 'A' <= c && c <= 'Z' || !lower && 'a' <= c && c <= 'z' {
            proof {
                let at = k as int;
                assert(!(bech32_value(data[at]) is Some && (if lower {
                    !is_upper_letter(data[at])
                } else {
                    !is_lower_letter(data[at])
                })));
            }
            assert(data_values(data, lower) is None);
            return false;
        }
        let ghost before = values@;
        values.push(v);
        proof {
            assert(values@ =~= expanded + Seq::new(
                (k + 1) as nat,
                |j: int| bech32_value(data[j]).unwrap(),
            ));
        }
        k += 1;
    }
    assert(Seq::new(6nat, |j: int| bech32_value(data[j]).unwrap()) =~= data_values(
        data,
        lower,
    ).unwrap());
    let mut chk: u32 = 1;
    let mut j: usize = 0;
    while j < values.len()
        invariant
            0 <= j <= values.len(),
            chk == polymod(values@.take(j as int)),
        decreases values.len() - j,
    {
        proof {
            assert(values@.take(j + 1).drop_last() =~= values@.take(j as int));
        }
        chk = step(chk, values[j]);
        j += 1;
    }
    assert(values@.take(values.len() as int) =~= values@);
    chk == 1 || chk == 0x2bc8_30a3
}

/// What the address text `s` decodes to: its network and locking script, or
/// nothing where it is no valid address.
pub uninterp spec fn decoded_address(s: Seq<char>) -> Option<(AddressNetwork, Seq<u8>)>;

/// Whether `s` is the text `MAX`.
pub(crate) fn is_max_text(s: &str) -> (r: bool)
    ensures
        r == (s@ == "MAX"@),
{
    proof {
        reveal_strlit("MAX");
    }
    if s.unicode_len() != 3 {
        return false;
    }
    let r = s.get_char(0) == 'M' && s.get_char(1) == 'A' && s.get_char(2) == 'X';
    if r {
        assert(s@ =~= "MAX"@);
    }
    r
}

/// The text before and after the first `@` of `s`.
pub(crate) fn split_at_sign(s: &str) -> (r: Option<(&str, &str)>)
    ensures
        r is None <==> first_at(s@) is None,
        r matches Some(p) ==> p.0@ == s@.subrange(0, first_at(s@)->0) && p.1@ == s@.subrange(
            first_at(s@)->0 + 1,
            s@.len() as int,
        ),
{
    let n = s.unicode_len();
    let mut i: usize = 0;
    assert(s@.skip(0) =~= s@);
    while i < n
        invariant
            i <= n,
            n == s@.len(),
            first_at(s@) == match first_at(s@.skip(i as int)) {
                Some(j) => Some(j + i),
                None => None::<int>,
            },
        decreases n - i,
    {
        if s.get_char(i) == '@' {
            assert(s@.skip(i as int)[0] == '@');
            return Some((s.substring_char(0, i), s.substring_char(i + 1, n)));
        }
        assert(s@.skip(i as int).drop_first() =~= s@.skip(i + 1));
        i += 1;
    }
    assert(s@.skip(n as int).len() == 0);
    None
}

/// Relies on `Sats::from_str` of the bp-consensus crate, which reads the
/// text as `u64::from_str` does: an optional `+` and one or more decimal
/// digits whose value fits in 64 bits; anything else is an error.
#[verifier::external_body]
pub(crate) fn parse_sats(s: &str) -> (r: Result<u64, std::num::ParseIntError>)
    ensures
        r is Ok <==> is_u64_literal(s@),
        r matches Ok(v) ==> v == digits_value(unsigned_digits(s@)),
{
    <bc::Sats as std::str::FromStr>::from_str(s).map(|sats| sats.0)
}

/// Relies on `Address::from_str` of the bp-derive crate, and on
/// `Address::script_pubkey` for the locking script of what it decoded.
/// `from_str` panics on segwit text that bech32 decodes to an empty data
/// part (a valid checksum and nothing else), so that shape is left out.
#[verifier::external_body]
pub(crate) fn parse_address(s: &str) -> (r: Result<Address, derive::AddressParseError>)
    requires
        !is_bare_checksum(s@),
    ensures
        r is Ok <==> decoded_address(s@) is Some,
        r matches Ok(a) ==> decoded_address(s@) == Some((a.network, a.script_pubkey.bytes@)),
{
    let addr = <derive::Address as std::str::FromStr>::from_str(s)?;
    let network = match addr.network {
        derive::AddressNetwork::Mainnet => AddressNetwork::Mainnet,
        derive::AddressNetwork::Testnet => AddressNetwork::Testnet,
        derive::AddressNetwork::Regtest => AddressNetwork::Regtest,
    };
    let bytes = addr.script_pubkey().as_script_bytes().clone().into_vec();
    Ok(Address { network, script_pubkey: ScriptPubkey { bytes } })
}

} // verus!
