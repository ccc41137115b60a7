use vstd::prelude::*;

use crate::chain_id::ChainId;
use crate::checksum_address::ETH_ADDRESS_BYTES;
use crate::error::Error;

verus! {

/// A 256-bit unsigned integer held as four 64-bit limbs, least significant
/// first. Token amounts in base units are values of this type.
#[derive(Clone, Copy, Debug, PartialEq, Eq, Structural)]
pub struct U256 {
    pub limb0: u64,
    pub limb1: u64,
    pub limb2: u64,
    pub limb3: u64,
}

/// The numeric value of a `U256`.
pub open spec fn u256_val(a: U256) -> nat {
    (a.limb0 + a.limb1 * 0x10000000000000000 + a.limb2 * 0x100000000000000000000000000000000
        + a.limb3 * 0x1000000000000000000000000000000000000000000000000) as nat
}

impl U256 {
    /// The value zero.
    pub fn zero() -> (r: U256)
        ensures
            u256_val(r) == 0,
    {
        U256 { limb0: 0, limb1: 0, limb2: 0, limb3: 0 }
    }

    /// A small value.
    pub fn from_u64(x: u64) -> (r: U256)
        ensures
            u256_val(r) == x,
    {
        U256 { limb0: x, limb1: 0, limb2: 0, limb3: 0 }
    }

    /// Ten times this value plus a decimal digit, or `None` exactly when
    /// that exceeds 256 bits.
    pub fn checked_mul10_add(&self, d: u64) -> (r: Option<U256>)
        requires
            d < 10,
        ensures
            match r {
                Some(v) => u256_val(v) == u256_val(*self) * 10 + d,
                None => u256_val(*self) * 10 + d
                    >= 0x10000000000000000000000000000000000000000000000000000000000000000,
            },
    {
        let b: u128 = 0x10000000000000000;
        let t0: u128 = self.limb0 as u128 * 10 + d as u128;
        let r0: u64 = (t0 % b) as u64;
        let c0: u64 = (t0 / b) as u64;
        let t1: u128 = self.limb1 as u128 * 10 + c0 as u128;
        let r1: u64 = (t1 % b) as u64;
        let c1: u64 = (t1 / b) as u64;
        let t2: u128 = self.limb2 as u128 * 10 + c1 as u128;
        let r2: u64 = (t2 % b) as u64;
        let c2: u64 = (t2 / b) as u64;
        let t3: u128 = self.limb3 as u128 * 10 + c2 as u128;
        let r3: u64 = (t3 % b) as u64;
        let c3: u64 = (t3 / b) as u64;
        let out = U256 { limb0: r0, limb1: r1, limb2: r2, limb3: r3 };
        proof {
            let bi: int = 0x10000000000000000;
            assert(t0 == bi * (t0 as int / bi) + t0 as int % bi);
            assert(t1 == bi * (t1 as int / bi) + t1 as int % bi);
            assert(t2 == bi * (t2 as int / bi) + t2 as int % bi);
            assert(t3 == bi * (t3 as int / bi) + t3 as int % bi);
            assert(u256_val(out) + c3 * 0x10000000000000000000000000000000000000000000000000000000000000000
                == u256_val(*self) * 10 + d);
        }
        if c3 != 0 {
            None
        } else {
            Some(out)
        }
    }
}

/// Whether a char is a decimal digit.
pub open spec fn is_dec_digit(c: char) -> bool {
    48 <= c as u32 && c as u32 <= 57
}

/// The value of a decimal digit char.
pub open spec fn dec_digit_val(c: char) -> u8 {
    (c as u32 - 48) as u8
}

/// The value of a string of decimal digit chars, most significant first.
pub open spec fn digits_val(s: Seq<char>) -> nat
    decreases s.len(),
{
    if s.len() == 0 {
        0
    } else {
        (digits_val(s.drop_last()) * 10 + dec_digit_val(s.last())) as nat
    }
}

/// `n` zero digits.
pub open spec fn zero_chars(n: nat) -> Seq<char> {
    Seq::new(n, |i: int| '0')
}

/// Whether `i` splits the text into a valid decimal number for a token with
/// `decimals` fractional digits: a nonempty run of digits, then, if `i` is
/// not the end, a dot followed by one to `decimals` digits.
pub open spec fn valid_decimal_split(s: Seq<char>, decimals: nat, i: int) -> bool {
    &&& 1 <= i <= s.len()
    &&& (i < s.len() ==> s[i] == '.' && s.len() - i - 1 >= 1 && s.len() - i - 1 <= decimals)
    &&& (forall|j: int| 0 <= j < i ==> is_dec_digit(s[j]))
    &&& (forall|j: int| i < j < s.len() ==> is_dec_digit(s[j]))
}

/// The digits of the amount in base units: the integer digits, the fraction
/// digits, then enough zeros to scale the fraction to `decimals` places.
pub open spec fn scaled_digits(s: Seq<char>, decimals: nat, i: int) -> Seq<char> {
    if i == s.len() {
        s + zero_chars(decimals)
    } else {
        s.take(i) + s.skip(i + 1) + zero_chars((decimals - (s.len() - i - 1)) as nat)
    }
}

/// The amount in base units that a decimal text denotes.
pub open spec fn scaled_decimal_value(s: Seq<char>, decimals: nat, i: int) -> nat {
    digits_val(scaled_digits(s, decimals, i))
}

/// A dot in the text pins the only split position a valid split can use.
proof fn lemma_split_at_dot(s: Seq<char>, decimals: nat, i: int, i_dot: int)
    requires
        valid_decimal_split(s, decimals, i),
        0 <= i_dot < s.len(),
        s[i_dot] == '.',
    ensures
        i == i_dot,
{
    assert(!is_dec_digit('.'));
    if i < i_dot {
        assert(is_dec_digit(s[i_dot]));
    } else if i > i_dot {
        assert(is_dec_digit(s[i_dot]));
    }
}

/// Without a dot, the only split position a valid split can use is the end.
proof fn lemma_split_no_dot(s: Seq<char>, decimals: nat, i: int)
    requires
        valid_decimal_split(s, decimals, i),
        forall|j: int| 0 <= j < s.len() ==> s[j] != '.',
    ensures
        i == s.len(),
{
}

/// More digits never lessen the value.
proof fn lemma_digits_val_prefix_le(s: Seq<char>, k: int)
    requires
        0 <= k <= s.len(),
    ensures
        digits_val(s.take(k)) <= digits_val(s),
    decreases s.len() - k,
{
    if k < s.len() {
        assert(s.take(k + 1).drop_last() =~= s.take(k));
        assert(digits_val(s.take(k + 1)) == digits_val(s.take(k)) * 10 + dec_digit_val(
            s.take(k + 1).last(),
        ));
        lemma_digits_val_prefix_le(s, k + 1);
    } else {
        assert(s.take(k) =~= s);
    }
}

/// Converts a decimal amount text to base units for a token with `decimals`
/// fractional digits. Succeeds exactly on texts that some position splits
/// into a valid decimal number whose base-unit value fits 256 bits, and then
/// returns that value; anything else is a User-class error.
#[verifier::rlimit(60)]
pub fn parse_decimal_amount(amount: &str, decimals: u8) -> (r: Result<U256, Error>)
    ensures
        match r {
            Ok(v) => exists|i: int|
                #![trigger valid_decimal_split(amount@, decimals as nat, i)]
                valid_decimal_split(amount@, decimals as nat, i) && u256_val(v)
                    == scaled_decimal_value(amount@, decimals as nat, i),
            Err(e) => e is User && (forall|i: int|
                #![trigger valid_decimal_split(amount@, decimals as nat, i)]
                valid_decimal_split(amount@, decimals as nat, i) ==> scaled_decimal_value(
                    amount@,
                    decimals as nat,
                    i,
                ) >= 0x10000000000000000000000000000000000000000000000000000000000000000),
        },
{
    let ghost d: nat = decimals as nat;
    let s = amount;
    let n = s.unicode_len();
    let mut i_dot: usize = n;
    let mut k: usize = 0;
    while k < n
        invariant
            d == decimals as nat,
            s@ == amount@,
            s@.len() == n,
            k <= n,
            i_dot <= n,
            i_dot == n ==> forall|j: int| 0 <= j < k ==> is_dec_digit(s@[j]) && s@[j] != '.',
            i_dot < n ==> i_dot < k && s@[i_dot as int] == '.' && (forall|j: int|
                0 <= j < k && j != i_dot ==> is_dec_digit(s@[j]) && s@[j] != '.'),
        decreases n - k,
    {
        let c = s.get_char(k);
        let u = c as u32;
        if c == '.' {
            if i_dot != n {
                proof {
                    assert forall|i: int| #![trigger valid_decimal_split(amount@, d, i)]
                        !valid_decimal_split(amount@, d, i) by {
                        if valid_decimal_split(amount@, d, i) {
                            lemma_split_at_dot(s@, d, i, i_dot as int);
                            lemma_split_at_dot(s@, d, i, k as int);
                        }
                    }
                }
                return Err(
                    Error::User { explanation: String::from_str("Invalid decimal amount") },
                );
            }
            i_dot = k;
        } else if !(48 <= u && u <= 57) {
            proof {
                assert forall|i: int| #![trigger valid_decimal_split(amount@, d, i)]
                    !valid_decimal_split(amount@, d, i) by {
                    if valid_decimal_split(amount@, d, i) {
                        if i < s@.len() {
                            lemma_split_at_dot(s@, d, i, i);
                        }
                        assert(k as int != i);
                        assert(is_dec_digit(s@[k as int]));
                    }
                }
            }
            return Err(Error::User { explanation: String::from_str("Invalid decimal amount") });
        }
        k = k + 1;
    }
    let ghost gi: int = i_dot as int;
    // The integer part must be nonempty; with a dot, the fraction part must
    // be nonempty and fit the token's decimals.
    if i_dot == 0 || n == 0 || (i_dot < n && (n - i_dot - 1 == 0 || n - i_dot - 1 > decimals
        as usize)) {
        proof {
            assert forall|i: int| #![trigger valid_decimal_split(amount@, d, i)]
                !valid_decimal_split(amount@, d, i) by {
                if valid_decimal_split(amount@, d, i) {
                    if i_dot < n {
                        lemma_split_at_dot(s@, d, i, i_dot as int);
                    } else {
                        lemma_split_no_dot(s@, d, i);
                    }
                }
            }
        }
        return Err(Error::User { explanation: String::from_str("Invalid decimal amount") });
    }
    proof {
        assert(valid_decimal_split(s@, d, gi));
        assert forall|i: int| #![trigger valid_decimal_split(amount@, d, i)]
            valid_decimal_split(amount@, d, i) implies i == gi by {
            if i_dot < n {
                lemma_split_at_dot(s@, d, i, i_dot as int);
            } else {
                lemma_split_no_dot(s@, d, i);
            }
        }
    }
    let ghost t: Seq<char> = scaled_digits(s@, d, gi);
    let frac_len: usize = if i_dot < n {
        n - i_dot - 1
    } else {
        0
    };
    let pad: usize = decimals as usize - frac_len;
    proof {
        assert(t.len() == gi + frac_len + pad);
        assert forall|j: int| 0 <= j < gi implies t[j] == s@[j] by {
            assert(t[j] == s@.take(gi)[j]);
        }
        assert forall|j: int| gi <= j < gi + frac_len implies t[j] == s@[j + 1] by {
            if gi < s@.len() {
                assert(t[j] == s@.skip(gi + 1)[j - gi]);
            }
        }
        assert forall|j: int| gi + frac_len <= j < t.len() implies t[j] == '0' by {
        }
        assert(dec_digit_val('0') == 0);
    }
    let mut acc = U256::zero();
    let mut k: usize = 0;
    // Integer digits.
    while k < i_dot
        invariant
            d == decimals as nat,
            s@ == amount@,
            s@.len() == n,
            i_dot <= n,
            gi == i_dot as int,
            t == scaled_digits(s@, d, gi),
            t.len() == gi + frac_len + pad,
            valid_decimal_split(s@, d, gi),
            forall|i: int|
                #![trigger valid_decimal_split(amount@, d, i)]
                valid_decimal_split(amount@, d, i) ==> i == gi,
            forall|j: int| 0 <= j < gi ==> t[j] == s@[j],
            k <= i_dot,
            u256_val(acc) == digits_val(t.take(k as int)),
        decreases i_dot - k,
    {
        let c = s.get_char(k);
        let v: u64 = (c as u32 - 48) as u64;
        proof {
            assert(is_dec_digit(s@[k as int]));
            assert(t.take(k + 1 as int).drop_last() =~= t.take(k as int));
            assert(t.take(k + 1 as int).last() == s@[k as int]);
        }
        acc = match acc.checked_mul10_add(v) {
            Some(a) => a,
            None => {
                proof {
                    lemma_digits_val_prefix_le(t, k + 1 as int);
                    assert forall|i: int|
                        #![trigger valid_decimal_split(amount@, d, i)]
                        valid_decimal_split(amount@, d, i) implies scaled_decimal_value(
                        amount@,
                        d,
                        i,
                    ) >= 0x10000000000000000000000000000000000000000000000000000000000000000 by {
                        assert(i == gi);
                        assert(scaled_decimal_value(amount@, d, gi) == digits_val(t));
                    }
                }
                return Err(
                    Error::User { explanation: String::from_str("Decimal amount is too large") },
                );
            },
        };
        k = k + 1;
    }
    // Fraction digits.
    let mut k: usize = 0;
    while k < frac_len
        invariant
            d == decimals as nat,
            s@ == amount@,
            s@.len() == n,
            i_dot <= n,
            gi == i_dot as int,
            frac_len == if i_dot < n {
                n - i_dot - 1 as int
            } else {
                0int
            },
            t == scaled_digits(s@, d, gi),
            t.len() == gi + frac_len + pad,
            valid_decimal_split(s@, d, gi),
            forall|i: int|
                #![trigger valid_decimal_split(amount@, d, i)]
                valid_decimal_split(amount@, d, i) ==> i == gi,
            forall|j: int| gi <= j < gi + frac_len ==> t[j] == s@[j + 1],
            k <= frac_len,
            u256_val(acc) == digits_val(t.take(gi + k)),
        decreases frac_len - k,
    {
        let c = s.get_char(i_dot + 1 + k);
        let v: u64 = (c as u32 - 48) as u64;
        proof {
            assert(is_dec_digit(s@[gi + 1 + k]));
            assert(t.take(gi + k + 1).drop_last() =~= t.take(gi + k));
            assert(t.take(gi + k + 1).last() == t[gi + k]);
            assert(t[gi + k] == s@[gi + k + 1]);
        }
        acc = match acc.checked_mul10_add(v) {
            Some(a) => a,
            None => {
                proof {
                    lemma_digits_val_prefix_le(t, gi + k + 1);
                    assert forall|i: int|
                        #![trigger valid_decimal_split(amount@, d, i)]
                        valid_decimal_split(amount@, d, i) implies scaled_decimal_value(
                        amount@,
                        d,
                        i,
                    ) >= 0x10000000000000000000000000000000000000000000000000000000000000000 by {
                        assert(i == gi);
                        assert(scaled_decimal_value(amount@, d, gi) == digits_val(t));
                    }
                }
                return Err(
                    Error::User { explanation: String::from_str("Decimal amount is too large") },
                );
            },
        };
        k = k + 1;
    }
    // Scale the fraction to `decimals` places.
    let mut k: usize = 0;
    while k < pad
        invariant
            d == decimals as nat,
            t == scaled_digits(s@, d, gi),
            s@ == amount@,
            t.len() == gi + frac_len + pad,
            valid_decimal_split(s@, d, gi),
            forall|i: int|
                #![trigger valid_decimal_split(amount@, d, i)]
                valid_decimal_split(amount@, d, i) ==> i == gi,
            forall|j: int| gi + frac_len <= j < t.len() ==> t[j] == '0',
            k <= pad,
            u256_val(acc) == digits_val(t.take(gi + frac_len + k)),
        decreases pad - k,
    {
        proof {
            assert(t.take(gi + frac_len + k + 1).drop_last() =~= t.take(gi + frac_len + k));
            assert(t.take(gi + frac_len + k + 1).last() == t[gi + frac_len + k]);
            assert(dec_digit_val('0') == 0);
        }
        acc = match acc.checked_mul10_add(0) {
            Some(a) => a,
            None => {
                proof {
                    lemma_digits_val_prefix_le(t, gi + frac_len + k + 1);
                    assert forall|i: int|
                        #![trigger valid_decimal_split(amount@, d, i)]
                        valid_decimal_split(amount@, d, i) implies scaled_decimal_value(
                        amount@,
                        d,
                        i,
                    ) >= 0x10000000000000000000000000000000000000000000000000000000000000000 by {
                        assert(i == gi);
                        assert(scaled_decimal_value(amount@, d, gi) == digits_val(t));
                    }
                }
                return Err(
                    Error::User { explanation: String::from_str("Decimal amount is too large") },
                );
            },
        };
        k = k + 1;
    }
    proof {
        assert(t.take(t.len() as int) =~= t);
    }
    Ok(acc)
}

/// An amount of a chain's native token, tagged with the chain it lives on.
pub struct NativeTokenAmount {
    pub chain_id: ChainId,
    pub amount: U256,
}

impl NativeTokenAmount {
    /// Tags an amount with its chain.
    pub fn new(chain_id: ChainId, amount: U256) -> (r: NativeTokenAmount)
        ensures
            r.chain_id == chain_id,
            r.amount == amount,
    {
        NativeTokenAmount { chain_id, amount }
    }
}

/// A fungible-token contract on one chain, with its decimal precision.
pub struct FungibleToken {
    pub chain_id: ChainId,
    pub contract_address: Vec<u8>,
    pub decimals: u8,
}

impl FungibleToken {
    /// Describes a fungible-token contract.
    pub fn new(chain_id: ChainId, contract_address: Vec<u8>, decimals: u8) -> (r: FungibleToken)
        requires
            contract_address@.len() == ETH_ADDRESS_BYTES,
        ensures
            r.chain_id == chain_id,
            r.contract_address@ == contract_address@,
            r.decimals == decimals,
    {
        FungibleToken { chain_id, contract_address, decimals }
    }
}

/// An amount of a fungible token in base units.
pub struct FungibleTokenAmount {
    pub token: FungibleToken,
    pub amount: U256,
}

impl FungibleTokenAmount {
    /// Converts a decimal amount text to base units of the token, using the
    /// token's decimal precision; exactly the texts accepted by
    /// `parse_decimal_amount` are accepted.
    pub fn new_from_decimal(token: FungibleToken, amount_decimal: &str) -> (r: Result<
        FungibleTokenAmount,
        Error,
    >)
        ensures
            match r {
                Ok(a) => a.token == token && (exists|i: int|
                    #![trigger valid_decimal_split(amount_decimal@, token.decimals as nat, i)]
                    valid_decimal_split(amount_decimal@, token.decimals as nat, i) && u256_val(
                        a.amount,
                    ) == scaled_decimal_value(amount_decimal@, token.decimals as nat, i)),
                Err(e) => e is User && (forall|i: int|
                    #![trigger valid_decimal_split(amount_decimal@, token.decimals as nat, i)]
                    valid_decimal_split(amount_decimal@, token.decimals as nat, i)
                        ==> scaled_decimal_value(amount_decimal@, token.decimals as nat, i)
                        >= 0x10000000000000000000000000000000000000000000000000000000000000000),
            },
    {
        let decimals = token.decimals;
        match parse_decimal_amount(amount_decimal, decimals) {
            Ok(amount) => Ok(FungibleTokenAmount { token, amount }),
            Err(e) => Err(e),
        }
    }
}

} // verus!
