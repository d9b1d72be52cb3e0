//! The order builder for 50/50 weighted pools settled by an external batch
//! auction: it checks the pool, prices the order on the pool's curve, hashes
//! it under the pool's domain separator, lays out the interactions around the
//! settlement, and encodes the pool's contract signature.
use crate::address::Address;
use crate::error::Error;
use crate::fixed::{bone, bone_value};
use crate::math::{calc_out_given_in, out_given_in_spec};
use crate::uint::Uint256;
use vstd::prelude::*;
use vstd::string::StringSliceAdditionalSpecFns;

verus! {

/// A limit order on the pool's behalf.
#[derive(Clone, Debug)]
pub struct Order {
    pub sell_token: Address,
    pub buy_token: Address,
    pub sell_amount: Uint256,
    pub buy_amount: Uint256,
    pub valid_to: u32,
    pub app_data: [u8; 32],
    pub fee_amount: Uint256,
}

/// A call made around the settlement.
#[derive(Clone, Debug)]
pub struct Interaction {
    pub target: Address,
    pub value: Uint256,
    pub call_data: Vec<u8>,
}

/// The builder's configuration: the factory that deploys pools and the app
/// data that its orders carry.
pub struct Contract {
    pub factory: Address,
    pub app_data: [u8; 32],
}

/// The outcome of the checks on a pool: the factory deployed it, it has
/// exactly two tokens, and their normalized weights are equal.
pub open spec fn pool_tokens_result(
    is_pool: bool,
    tokens: Seq<Address>,
    weights: (nat, nat),
) -> Result<(Address, Address), Error> {
    if !is_pool || tokens.len() != 2 || weights.0 != weights.1 {
        Err(Error::PoolDoesNotExist)
    } else {
        Ok((tokens[0], tokens[1]))
    }
}

/// The amount an order to buy `buy_amount` of `buy_token` sells, on the
/// pool's balances of its two tokens: the weighted output for that input,
/// with equal weights and no fee. The balance of the token bought is the
/// input side.
pub open spec fn sell_amount_spec(
    tokens: (Address, Address),
    buy_token: Address,
    buy_amount: nat,
    balance0: nat,
    balance1: nat,
) -> Option<nat> {
    if buy_token == tokens.0 {
        out_given_in_spec(balance0, bone(), balance1, bone(), buy_amount, 0)
    } else {
        out_given_in_spec(balance1, bone(), balance0, bone(), buy_amount, 0)
    }
}

/// The last `n` bytes of `x`, most significant first.
pub open spec fn be_bytes(x: nat, n: nat) -> Seq<u8>
    decreases n,
{
    if n == 0 {
        Seq::empty()
    } else {
        be_bytes(x / 256, (n - 1) as nat).push((x % 256) as u8)
    }
}

/// An address as its twenty bytes.
pub open spec fn address_bytes(a: Address) -> Seq<u8> {
    be_bytes(a.hi as nat, 16) + be_bytes(a.lo as nat, 4)
}

/// An address as a 32-byte ABI word: twelve zero bytes, then its bytes.
pub open spec fn address_word(a: Address) -> Seq<u8> {
    Seq::new(12, |i: int| 0u8) + address_bytes(a)
}

/// A 256-bit integer as a 32-byte big-endian ABI word.
pub open spec fn uint_word(v: Uint256) -> Seq<u8> {
    be_bytes(v.l3 as nat, 8) + be_bytes(v.l2 as nat, 8) + be_bytes(v.l1 as nat, 8) + be_bytes(
        v.l0 as nat,
        8,
    )
}

/// A 32-bit integer as a 32-byte big-endian ABI word.
pub open spec fn u32_word(v: u32) -> Seq<u8> {
    be_bytes(v as nat, 32)
}

/// The ABI encoding of an order: one word per field, in order.
pub open spec fn order_bytes(o: Order) -> Seq<u8> {
    address_word(o.sell_token) + address_word(o.buy_token) + uint_word(o.sell_amount) + uint_word(
        o.buy_amount,
    ) + u32_word(o.valid_to) + o.app_data@ + uint_word(o.fee_amount)
}

/// Appends the last `n` bytes of `x`, most significant first.
fn push_be(v: &mut Vec<u8>, x: u128, n: usize)
    ensures
        final(v)@ == old(v)@ + be_bytes(x as nat, n as nat),
    decreases n,
{
    if n > 0 {
        push_be(v, x / 256, n - 1);
        v.push((x % 256) as u8);
        assert(final(v)@ =~= old(v)@ + be_bytes(x as nat, n as nat));
    } else {
        assert(final(v)@ =~= old(v)@ + be_bytes(x as nat, n as nat));
    }
}

fn push_address_word(v: &mut Vec<u8>, a: Address)
    ensures
        final(v)@ == old(v)@ + address_word(a),
{
    push_be(v, 0, 12);
    proof {
        lemma_zero_bytes(12);
    }
    push_be(v, a.hi, 16);
    push_be(v, a.lo as u128, 4);
    assert(final(v)@ =~= old(v)@ + address_word(a));
}

fn push_uint_word(v: &mut Vec<u8>, x: Uint256)
    ensures
        final(v)@ == old(v)@ + uint_word(x),
{
    push_be(v, x.l3 as u128, 8);
    push_be(v, x.l2 as u128, 8);
    push_be(v, x.l1 as u128, 8);
    push_be(v, x.l0 as u128, 8);
    assert(final(v)@ =~= old(v)@ + uint_word(x));
}

/// The bytes of zero are zeros.
proof fn lemma_zero_bytes(n: nat)
    ensures
        be_bytes(0, n) == Seq::new(n, |i: int| 0u8),
    decreases n,
{
    if n > 0 {
        lemma_zero_bytes((n - 1) as nat);
        assert(be_bytes(0, n) =~= Seq::new(n, |i: int| 0u8));
    } else {
        assert(be_bytes(0, n) =~= Seq::new(n, |i: int| 0u8));
    }
}

/// The ABI encoding of `order`.
pub fn encode_order(order: &Order) -> (r: Vec<u8>)
    ensures
        r@ == order_bytes(*order),
{
    let mut v: Vec<u8> = Vec::new();
    push_address_word(&mut v, order.sell_token);
    push_address_word(&mut v, order.buy_token);
    push_uint_word(&mut v, order.sell_amount);
    push_uint_word(&mut v, order.buy_amount);
    push_be(&mut v, order.valid_to as u128, 32);
    let ghost before = v@;
    let mut i: usize = 0;
    while i < 32
        invariant
            i <= 32,
            v@ == before + order.app_data@.subrange(0, i as int),
        decreases 32 - i,
    {
        v.push(order.app_data[i]);
        i = i + 1;
        assert(v@ =~= before + order.app_data@.subrange(0, i as int));
    }
    assert(order.app_data@.subrange(0, 32) =~= order.app_data@);
    push_uint_word(&mut v, order.fee_amount);
    assert(v@ =~= order_bytes(*order));
    v
}

/// The contract signature of `order` on behalf of `pool`: the pool's address
/// followed by the order's ABI encoding.
pub fn encode_signature(pool: Address, order: &Order) -> (r: Vec<u8>)
    ensures
        r@ == address_bytes(pool) + order_bytes(*order),
{
    let mut v: Vec<u8> = Vec::new();
    push_be(&mut v, pool.hi, 16);
    push_be(&mut v, pool.lo as u128, 4);
    let mut body = encode_order(order);
    v.append(&mut body);
    assert(v@ =~= address_bytes(pool) + order_bytes(*order));
    v
}

/// The Keccak-256 digest of `data`.
pub uninterp spec fn keccak_of(data: Seq<u8>) -> Seq<u8>;

/// Relies on `alloy_primitives::keccak256`: the 32-byte Keccak-256 digest.
#[verifier::external_body]
fn keccak(data: &[u8]) -> (r: Vec<u8>)
    ensures
        r@ == keccak_of(data@),
        r@.len() == 32,
{
    alloy_primitives::keccak256(data).to_vec()
}

/// The signature of the pool's commit function, whose hash gives its selector.
pub const COMMIT_SIGNATURE: &'static str = "commit(bytes32)";

/// The hash that commits `order` on a pool with `domain_separator`:
/// `keccak(0x19 0x01 ++ domain_separator ++ keccak(order))`, where the inner
/// hash is of the order's ABI encoding alone (no type hash is mixed in).
pub open spec fn order_hash_bytes(domain_separator: Seq<u8>, o: Order) -> Seq<u8> {
    keccak_of(seq![0x19u8, 0x01u8] + domain_separator + keccak_of(order_bytes(o)))
}

/// The hash of `order` under the pool's `domain_separator`.
pub fn order_hash(domain_separator: &[u8; 32], order: &Order) -> (r: Vec<u8>)
    ensures
        r@ == order_hash_bytes(domain_separator@, *order),
        r@.len() == 32,
{
    let body = encode_order(order);
    let inner = keccak(body.as_slice());
    let mut v: Vec<u8> = Vec::new();
    v.push(0x19);
    v.push(0x01);
    let ghost before = v@;
    let mut i: usize = 0;
    while i < 32
        invariant
            i <= 32,
            v@ == before + domain_separator@.subrange(0, i as int),
        decreases 32 - i,
    {
        v.push(domain_separator[i]);
        i = i + 1;
        assert(v@ =~= before + domain_separator@.subrange(0, i as int));
    }
    assert(domain_separator@.subrange(0, 32) =~= domain_separator@);
    let mut tail = inner;
    v.append(&mut tail);
    assert(v@ =~= seq![0x19u8, 0x01u8] + domain_separator@ + keccak_of(order_bytes(*order)));
    keccak(v.as_slice())
}

/// The call data of the pool's `commit(order_hash)`: the function's
/// selector, then the hash as one word.
pub fn commit_call_data(order_hash: &Vec<u8>) -> (r: Vec<u8>)
    requires
        order_hash@.len() == 32,
    ensures
        r@ == keccak_of(COMMIT_SIGNATURE.spec_bytes()).subrange(0, 4) + order_hash@,
{
    let digest = keccak(COMMIT_SIGNATURE.as_bytes());
    let mut v: Vec<u8> = Vec::new();
    let mut i: usize = 0;
    while i < 4
        invariant
            i <= 4,
            digest@.len() == 32,
            v@ == digest@.subrange(0, i as int),
        decreases 4 - i,
    {
        v.push(digest[i]);
        i = i + 1;
        assert(v@ =~= digest@.subrange(0, i as int));
    }
    let mut j: usize = 0;
    while j < order_hash.len()
        invariant
            j <= order_hash@.len(),
            v@ == digest@.subrange(0, 4) + order_hash@.subrange(0, j as int),
        decreases order_hash@.len() - j,
    {
        v.push(order_hash[j]);
        j = j + 1;
        assert(v@ =~= digest@.subrange(0, 4) + order_hash@.subrange(0, j as int));
    }
    assert(order_hash@.subrange(0, order_hash@.len() as int) =~= order_hash@);
    v
}

/// The order sells one of the pool's two tokens for the other.
pub open spec fn trades_pair(sell: Address, buy: Address, tokens: (Address, Address)) -> bool {
    sell != buy && ((sell == tokens.0 && buy == tokens.1) || (sell == tokens.1 && buy == tokens.0))
}

impl Contract {
    /// A builder for the pools of `factory`, whose orders carry `app_data`.
    pub fn init(factory: Address, app_data: [u8; 32]) -> (r: Contract)
        ensures
            r.factory == factory,
            r.app_data == app_data,
    {
        Contract { factory, app_data }
    }

    /// The two tokens of `pool`, given whether the factory knows it, its
    /// final tokens and the normalized weights of the first two of them
    /// (which the caller reads only when there are two).
    pub fn tokens(is_pool: bool, final_tokens: &Vec<Address>, weights: (Uint256, Uint256)) -> (r:
        Result<(Address, Address), Error>)
        ensures
            r == pool_tokens_result(is_pool, final_tokens@, (weights.0.value(), weights.1.value())),
    {
        if !is_pool {
            return Err(Error::PoolDoesNotExist);
        }
        if final_tokens.len() != 2 {
            return Err(Error::PoolDoesNotExist);
        }
        if weights.0.lt(&weights.1) || weights.1.lt(&weights.0) {
            return Err(Error::PoolDoesNotExist);
        }
        Ok((final_tokens[0], final_tokens[1]))
    }

    /// The order `skeleton` completed for a pool with `tokens` and balances
    /// `balance0` and `balance1`: the sell amount comes from the pool's
    /// curve, the app data from the builder, and the fee is zero.
    pub open spec fn priced(
        &self,
        tokens: (Address, Address),
        skeleton: Order,
        balance0: nat,
        balance1: nat,
        o: Order,
    ) -> bool {
        &&& sell_amount_spec(tokens, skeleton.buy_token, skeleton.buy_amount.value(), balance0, balance1)
            == Some(o.sell_amount.value())
        &&& o.sell_token == skeleton.sell_token
        &&& o.buy_token == skeleton.buy_token
        &&& o.buy_amount == skeleton.buy_amount
        &&& o.valid_to == skeleton.valid_to
        &&& o.app_data == self.app_data
        &&& o.fee_amount.value() == 0
    }

    fn price_order(&self, tokens: (Address, Address), skeleton: &Order, balance0: Uint256, balance1: Uint256) -> (r: Result<Order, Error>)
        ensures
            match r {
                Ok(o) => self.priced(tokens, *skeleton, balance0.value(), balance1.value(), o),
                Err(e) => sell_amount_spec(tokens, skeleton.buy_token, skeleton.buy_amount.value(), balance0.value(), balance1.value()) is None && e == Error::Math,
            },
    {
        let (balance_in, balance_out) = if skeleton.buy_token == tokens.0 {
            (balance0, balance1)
        } else {
            (balance1, balance0)
        };
        let sell = calc_out_given_in(
            balance_in,
            bone_value(),
            balance_out,
            bone_value(),
            skeleton.buy_amount,
            Uint256::zero(),
        );
        match sell {
            Ok(sell_amount) => Ok(Order {
                sell_token: skeleton.sell_token,
                buy_token: skeleton.buy_token,
                sell_amount,
                buy_amount: skeleton.buy_amount,
                valid_to: skeleton.valid_to,
                app_data: self.app_data,
                fee_amount: Uint256::zero(),
            }),
            Err(e) => Err(e),
        }
    }

    /// The order for `pool`, whose two tokens are `tokens`, completing
    /// `skeleton` on the pool's balances `balance0` and `balance1`; the one
    /// interaction before its settlement, which commits the order's hash
    /// under the pool's `domain_separator`; none after it; and the pool's
    /// contract signature. The skeleton must trade one of the pool's tokens
    /// for the other.
    pub fn order(
        &self,
        pool: Address,
        tokens: (Address, Address),
        skeleton: &Order,
        balance0: Uint256,
        balance1: Uint256,
        domain_separator: &[u8; 32],
    ) -> (r: Result<(Order, Vec<Interaction>, Vec<Interaction>, Vec<u8>), Error>)
        ensures
            !trades_pair(skeleton.sell_token, skeleton.buy_token, tokens) ==> r == Err::<
                (Order, Vec<Interaction>, Vec<Interaction>, Vec<u8>),
                Error,
            >(Error::OrderTokensMismatch),
            trades_pair(skeleton.sell_token, skeleton.buy_token, tokens) && sell_amount_spec(
                tokens,
                skeleton.buy_token,
                skeleton.buy_amount.value(),
                balance0.value(),
                balance1.value(),
            ) is None ==> r == Err::<(Order, Vec<Interaction>, Vec<Interaction>, Vec<u8>), Error>(
                Error::Math,
            ),
            r is Ok <==> trades_pair(skeleton.sell_token, skeleton.buy_token, tokens) && sell_amount_spec(
                tokens,
                skeleton.buy_token,
                skeleton.buy_amount.value(),
                balance0.value(),
                balance1.value(),
            ) is Some,
            r matches Ok((o, pre, post, sig)) ==> {
                &&& self.priced(tokens, *skeleton, balance0.value(), balance1.value(), o)
                &&& trades_pair(o.sell_token, o.buy_token, tokens)
                &&& pre@.len() == 1
                &&& pre@[0].target == pool
                &&& pre@[0].value.value() == 0
                &&& pre@[0].call_data@ == keccak_of(COMMIT_SIGNATURE.spec_bytes()).subrange(0, 4)
                    + order_hash_bytes(domain_separator@, o)
                &&& post@.len() == 0
                &&& sig@ == address_bytes(pool) + order_bytes(o)
            },
    {
        let (t0, t1) = tokens;
        let sell = skeleton.sell_token;
        let buy = skeleton.buy_token;
        if !((sell == t0 && buy == t1) || (sell == t1 && buy == t0)) || sell == buy {
            return Err(Error::OrderTokensMismatch);
        }
        let o = match self.price_order(tokens, skeleton, balance0, balance1) {
            Ok(o) => o,
            Err(e) => return Err(e),
        };
        let hash = order_hash(domain_separator, &o);
        let (pre, post) = Contract::interactions(pool, commit_call_data(&hash));
        let sig = encode_signature(pool, &o);
        Ok((o, pre, post, sig))
    }

    /// The interactions around the settlement of an order on `pool`: one
    /// before it, the pool's commit call with `commit_call_data`, and none
    /// after it.
    pub fn interactions(pool: Address, commit_call_data: Vec<u8>) -> (r: (Vec<Interaction>, Vec<Interaction>))
        ensures
            r.0@.len() == 1,
            r.0@[0].target == pool,
            r.0@[0].value.value() == 0,
            r.0@[0].call_data@ == commit_call_data@,
            r.1@.len() == 0,
    {
        let pre = vec![Interaction { target: pool, value: Uint256::zero(), call_data: commit_call_data }];
        let post: Vec<Interaction> = Vec::new();
        (pre, post)
    }
}

} // verus!
