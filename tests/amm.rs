use mev_amm::address::Address;
use mev_amm::error::Error;
use mev_amm::fixed::{bdiv, bmul, bpow};
use mev_amm::liquidity::{bootstrap_liquidity, proportional_liquidity, sqrt};
use mev_amm::math::{calc_in_given_out, calc_out_given_in, calc_spot_price};
use mev_amm::oracle::get_oracle;
use mev_amm::order::{commit_call_data, encode_order, encode_signature, order_hash, Contract, Order};
use mev_amm::pool::AMM;
use mev_amm::uint::Uint256;

const ONE: u128 = 1_000_000_000_000_000_000;

fn u(x: u128) -> Uint256 {
    Uint256::from_u128(x)
}

fn addr(n: u32) -> Address {
    Address { hi: 0, lo: n }
}

fn max_value() -> Uint256 {
    Uint256 { l0: u64::MAX, l1: u64::MAX, l2: u64::MAX, l3: u64::MAX }
}

/// An initialised pool whose reserves are `r0` and `r1`.
fn pool_with_reserves(r0: u128, r1: u128) -> AMM {
    let mut pool = AMM::new();
    pool.initialize(addr(9), addr(1), addr(2)).unwrap();
    pool.update(u(r0), u(r1), u(1), u(1));
    pool
}

/// A weighted pool with tokens 1 and 2 bound under the given weights.
fn weighted_pool(w1: u128, w2: u128, fee: u128) -> AMM {
    let mut pool = AMM::new();
    pool.bind(addr(1), u(w1));
    pool.bind(addr(2), u(w2));
    pool.set_swap_fee(u(fee));
    pool
}

#[test]
fn first_deposit_mints_root_less_minimum() {
    let mut pool = AMM::new();
    let holder = addr(7);
    let minted = pool.add_liquidity(holder, u(10_000), u(10_000)).unwrap();
    assert_eq!(minted, u(9_000));
    assert_eq!(pool.lp_balance_of(holder), u(9_000));
    assert_eq!(pool.lp_balance_of(Address::zero()), u(1_000));
    assert_eq!(pool.lp_total_supply(), u(10_000));
}

#[test]
fn first_deposit_too_small_fails() {
    assert_eq!(bootstrap_liquidity(&u(10), &u(10)), Err(Error::Underflow));
    assert_eq!(bootstrap_liquidity(&u(1_000), &u(1_001)), Err(Error::ZeroLiquidity));
    assert_eq!(bootstrap_liquidity(&max_value(), &u(2)), Err(Error::Overflow));
    assert_eq!(bootstrap_liquidity(&u(1_002), &u(1_002)), Ok(u(2)));
}

#[test]
fn deposit_below_reserves_fails() {
    let mut pool = pool_with_reserves(1_000, 1_000);
    assert_eq!(pool.add_liquidity(addr(7), u(999), u(2_000)), Err(Error::Overflow));
}

#[test]
fn proportional_mint_takes_smaller_share_and_doubles() {
    assert_eq!(proportional_liquidity(&u(100), &u(200), &u(1_000), &u(1_000), &u(1_000)), Ok(u(100)));
    assert_eq!(proportional_liquidity(&u(200), &u(400), &u(1_000), &u(1_000), &u(1_000)), Ok(u(200)));
    assert_eq!(proportional_liquidity(&u(0), &u(400), &u(1_000), &u(1_000), &u(1_000)), Err(Error::ZeroLiquidity));
    assert_eq!(proportional_liquidity(&u(1), &u(1), &u(1_000), &u(0), &u(1_000)), Err(Error::Math));
}

#[test]
fn second_deposit_mints_proportionally() {
    let mut pool = AMM::new();
    pool.add_liquidity(addr(7), u(10_000), u(10_000)).unwrap();
    pool.update(u(10_000), u(10_000), u(1), u(1));
    let minted = pool.add_liquidity(addr(8), u(15_000), u(20_000)).unwrap();
    assert_eq!(minted, u(5_000));
    assert_eq!(pool.get_reserves(), (u(15_000), u(20_000)));
    assert_eq!(pool.lp_total_supply(), u(15_000));
}

#[test]
fn deposit_then_withdraw_returns_deposit_less_locked_share() {
    let mut pool = AMM::new();
    let holder = addr(7);
    let this = addr(100);
    let minted = pool.add_liquidity(holder, u(10_000), u(10_000)).unwrap();
    pool.burn(holder, minted).unwrap();
    pool.mint_to(this, minted).unwrap();
    let (a0, a1) = pool.remove_liquidity(this, u(10_000), u(10_000)).unwrap();
    assert_eq!((a0, a1), (u(9_000), u(9_000)));
    assert_eq!(pool.lp_balance_of(this), u(0));
    assert_eq!(pool.lp_total_supply(), u(1_000));
}

#[test]
fn withdraw_without_units_fails() {
    let mut pool = AMM::new();
    assert_eq!(pool.remove_liquidity(addr(100), u(10), u(10)), Err(Error::Math));
    pool.add_liquidity(addr(7), u(10_000), u(10_000)).unwrap();
    assert_eq!(
        pool.remove_liquidity(addr(100), u(10_000), u(10_000)),
        Err(Error::InsufficientLiquidityBurned)
    );
}

#[test]
fn swap_without_output_is_refused() {
    let mut pool = pool_with_reserves(1_000, 1_000);
    assert_eq!(pool.swap_request(u(0), u(0)), Err(Error::InsufficientOutputAmount));
    assert_eq!(pool.swap(u(0), u(0), u(1_000), u(1_000)), Err(Error::InsufficientOutputAmount));
    assert_eq!(pool.get_reserves(), (u(1_000), u(1_000)));
}

#[test]
fn swap_of_whole_reserve_is_refused() {
    let pool = pool_with_reserves(1_000, 1_000);
    assert_eq!(pool.swap_request(u(0), u(1_000)), Err(Error::InsufficientLiquidity));
    assert_eq!(pool.swap_request(u(0), u(999)), Ok(()));
}

#[test]
fn swap_without_input_is_refused() {
    let mut pool = pool_with_reserves(1_000, 1_000);
    assert_eq!(pool.swap(u(0), u(100), u(1_000), u(900)), Err(Error::InsufficientInputAmount));
}

#[test]
fn swap_keeps_fee_adjusted_product() {
    let mut pool = pool_with_reserves(1_000, 1_000);
    assert_eq!(pool.swap(u(0), u(100), u(1_111), u(900)), Err(Error::InvariantViolated));
    assert_eq!(pool.get_reserves(), (u(1_000), u(1_000)));
    assert_eq!(pool.swap(u(0), u(100), u(1_112), u(900)), Ok(()));
    assert_eq!(pool.get_reserves(), (u(1_112), u(900)));
    assert!(1_112u128 * 900 > 1_000 * 1_000);
}

#[test]
fn price_is_reserve_ratio() {
    assert_eq!(AMM::new().price(), u(0));
    assert_eq!(pool_with_reserves(1_000, 4_000).price(), u(4));
}

#[test]
fn initialize_only_once_with_distinct_tokens() {
    let mut pool = AMM::new();
    assert_eq!(pool.initialize(addr(9), addr(1), addr(1)), Err(Error::IdenticalTokens));
    assert_eq!(pool.initialize(addr(9), addr(1), addr(2)), Ok(()));
    assert_eq!(pool.initialize(addr(9), addr(3), addr(4)), Err(Error::AlreadyInitialized));
}

#[test]
fn lp_burn_beyond_balance_fails() {
    let mut pool = AMM::new();
    pool.mint(addr(3), u(50)).unwrap();
    assert_eq!(pool.burn(addr(3), u(51)), Err(Error::InsufficientBalance));
    assert_eq!(pool.burn(addr(3), u(20)), Ok(()));
    assert_eq!(pool.lp_balance_of(addr(3)), u(30));
    assert_eq!(pool.lp_total_supply(), u(30));
    assert_eq!(pool.mint(addr(3), max_value()), Err(Error::Overflow));
}

#[test]
fn integer_square_root() {
    assert_eq!(sqrt(&u(0)), u(0));
    assert_eq!(sqrt(&u(3)), u(1));
    assert_eq!(sqrt(&u(4)), u(2));
    assert_eq!(sqrt(&u(15)), u(3));
    assert_eq!(sqrt(&u(16)), u(4));
    assert_eq!(sqrt(&u(100_000_000)), u(10_000));
    assert_eq!(sqrt(&u(u128::MAX)), u(u64::MAX as u128));
    assert_eq!(sqrt(&max_value()), Uint256 { l0: u64::MAX, l1: u64::MAX, l2: 0, l3: 0 });
}

#[test]
fn wide_arithmetic() {
    assert_eq!(u(6).checked_mul(&u(7)), Some(u(42)));
    assert_eq!(max_value().checked_mul(&u(2)), None);
    assert_eq!(u(6).checked_sub(&u(7)), None);
    assert_eq!(u(7).checked_sub(&u(6)), Some(u(1)));
    assert_eq!(max_value().checked_add(&u(1)), None);
    assert_eq!(u(u128::MAX).checked_add(&u(1)), Some(Uint256 { l0: 0, l1: 0, l2: 1, l3: 0 }));
    assert_eq!(u(43).checked_div(&u(7)), Some(u(6)));
    assert_eq!(u(43).checked_div(&u(0)), None);
    assert_eq!(u(3).min(&u(4)), u(3));
    assert_eq!(u(5).min(&u(4)), u(4));
    assert_eq!(u(3).saturating_sub(&u(4)), u(0));
    assert_eq!(u(u128::MAX).saturating_sub(&u(1)), u(u128::MAX - 1));
}

#[test]
fn spot_price_with_fee() {
    assert_eq!(calc_spot_price(u(200 * ONE), u(ONE), u(200 * ONE), u(ONE), u(0)), Ok(u(ONE)));
    assert_eq!(
        calc_spot_price(u(200 * ONE), u(ONE), u(200 * ONE), u(ONE), u(3_000_000_000_000_000)),
        Ok(u(1_003_009_027_081_243_731))
    );
    assert_eq!(calc_spot_price(u(200 * ONE), u(2 * ONE), u(200 * ONE), u(ONE), u(0)), Ok(u(ONE / 2)));
    assert_eq!(calc_spot_price(u(200 * ONE), u(0), u(200 * ONE), u(ONE), u(0)), Err(Error::Math));
}

#[test]
fn out_given_in_equal_and_unequal_weights() {
    assert_eq!(
        calc_out_given_in(u(200 * ONE), u(ONE), u(200 * ONE), u(ONE), u(10 * ONE), u(0)),
        Ok(u(9_523_809_523_809_523_800))
    );
    assert_eq!(
        calc_out_given_in(u(200 * ONE), u(2 * ONE), u(200 * ONE), u(ONE), u(10 * ONE), u(0)),
        Ok(u(18_594_104_308_390_022_600))
    );
    assert_eq!(
        calc_out_given_in(u(200 * ONE), u(ONE), u(200 * ONE), u(2 * ONE), u(10 * ONE), u(0)),
        Ok(u(4_819_985_410_221_273_200))
    );
    assert_eq!(
        calc_in_given_out(u(200 * ONE), u(ONE), u(200 * ONE), u(2 * ONE), u(5 * ONE), u(0)),
        Ok(u(10_387_902_695_595_003_600))
    );
}

#[test]
fn round_trip_does_not_gain() {
    let out = calc_out_given_in(u(200 * ONE), u(ONE), u(200 * ONE), u(ONE), u(10 * ONE), u(0)).unwrap();
    let back = calc_in_given_out(u(200 * ONE), u(ONE), u(200 * ONE), u(ONE), out, u(0)).unwrap();
    assert!(u(10 * ONE).checked_sub(&back).is_some());
    assert_eq!(back, u(10 * ONE));
}

#[test]
fn weighted_swap_exact_in_on_equal_weights() {
    let pool = weighted_pool(ONE, ONE, 0);
    let r = pool.swap_exact_amount_in(addr(1), u(10 * ONE), addr(2), u(0), u(200 * ONE), u(200 * ONE), Ok(max_value()));
    assert_eq!(r, Ok((u(9_523_809_523_809_523_800), u(1_102_500_000_000_000_000))));
}

#[test]
fn weighted_swap_exact_in_below_minimum_fails() {
    let pool = weighted_pool(ONE, ONE, 0);
    let r = pool.swap_exact_amount_in(
        addr(1),
        u(10 * ONE),
        addr(2),
        u(9_523_809_523_809_523_801),
        u(200 * ONE),
        u(200 * ONE),
        Ok(max_value()),
    );
    assert_eq!(r, Err(Error::TokenAmountOutBelowMinOut));
}

#[test]
fn weighted_swap_exact_out_on_equal_weights() {
    let pool = weighted_pool(ONE, ONE, 0);
    let r = pool.swap_exact_amount_out(addr(1), u(6 * ONE), addr(2), u(5 * ONE), u(200 * ONE), u(200 * ONE), Ok(max_value()));
    assert_eq!(r, Ok((u(5_128_205_128_205_128_400), u(1_051_939_513_477_975_017))));
    let r = pool.swap_exact_amount_out(addr(1), u(5 * ONE), addr(2), u(5 * ONE), u(200 * ONE), u(200 * ONE), Ok(max_value()));
    assert_eq!(r, Err(Error::TokenAmountInAboveMaxAmountIn));
}

#[test]
fn weighted_swap_bounded_by_oracle() {
    let pool = weighted_pool(ONE, ONE, 0);
    let before_too_high = pool.swap_exact_amount_in(addr(1), u(10 * ONE), addr(2), u(0), u(200 * ONE), u(200 * ONE), Ok(u(ONE - 1)));
    assert_eq!(before_too_high, Err(Error::SpotPriceAboveMaxPrice));
    let after_too_high = pool.swap_exact_amount_in(addr(1), u(10 * ONE), addr(2), u(0), u(200 * ONE), u(200 * ONE), Ok(u(ONE)));
    assert_eq!(after_too_high, Err(Error::SpotPriceAboveMaxPrice));
    let no_oracle = pool.swap_exact_amount_in(addr(1), u(10 * ONE), addr(2), u(0), u(200 * ONE), u(200 * ONE), Err(Error::UnknownOracle));
    assert_eq!(no_oracle, Err(Error::UnknownOracle));
}

#[test]
fn weighted_swap_caps_and_bindings() {
    let pool = weighted_pool(ONE, ONE, 0);
    let too_much_in = pool.swap_exact_amount_in(addr(1), u(100 * ONE + 1), addr(2), u(0), u(200 * ONE), u(200 * ONE), Ok(max_value()));
    assert_eq!(too_much_in, Err(Error::TokenAmountInAboveMaxRatio));
    let too_much_out = pool.swap_exact_amount_out(addr(1), max_value(), addr(2), u(67 * ONE), u(200 * ONE), u(200 * ONE), Ok(max_value()));
    assert_eq!(too_much_out, Err(Error::TokenAmountOutAboveMaxRatio));
    let unbound = pool.swap_exact_amount_in(addr(1), u(ONE), addr(3), u(0), u(200 * ONE), u(200 * ONE), Ok(max_value()));
    assert_eq!(unbound, Err(Error::TokenNotBound));
}

#[test]
fn transfer_success_rule() {
    let mut yes = vec![0u8; 32];
    yes[31] = 1;
    assert_eq!(AMM::safe_transfer(&Ok(vec![])), Ok(()));
    assert_eq!(AMM::safe_transfer(&Ok(yes.clone())), Ok(()));
    let mut two = yes.clone();
    two[31] = 2;
    assert_eq!(AMM::safe_transfer(&Ok(two)), Err(Error::TransferFailed));
    let mut dirty = yes.clone();
    dirty[0] = 1;
    assert_eq!(AMM::safe_transfer(&Ok(dirty)), Err(Error::TransferFailed));
    assert_eq!(AMM::safe_transfer(&Ok(vec![1u8])), Err(Error::TransferFailed));
    assert_eq!(AMM::safe_transfer(&Err(vec![])), Err(Error::TransferFailed));
}

#[test]
fn oracle_table() {
    assert_eq!(get_oracle("XYZ"), Err(Error::UnknownOracle));
    assert_eq!(get_oracle("arb"), Err(Error::UnknownOracle));
    let arb = get_oracle("ARB");
    assert_ne!(arb, Err(Error::UnknownOracle));
    assert_eq!(get_oracle("ETH"), get_oracle("BTC"));
    assert_ne!(get_oracle("GYD"), Err(Error::UnknownOracle));
}

#[test]
fn oracle_address_bytes() {
    let arb = get_oracle("ARB").unwrap();
    assert_eq!(arb.hi, 0x91Fa05bCab98aD3DdEaE33DF7213EE86);
    assert_eq!(arb.lo, 0x42e3c66c);
}

#[test]
fn order_pool_checks() {
    let two = vec![addr(1), addr(2)];
    assert_eq!(Contract::tokens(true, &two, (u(ONE / 2), u(ONE / 2))), Ok((addr(1), addr(2))));
    assert_eq!(Contract::tokens(false, &two, (u(ONE / 2), u(ONE / 2))), Err(Error::PoolDoesNotExist));
    assert_eq!(Contract::tokens(true, &vec![addr(1)], (u(0), u(0))), Err(Error::PoolDoesNotExist));
    assert_eq!(Contract::tokens(true, &two, (u(ONE / 2), u(ONE / 3))), Err(Error::PoolDoesNotExist));
}

#[test]
fn order_sells_on_the_pool_curve() {
    let builder = Contract::init(addr(50), [7u8; 32]);
    let skeleton = Order {
        sell_token: addr(2),
        buy_token: addr(1),
        sell_amount: u(0),
        buy_amount: u(10 * ONE),
        valid_to: 1_000,
        app_data: [0u8; 32],
        fee_amount: u(5),
    };
    let (order, pre, post, sig) =
        builder.order(addr(60), (addr(1), addr(2)), &skeleton, u(200 * ONE), u(200 * ONE), &[3u8; 32]).unwrap();
    assert_eq!(order.sell_amount, u(9_523_809_523_809_523_800));
    assert_eq!(pre.len(), 1);
    assert_eq!(pre[0].target, addr(60));
    assert_eq!(pre[0].value, u(0));
    assert_eq!(pre[0].call_data, commit_call_data(&order_hash(&[3u8; 32], &order)));
    assert!(post.is_empty());
    assert_eq!(sig, encode_signature(addr(60), &order));
    let mut foreign = skeleton.clone();
    foreign.buy_token = addr(3);
    assert_eq!(
        builder.order(addr(60), (addr(1), addr(2)), &foreign, u(200 * ONE), u(200 * ONE), &[3u8; 32]).err(),
        Some(Error::OrderTokensMismatch)
    );
    let mut same = skeleton.clone();
    same.sell_token = addr(1);
    assert_eq!(
        builder.order(addr(60), (addr(1), addr(2)), &same, u(200 * ONE), u(200 * ONE), &[3u8; 32]).err(),
        Some(Error::OrderTokensMismatch)
    );
    assert_eq!(order.app_data, [7u8; 32]);
    assert_eq!(order.fee_amount, u(0));
    assert_eq!(order.buy_amount, u(10 * ONE));
    let (pre, post) = Contract::interactions(addr(60), vec![1, 2, 3]);
    assert_eq!(pre.len(), 1);
    assert_eq!(pre[0].target, addr(60));
    assert_eq!(pre[0].call_data, vec![1, 2, 3]);
    assert!(post.is_empty());
}

#[test]
fn fixed_point_products_round_to_nearest() {
    assert_eq!(bmul(&u(3 * ONE / 2), &u(ONE / 2)), Ok(u(3 * ONE / 4)));
    assert_eq!(bmul(&u(1), &u(ONE / 2)), Ok(u(1)));
    assert_eq!(bmul(&u(1), &u(ONE / 2 - 1)), Ok(u(0)));
    assert_eq!(bdiv(&u(ONE), &u(3 * ONE)), Ok(u(333_333_333_333_333_333)));
    assert_eq!(bdiv(&u(2 * ONE), &u(3 * ONE)), Ok(u(666_666_666_666_666_667)));
    assert_eq!(bdiv(&u(ONE), &u(0)), Err(Error::Math));
}

#[test]
fn fixed_point_powers() {
    assert_eq!(bpow(&u(3 * ONE / 2), &u(3 * ONE)), Ok(u(3_375_000_000_000_000_000)));
    assert_eq!(bpow(&u(ONE / 4), &u(ONE / 2)), Ok(u(500_000_000_254_041_274)));
    assert_eq!(bpow(&u(3 * ONE / 2), &u(3 * ONE / 2)), Ok(u(1_837_117_307_120_171_528)));
    assert_eq!(bpow(&u(ONE / 4), &u(0)), Ok(u(ONE)));
    assert_eq!(bpow(&u(0), &u(ONE)), Err(Error::Math));
    assert_eq!(bpow(&u(2 * ONE), &u(ONE)), Err(Error::Math));
}

#[test]
fn order_signature_packs_pool_and_words() {
    let order = Order {
        sell_token: Address { hi: 0x0102_0304_0506_0708_090a_0b0c_0d0e_0f10, lo: 0x1112_1314 },
        buy_token: addr(2),
        sell_amount: u(0x0100),
        buy_amount: Uint256 { l0: 5, l1: 0, l2: 0, l3: 7 },
        valid_to: 0x0a0b_0c0d,
        app_data: [9u8; 32],
        fee_amount: u(0),
    };
    let words = encode_order(&order);
    assert_eq!(words.len(), 7 * 32);
    let mut sell = vec![0u8; 12];
    sell.extend_from_slice(&[1, 2, 3, 4, 5, 6, 7, 8, 9, 10, 11, 12, 13, 14, 15, 16, 17, 18, 19, 20]);
    assert_eq!(&words[..32], &sell[..]);
    assert_eq!(words[63], 2);
    assert_eq!(&words[64..96], &{ let mut w = vec![0u8; 32]; w[30] = 1; w }[..]);
    assert_eq!(words[96 + 7], 7);
    assert_eq!(words[127], 5);
    assert_eq!(&words[128..160], &{ let mut w = vec![0u8; 32]; w[28..].copy_from_slice(&[10, 11, 12, 13]); w }[..]);
    assert_eq!(&words[160..192], &[9u8; 32][..]);
    assert_eq!(&words[192..], &[0u8; 32][..]);
    let sig = encode_signature(addr(0x0203_0405), &order);
    assert_eq!(sig.len(), 20 + 7 * 32);
    assert_eq!(&sig[..20], &[0, 0, 0, 0, 0, 0, 0, 0, 0, 0, 0, 0, 0, 0, 0, 0, 2, 3, 4, 5][..]);
    assert_eq!(&sig[20..], &words[..]);
}

#[test]
fn equal_weight_output_rounds_for_the_pool() {
    assert_eq!(
        calc_out_given_in(u(1), u(ONE), u(3 * ONE), u(ONE), u(2), u(0)),
        Ok(u(1_999_999_999_999_999_998))
    );
}

#[test]
fn swap_checks_before_the_oracle() {
    let pool = weighted_pool(ONE, ONE, 0);
    assert_eq!(pool.check_swap_in(addr(1), u(ONE), addr(3), u(200 * ONE)), Err(Error::TokenNotBound));
    assert_eq!(pool.check_swap_in(addr(1), u(100 * ONE + 1), addr(2), u(200 * ONE)), Err(Error::TokenAmountInAboveMaxRatio));
    assert_eq!(pool.check_swap_in(addr(1), u(100 * ONE), addr(2), u(200 * ONE)), Ok(()));
    assert_eq!(pool.check_swap_out(addr(3), addr(2), u(ONE), u(200 * ONE)), Err(Error::TokenNotBound));
    assert_eq!(pool.check_swap_out(addr(1), addr(2), u(67 * ONE), u(200 * ONE)), Err(Error::TokenAmountOutAboveMaxRatio));
    assert_eq!(pool.check_swap_out(addr(1), addr(2), u(66 * ONE), u(200 * ONE)), Ok(()));
}

#[test]
fn order_hash_and_commit() {
    let mut order = Order {
        sell_token: addr(1),
        buy_token: addr(2),
        sell_amount: u(3),
        buy_amount: u(4),
        valid_to: 5,
        app_data: [6u8; 32],
        fee_amount: u(0),
    };
    let h1 = order_hash(&[1u8; 32], &order);
    assert_eq!(h1.len(), 32);
    assert_ne!(h1, order_hash(&[2u8; 32], &order));
    order.sell_amount = u(4);
    assert_ne!(h1, order_hash(&[1u8; 32], &order));
    let data = commit_call_data(&h1);
    assert_eq!(data.len(), 36);
    assert_eq!(&data[4..], &h1[..]);
    assert_eq!(&data[..4], &commit_call_data(&vec![0u8; 32])[..4]);
}

#[test]
fn doubled_deposit_mints_double() {
    let mut base = AMM::new();
    base.add_liquidity(addr(7), u(10_000), u(10_000)).unwrap();
    base.update(u(10_000), u(10_000), u(1), u(1));
    let mut once = AMM::new();
    once.add_liquidity(addr(7), u(10_000), u(10_000)).unwrap();
    once.update(u(10_000), u(10_000), u(1), u(1));
    let l1 = base.add_liquidity(addr(8), u(10_100), u(10_300)).unwrap();
    let l2 = once.add_liquidity(addr(8), u(10_200), u(10_600)).unwrap();
    assert_eq!(l1, u(100));
    assert_eq!(l2, u(200));
}
