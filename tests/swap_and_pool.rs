use rwa_stockholm::gold_swap::{self, execute_receive, execute_set_exchange_rate, ReceiveMsg};
use rwa_stockholm::liquidity_pool::{self, deposit_om_token, withdraw_assets, Asset};
use rwa_stockholm::types::{ContractError, Instruction};

fn s(x: &str) -> String {
    x.to_string()
}

fn swap_state() -> gold_swap::State {
    gold_swap::instantiate(gold_swap::InstantiateMsg {
        admin: s("admin"),
        gold_token_address: s("gold"),
        om_token_address: s("om"),
    })
}

#[test]
fn swap_starts_at_rate_zero() {
    let st = swap_state();
    assert_eq!(st.gold_to_om_rate, 0);
    assert_eq!(st.admin, s("admin"));
}

#[test]
fn only_admin_sets_rate() {
    let mut st = swap_state();
    assert_eq!(execute_set_exchange_rate(&mut st, &s("bob"), 5), Err(ContractError::Unauthorized));
    assert_eq!(st.gold_to_om_rate, 0);
    assert_eq!(execute_set_exchange_rate(&mut st, &s("admin"), 5), Ok(()));
    assert_eq!(st.gold_to_om_rate, 5);
}

#[test]
fn swap_pays_rate_times_amount() {
    let mut st = swap_state();
    execute_set_exchange_rate(&mut st, &s("admin"), 3).unwrap();
    let batch = execute_receive(&st, &s("gold"), &s("bob"), 7, ReceiveMsg::SwapGoldForOm {}).unwrap();
    assert_eq!(batch, vec![Instruction::TransferToken { contract: s("om"), recipient: s("bob"), amount: 21 }]);
}

#[test]
fn swap_refuses_other_tokens() {
    let st = swap_state();
    assert_eq!(
        execute_receive(&st, &s("silver"), &s("bob"), 7, ReceiveMsg::SwapGoldForOm {}),
        Err(ContractError::TokenNotAllowed)
    );
}

#[test]
fn swap_overflow_is_refused() {
    let mut st = swap_state();
    execute_set_exchange_rate(&mut st, &s("admin"), u128::MAX).unwrap();
    assert_eq!(
        execute_receive(&st, &s("gold"), &s("bob"), 2, ReceiveMsg::SwapGoldForOm {}),
        Err(ContractError::ArithmeticOverflow)
    );
}

#[test]
fn pool_deposit_and_withdraw() {
    let mut p = liquidity_pool::instantiate(liquidity_pool::InstantiateMsg { om_token_address: s("om") });
    assert_eq!(p.total_om_tokens, 0);
    deposit_om_token(&mut p, 50).unwrap();
    deposit_om_token(&mut p, 25).unwrap();
    assert_eq!(p.total_om_tokens, 75);
    let batch = withdraw_assets(&mut p, &s("bob"), Asset::OmToken(30)).unwrap();
    assert_eq!(batch, vec![Instruction::TransferToken { contract: s("om"), recipient: s("bob"), amount: 30 }]);
    assert_eq!(p.total_om_tokens, 45);
}

#[test]
fn pool_refuses_overdraw_and_overflow() {
    let mut p = liquidity_pool::instantiate(liquidity_pool::InstantiateMsg { om_token_address: s("om") });
    deposit_om_token(&mut p, 10).unwrap();
    assert_eq!(withdraw_assets(&mut p, &s("bob"), Asset::OmToken(11)), Err(ContractError::InsufficientPoolBalance));
    assert_eq!(p.total_om_tokens, 10);
    assert_eq!(deposit_om_token(&mut p, u128::MAX), Err(ContractError::ArithmeticOverflow));
    assert_eq!(p.total_om_tokens, 10);
}

#[test]
fn pool_rwa_withdraw_moves_nothing() {
    let mut p = liquidity_pool::instantiate(liquidity_pool::InstantiateMsg { om_token_address: s("om") });
    deposit_om_token(&mut p, 10).unwrap();
    let batch = withdraw_assets(&mut p, &s("bob"), Asset::RwaToken { token_id: s("t"), rwa_token_address: s("rwa") }).unwrap();
    assert!(batch.is_empty());
    assert_eq!(p.total_om_tokens, 10);
}
