use vstd::prelude::*;
use crate::types::{batch_view, ContractError, Instruction, InstructionView};

verus! {

/// The parameters a swap contract starts with.
pub struct InstantiateMsg {
    pub admin: String,
    pub gold_token_address: String,
    pub om_token_address: String,
}

/// The request carried by an incoming gold-token transfer.
#[derive(PartialEq, Eq, Structural, Debug, Clone, Copy)]
pub enum ReceiveMsg {
    SwapGoldForOm {},
}

/// The configuration of a fixed-rate swap from gold tokens to OM tokens.
pub struct State {
    pub admin: String,
    /// OM tokens paid per gold token.
    pub gold_to_om_rate: u128,
    pub gold_token_address: String,
    pub om_token_address: String,
}

/// The initial configuration: the given admin and tokens, and a rate of
/// zero until the admin sets one.
pub fn instantiate(msg: InstantiateMsg) -> (r: State)
    ensures
        r.admin@ == msg.admin@,
        r.gold_to_om_rate == 0,
        r.gold_token_address@ == msg.gold_token_address@,
        r.om_token_address@ == msg.om_token_address@,
{
    State {
        admin: msg.admin,
        gold_to_om_rate: 0,
        gold_token_address: msg.gold_token_address,
        om_token_address: msg.om_token_address,
    }
}

/// Sets the exchange rate; only the admin may.
pub fn execute_set_exchange_rate(state: &mut State, sender: &String, gold_to_om_rate: u128) -> (r: Result<
    (),
    ContractError,
>)
    ensures
        r is Ok <==> sender@ == old(state).admin@,
        r is Err ==> r == Err::<(), ContractError>(ContractError::Unauthorized) && *final(state) == *old(state),
        r is Ok ==> *final(state) == (State { gold_to_om_rate, ..*old(state) }),
{
    if *sender != state.admin {
        return Err(ContractError::Unauthorized);
    }
    state.gold_to_om_rate = gold_to_om_rate;
    Ok(())
}

/// Handles `amount` gold tokens that `sender` transferred in through the
/// token contract `token_contract`: pays `sender` `amount` times the rate in
/// OM tokens. Only the configured gold token is accepted, and a payment
/// that exceeds 128 bits is refused.
pub fn execute_receive(state: &State, token_contract: &String, sender: &String, amount: u128, msg: ReceiveMsg) -> (r:
    Result<Vec<Instruction>, ContractError>)
    ensures
        token_contract@ != state.gold_token_address@ ==> r == Err::<Vec<Instruction>, ContractError>(
            ContractError::TokenNotAllowed,
        ),
        token_contract@ == state.gold_token_address@ && state.gold_to_om_rate * amount > u128::MAX ==> r
            == Err::<Vec<Instruction>, ContractError>(ContractError::ArithmeticOverflow),
        r is Ok <==> token_contract@ == state.gold_token_address@ && state.gold_to_om_rate * amount
            <= u128::MAX,
        r matches Ok(b) ==> batch_view(b@) == seq![
            InstructionView::TransferToken {
                contract: state.om_token_address@,
                recipient: sender@,
                amount: (state.gold_to_om_rate * amount) as u128,
            },
        ],
{
    if *token_contract != state.gold_token_address {
        return Err(ContractError::TokenNotAllowed);
    }
    match msg {
        ReceiveMsg::SwapGoldForOm {} => {
            let om_amount = match state.gold_to_om_rate.checked_mul(amount) {
                Some(v) => v,
                None => {
                    return Err(ContractError::ArithmeticOverflow);
                },
            };
            let payment = Instruction::TransferToken {
                contract: state.om_token_address.clone(),
                recipient: sender.clone(),
                amount: om_amount,
            };
            let batch = vec![payment];
            assert(batch_view(batch@) =~= seq![payment@]);
            Ok(batch)
        },
    }
}

} // verus!
