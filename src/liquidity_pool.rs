use vstd::prelude::*;
use crate::types::{batch_view, ContractError, Instruction, InstructionView};

verus! {

/// The parameters a pool starts with.
pub struct InstantiateMsg {
    pub om_token_address: String,
}

/// What a depositor asks to withdraw.
pub enum Asset {
    OmToken(u128),
    RwaToken { token_id: String, rwa_token_address: String },
}

/// The pool's bookkeeping of deposited OM tokens.
pub struct PoolInfo {
    pub om_token_address: String,
    pub total_om_tokens: u128,
}

/// An empty pool of the given OM token.
pub fn instantiate(msg: InstantiateMsg) -> (r: PoolInfo)
    ensures
        r.om_token_address@ == msg.om_token_address@,
        r.total_om_tokens == 0,
{
    PoolInfo { om_token_address: msg.om_token_address, total_om_tokens: 0 }
}

/// Adds `amount` to the pool's OM balance; a balance that would exceed 128
/// bits is refused.
pub fn deposit_om_token(pool: &mut PoolInfo, amount: u128) -> (r: Result<(), ContractError>)
    ensures
        final(pool).om_token_address == old(pool).om_token_address,
        r is Ok <==> old(pool).total_om_tokens + amount <= u128::MAX,
        r is Ok ==> final(pool).total_om_tokens == old(pool).total_om_tokens + amount,
        r is Err ==> r == Err::<(), ContractError>(ContractError::ArithmeticOverflow)
            && final(pool).total_om_tokens == old(pool).total_om_tokens,
{
    match pool.total_om_tokens.checked_add(amount) {
        Some(total) => {
            pool.total_om_tokens = total;
            Ok(())
        },
        None => Err(ContractError::ArithmeticOverflow),
    }
}

/// Withdraws `asset` to `sender`. OM tokens leave the pool's balance and are
/// transferred back, if the pool holds enough; an RWA token withdrawal
/// changes no balance and moves nothing.
pub fn withdraw_assets(pool: &mut PoolInfo, sender: &String, asset: Asset) -> (r: Result<
    Vec<Instruction>,
    ContractError,
>)
    ensures
        final(pool).om_token_address == old(pool).om_token_address,
        match asset {
            Asset::OmToken(amount) => {
                &&& r is Ok <==> amount <= old(pool).total_om_tokens
                &&& r is Err ==> r == Err::<Vec<Instruction>, ContractError>(
                    ContractError::InsufficientPoolBalance,
                ) && final(pool).total_om_tokens == old(pool).total_om_tokens
                &&& r matches Ok(b) ==> final(pool).total_om_tokens == old(pool).total_om_tokens - amount
                    && batch_view(b@) == seq![
                    InstructionView::TransferToken {
                        contract: old(pool).om_token_address@,
                        recipient: sender@,
                        amount: amount,
                    },
                ]
            },
            Asset::RwaToken { .. } => {
                &&& r matches Ok(b) && b@.len() == 0
                &&& final(pool).total_om_tokens == old(pool).total_om_tokens
            },
        },
{
    match asset {
        Asset::OmToken(amount) => {
            if amount > pool.total_om_tokens {
                return Err(ContractError::InsufficientPoolBalance);
            }
            pool.total_om_tokens = pool.total_om_tokens - amount;
            let payment = Instruction::TransferToken {
                contract: pool.om_token_address.clone(),
                recipient: sender.clone(),
                amount,
            };
            let batch = vec![payment];
            assert(batch_view(batch@) =~= seq![payment@]);
            Ok(batch)
        },
        Asset::RwaToken { .. } => Ok(Vec::new()),
    }
}

} // verus!
