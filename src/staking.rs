use vstd::prelude::*;
use crate::auth::{permits, permits_spec};
use crate::ledger::{Keyed, Ledger};
use crate::types::{batch_view, ContractError, Instruction, InstructionView};

verus! {

/// Seconds in one day of accrual.
pub const SECONDS_PER_DAY: u64 = 86400;

/// An asset held in custody to earn rewards over time.
pub struct StakedAsset {
    pub owner: String,
    pub nft_contract_address: String,
    pub token_id: String,
    /// Unix time, in seconds, from which rewards accrue.
    pub staked_since: u64,
}

pub struct StakedAssetView {
    pub owner: Seq<char>,
    pub nft_contract_address: Seq<char>,
    pub token_id: Seq<char>,
    pub staked_since: u64,
}

impl View for StakedAsset {
    type V = StakedAssetView;

    open spec fn view(&self) -> StakedAssetView {
        StakedAssetView {
            owner: self.owner@,
            nft_contract_address: self.nft_contract_address@,
            token_id: self.token_id@,
            staked_since: self.staked_since,
        }
    }
}

impl Keyed for StakedAsset {
    open spec fn key(&self) -> Seq<char> {
        self.token_id@
    }

    fn key_ref(&self) -> (r: &String) {
        &self.token_id
    }
}

/// The reward owed for holding a position from `since` until `now` at
/// `rate` per whole day, as a mathematical integer.
pub open spec fn reward_spec(rate: u128, since: u64, now: u64) -> int {
    rate * ((now - since) / (SECONDS_PER_DAY as int))
}

/// The reward for holding a position from `since` until `now` at `rate`
/// per whole day: `rate * floor((now - since) / 86400)`. Fails with
/// `InvalidTimestamp` when `now` is before `since`, and with
/// `ArithmeticOverflow` when the product exceeds 128 bits.
pub fn compute_reward(rate: u128, since: u64, now: u64) -> (r: Result<u128, ContractError>)
    ensures
        now < since ==> r == Err::<u128, ContractError>(ContractError::InvalidTimestamp),
        since <= now && reward_spec(rate, since, now) > u128::MAX ==> r == Err::<u128, ContractError>(
            ContractError::ArithmeticOverflow,
        ),
        since <= now && reward_spec(rate, since, now) <= u128::MAX ==> r == Ok::<u128, ContractError>(
            reward_spec(rate, since, now) as u128,
        ),
{
    if now < since {
        return Err(ContractError::InvalidTimestamp);
    }
    let days = (now - since) / SECONDS_PER_DAY;
    match rate.checked_mul(days as u128) {
        Some(v) => Ok(v),
        None => Err(ContractError::ArithmeticOverflow),
    }
}

/// The positions after `caller` stakes `token_id` of `nft_contract_address`
/// at time `now`.
pub open spec fn after_stake(
    assets: Map<Seq<char>, StakedAssetView>,
    nft_contract_address: Seq<char>,
    token_id: Seq<char>,
    caller: Seq<char>,
    now: u64,
) -> Map<Seq<char>, StakedAssetView> {
    assets.insert(token_id, StakedAssetView { owner: caller, nft_contract_address, token_id, staked_since: now })
}

/// Whether `caller` may end the position on `token_id`.
pub open spec fn unstake_succeeds(assets: Map<Seq<char>, StakedAssetView>, token_id: Seq<char>, caller: Seq<char>) -> bool {
    assets.contains_key(token_id) && permits_spec(caller, assets[token_id].owner)
}

/// The positions after `caller` asks to unstake `token_id`.
pub open spec fn after_unstake(assets: Map<Seq<char>, StakedAssetView>, token_id: Seq<char>, caller: Seq<char>) -> Map<
    Seq<char>,
    StakedAssetView,
> {
    if unstake_succeeds(assets, token_id, caller) {
        assets.remove(token_id)
    } else {
        assets
    }
}

/// Staking, unstaking and staking again the same asset restarts accrual at
/// the second stake: the unstake by the staker succeeds, the position then
/// accrues from the second stake's time, and nothing is owed at that time.
pub proof fn lemma_restake_restarts_accrual(
    assets: Map<Seq<char>, StakedAssetView>,
    first_contract: Seq<char>,
    second_contract: Seq<char>,
    token_id: Seq<char>,
    staker: Seq<char>,
    second_staker: Seq<char>,
    first_time: u64,
    second_time: u64,
    rate: u128,
)
    ensures
        ({
            let staked = after_stake(assets, first_contract, token_id, staker, first_time);
            let unstaked = after_unstake(staked, token_id, staker);
            let restaked = after_stake(unstaked, second_contract, token_id, second_staker, second_time);
            &&& unstake_succeeds(staked, token_id, staker)
            &&& !unstaked.contains_key(token_id)
            &&& restaked.contains_key(token_id)
            &&& restaked[token_id].staked_since == second_time
            &&& reward_spec(rate, restaked[token_id].staked_since, second_time) == 0
        }),
{
    let staked = after_stake(assets, first_contract, token_id, staker, first_time);
    assert(staked[token_id].owner == staker);
    assert((second_time - second_time) / (SECONDS_PER_DAY as int) == 0);
}

/// Every position is stored under the asset it holds.
pub proof fn lemma_position_under_its_asset(p: &StakingInfo)
    requires
        p.wf(),
    ensures
        forall|k: Seq<char>| #[trigger] p.staked_assets@.contains_key(k) ==> p.staked_assets@[k].token_id == k,
{
    p.staked_assets.lemma_stored_under_own_key();
}

/// The staking pool: its positions, one per asset, and its reward terms.
pub struct StakingInfo {
    /// The fungible token in which rewards are paid.
    pub om_token_address: String,
    /// Reward paid per whole day a position is held.
    pub reward_rate_per_day: u128,
    pub staked_assets: Ledger<StakedAsset>,
    /// The number of positions.
    pub total_staked: usize,
}

impl StakingInfo {
    pub open spec fn wf(&self) -> bool {
        &&& self.staked_assets.wf()
        &&& self.total_staked == self.staked_assets@.len()
    }

    /// A pool paying `reward_rate_per_day` of `om_token_address`, with no
    /// position.
    pub fn new(om_token_address: String, reward_rate_per_day: u128) -> (r: StakingInfo)
        ensures
            r.wf(),
            r.om_token_address@ == om_token_address@,
            r.reward_rate_per_day == reward_rate_per_day,
            r.staked_assets@ == Map::<Seq<char>, StakedAssetView>::empty(),
    {
        StakingInfo { om_token_address, reward_rate_per_day, staked_assets: Ledger::new(), total_staked: 0 }
    }

    /// Records `caller` as the owner of a position on `token_id` of the
    /// collection `nft_contract_address`, accruing from `now`. A position
    /// already held on `token_id` is replaced, and the count of positions
    /// grows only when there was none.
    pub fn stake_nft(&mut self, nft_contract_address: String, token_id: String, caller: String, now: u64)
        requires
            old(self).wf(),
        ensures
            final(self).wf(),
            final(self).om_token_address == old(self).om_token_address,
            final(self).reward_rate_per_day == old(self).reward_rate_per_day,
            final(self).staked_assets@ == after_stake(
                old(self).staked_assets@,
                nft_contract_address@,
                token_id@,
                caller@,
                now,
            ),
            final(self).total_staked == if old(self).staked_assets@.contains_key(token_id@) {
                old(self).total_staked as int
            } else {
                old(self).total_staked + 1
            },
    {
        let ghost k = token_id@;
        let asset = StakedAsset { owner: caller, nft_contract_address, token_id, staked_since: now };
        self.staked_assets.save(asset);
        self.total_staked = self.staked_assets.len();
    }

    /// Ends the position on `token_id` held by `caller` and returns the
    /// asset to them. Fails with `NotStaked` when there is no position and
    /// `Unauthorized` when another identity holds it.
    pub fn unstake_nft(&mut self, token_id: &String, caller: &String) -> (r: Result<
        Vec<Instruction>,
        ContractError,
    >)
        requires
            old(self).wf(),
        ensures
            final(self).wf(),
            final(self).om_token_address == old(self).om_token_address,
            final(self).reward_rate_per_day == old(self).reward_rate_per_day,
            !old(self).staked_assets@.contains_key(token_id@) ==> r == Err::<Vec<Instruction>, ContractError>(
                ContractError::NotStaked,
            ),
            old(self).staked_assets@.contains_key(token_id@) && !permits_spec(
                caller@,
                old(self).staked_assets@[token_id@].owner,
            ) ==> r == Err::<Vec<Instruction>, ContractError>(ContractError::Unauthorized),
            r is Err ==> final(self).staked_assets@ == old(self).staked_assets@ && final(self).total_staked
                == old(self).total_staked,
            r is Ok <==> unstake_succeeds(old(self).staked_assets@, token_id@, caller@),
            final(self).staked_assets@ == after_unstake(old(self).staked_assets@, token_id@, caller@),
            r matches Ok(b) ==> final(self).staked_assets@ == old(self).staked_assets@.remove(token_id@)
                && final(self).total_staked == old(self).total_staked - 1 && batch_view(b@) == seq![
                InstructionView::TransferNft {
                    contract: old(self).staked_assets@[token_id@].nft_contract_address,
                    recipient: caller@,
                    token_id: token_id@,
                },
            ],
    {
        let asset = match self.staked_assets.load(token_id) {
            Ok(a) => a,
            Err(_) => {
                return Err(ContractError::NotStaked);
            },
        };
        if !permits(caller, &asset.owner) {
            return Err(ContractError::Unauthorized);
        }
        let transfer = Instruction::TransferNft {
            contract: asset.nft_contract_address.clone(),
            recipient: caller.clone(),
            token_id: token_id.clone(),
        };
        self.staked_assets.delete(token_id);
        self.total_staked = self.staked_assets.len();
        let batch = vec![transfer];
        assert(batch_view(batch@) =~= seq![transfer@]);
        Ok(batch)
    }

    /// Pays `caller` the reward accrued on their position on `token_id`
    /// up to `now`, at the pool's daily rate, and restarts accrual at `now`:
    /// each elapsed interval is paid once. Fails with `NotStaked`,
    /// `Unauthorized`, `InvalidTimestamp` or `ArithmeticOverflow`, in that
    /// order of precedence, changing nothing.
    pub fn claim_rewards(&mut self, token_id: &String, caller: &String, now: u64) -> (r: Result<
        Vec<Instruction>,
        ContractError,
    >)
        requires
            old(self).wf(),
        ensures
            final(self).wf(),
            final(self).om_token_address == old(self).om_token_address,
            final(self).reward_rate_per_day == old(self).reward_rate_per_day,
            final(self).total_staked == old(self).total_staked,
            !old(self).staked_assets@.contains_key(token_id@) ==> r == Err::<Vec<Instruction>, ContractError>(
                ContractError::NotStaked,
            ),
            old(self).staked_assets@.contains_key(token_id@) ==> ({
                let pos = old(self).staked_assets@[token_id@];
                let reward = reward_spec(old(self).reward_rate_per_day, pos.staked_since, now);
                &&& !permits_spec(caller@, pos.owner) ==> r == Err::<Vec<Instruction>, ContractError>(
                    ContractError::Unauthorized,
                )
                &&& permits_spec(caller@, pos.owner) && now < pos.staked_since ==> r == Err::<
                    Vec<Instruction>,
                    ContractError,
                >(ContractError::InvalidTimestamp)
                &&& permits_spec(caller@, pos.owner) && pos.staked_since <= now && reward > u128::MAX ==> r
                    == Err::<Vec<Instruction>, ContractError>(ContractError::ArithmeticOverflow)
                &&& r is Ok <==> permits_spec(caller@, pos.owner) && pos.staked_since <= now && reward
                    <= u128::MAX
                &&& r matches Ok(b) ==> final(self).staked_assets@ == old(self).staked_assets@.insert(
                    token_id@,
                    StakedAssetView { staked_since: now, ..pos },
                ) && batch_view(b@) == seq![
                    InstructionView::TransferToken {
                        contract: old(self).om_token_address@,
                        recipient: caller@,
                        amount: reward as u128,
                    },
                ]
            }),
            r is Err ==> final(self).staked_assets@ == old(self).staked_assets@,
    {
        let asset = match self.staked_assets.load(token_id) {
            Ok(a) => a,
            Err(_) => {
                return Err(ContractError::NotStaked);
            },
        };
        if !permits(caller, &asset.owner) {
            return Err(ContractError::Unauthorized);
        }
        let reward = match compute_reward(self.reward_rate_per_day, asset.staked_since, now) {
            Ok(v) => v,
            Err(e) => {
                return Err(e);
            },
        };
        let restarted = StakedAsset {
            owner: asset.owner.clone(),
            nft_contract_address: asset.nft_contract_address.clone(),
            token_id: asset.token_id.clone(),
            staked_since: now,
        };
        let payment = Instruction::TransferToken {
            contract: self.om_token_address.clone(),
            recipient: caller.clone(),
            amount: reward,
        };
        self.staked_assets.save(restarted);
        self.total_staked = self.staked_assets.len();
        let batch = vec![payment];
        assert(batch_view(batch@) =~= seq![payment@]);
        Ok(batch)
    }
}

} // verus!
