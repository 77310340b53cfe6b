use vstd::prelude::*;
use crate::auth::{permits, permits_spec};
use crate::ledger::{Keyed, Ledger};
use crate::types::{batch_view, Coin, CoinView, ContractError, Instruction, InstructionView};

verus! {

/// An active offer to sell one asset at a fixed price.
pub struct SaleInfo {
    pub token_id: String,
    pub seller: String,
    pub price: Coin,
}

pub struct SaleInfoView {
    pub token_id: Seq<char>,
    pub seller: Seq<char>,
    pub price: CoinView,
}

impl View for SaleInfo {
    type V = SaleInfoView;

    open spec fn view(&self) -> SaleInfoView {
        SaleInfoView { token_id: self.token_id@, seller: self.seller@, price: self.price@ }
    }
}

impl Keyed for SaleInfo {
    open spec fn key(&self) -> Seq<char> {
        self.token_id@
    }

    fn key_ref(&self) -> (r: &String) {
        &self.token_id
    }
}

/// Whether some offered coin is of the price's denomination and at least
/// its amount.
pub open spec fn covers(offered: Seq<CoinView>, price: CoinView) -> bool {
    exists|i: int|
        0 <= i < offered.len() && #[trigger] offered[i].denom == price.denom
            && offered[i].amount >= price.amount
}

/// The views of offered coins, in order.
pub open spec fn coins_view(c: Seq<Coin>) -> Seq<CoinView> {
    c.map_values(|x: Coin| x@)
}

/// The listings after `caller` asks to list `token_id` at `price` while
/// `current_owner` owns it.
pub open spec fn after_list(
    sales: Map<Seq<char>, SaleInfoView>,
    token_id: Seq<char>,
    price: CoinView,
    caller: Seq<char>,
    current_owner: Seq<char>,
) -> Map<Seq<char>, SaleInfoView> {
    if permits_spec(caller, current_owner) {
        sales.insert(token_id, SaleInfoView { token_id, seller: caller, price })
    } else {
        sales
    }
}

/// Whether a purchase of `token_id` with `offered` succeeds.
pub open spec fn buy_succeeds(sales: Map<Seq<char>, SaleInfoView>, token_id: Seq<char>, offered: Seq<CoinView>) -> bool {
    sales.contains_key(token_id) && covers(offered, sales[token_id].price)
}

/// The listings after a purchase of `token_id` with `offered`.
pub open spec fn after_buy(sales: Map<Seq<char>, SaleInfoView>, token_id: Seq<char>, offered: Seq<CoinView>) -> Map<
    Seq<char>,
    SaleInfoView,
> {
    if buy_succeeds(sales, token_id, offered) {
        sales.remove(token_id)
    } else {
        sales
    }
}

/// One request to the marketplace.
pub enum MarketStep {
    List { token_id: Seq<char>, price: CoinView, caller: Seq<char>, current_owner: Seq<char> },
    Buy { token_id: Seq<char>, offered: Seq<CoinView> },
}

/// The listings after one request.
pub open spec fn step(sales: Map<Seq<char>, SaleInfoView>, s: MarketStep) -> Map<Seq<char>, SaleInfoView> {
    match s {
        MarketStep::List { token_id, price, caller, current_owner } => after_list(
            sales,
            token_id,
            price,
            caller,
            current_owner,
        ),
        MarketStep::Buy { token_id, offered } => after_buy(sales, token_id, offered),
    }
}

/// The listings after a run of requests, in order.
pub open spec fn run(sales: Map<Seq<char>, SaleInfoView>, steps: Seq<MarketStep>) -> Map<Seq<char>, SaleInfoView>
    decreases steps.len(),
{
    if steps.len() == 0 {
        sales
    } else {
        step(run(sales, steps.drop_last()), steps.last())
    }
}

/// Whether request `s` ends or replaces the listing of `token_id`: a
/// successful purchase of it, or a successful listing of it.
pub open spec fn ends_listing(sales: Map<Seq<char>, SaleInfoView>, s: MarketStep, token_id: Seq<char>) -> bool {
    match s {
        MarketStep::List { token_id: t, price, caller, current_owner } => t == token_id && permits_spec(
            caller,
            current_owner,
        ),
        MarketStep::Buy { token_id: t, offered } => t == token_id && buy_succeeds(sales, t, offered),
    }
}

/// Every listing is stored under the asset it offers.
pub proof fn lemma_listing_under_its_asset(m: &Marketplace)
    requires
        m.wf(),
    ensures
        forall|k: Seq<char>| #[trigger] m.sales@.contains_key(k) ==> m.sales@[k].token_id == k,
{
    m.sales.lemma_stored_under_own_key();
}

/// A successful listing of `token_id` exists afterwards, and stays, unchanged,
/// through every run of requests none of which buys it successfully or
/// lists it again.
pub proof fn lemma_listing_persists(
    sales: Map<Seq<char>, SaleInfoView>,
    token_id: Seq<char>,
    price: CoinView,
    caller: Seq<char>,
    current_owner: Seq<char>,
    steps: Seq<MarketStep>,
)
    requires
        permits_spec(caller, current_owner),
        forall|i: int|
            0 <= i < steps.len() ==> !ends_listing(
                run(after_list(sales, token_id, price, caller, current_owner), steps.take(i)),
                #[trigger] steps[i],
                token_id,
            ),
    ensures
        run(after_list(sales, token_id, price, caller, current_owner), steps).contains_key(token_id),
        run(after_list(sales, token_id, price, caller, current_owner), steps)[token_id] == (SaleInfoView {
            token_id,
            seller: caller,
            price,
        }),
    decreases steps.len(),
{
    let start = after_list(sales, token_id, price, caller, current_owner);
    if steps.len() > 0 {
        let prefix = steps.drop_last();
        assert forall|i: int| 0 <= i < prefix.len() implies !ends_listing(
            run(start, prefix.take(i)),
            #[trigger] prefix[i],
            token_id,
        ) by {
            assert(prefix.take(i) =~= steps.take(i));
            assert(prefix[i] == steps[i]);
        }
        lemma_listing_persists(sales, token_id, price, caller, current_owner, prefix);
        let n = steps.len() - 1;
        assert(steps.take(n) =~= prefix);
        assert(!ends_listing(run(start, prefix), steps[n], token_id));
    }
}

/// The marketplace of one asset collection: its listings, one per asset.
pub struct Marketplace {
    /// The collection whose assets are listed here.
    pub nft_contract: String,
    pub sales: Ledger<SaleInfo>,
}

impl Marketplace {
    pub open spec fn wf(&self) -> bool {
        self.sales.wf()
    }

    /// A marketplace for the collection at `nft_contract`, with no listing.
    pub fn new(nft_contract: String) -> (r: Marketplace)
        ensures
            r.wf(),
            r.nft_contract@ == nft_contract@,
            r.sales@ == Map::<Seq<char>, SaleInfoView>::empty(),
    {
        Marketplace { nft_contract, sales: Ledger::new() }
    }

    /// Lists `token_id` for sale at `price`, replacing any earlier listing
    /// of it. `current_owner` is the asset's owner as the collection reports
    /// it at call time; only that owner may list.
    pub fn list_for_sale(&mut self, token_id: String, price: Coin, caller: String, current_owner: &String) -> (r:
        Result<(), ContractError>)
        requires
            old(self).wf(),
        ensures
            final(self).wf(),
            final(self).nft_contract == old(self).nft_contract,
            r is Ok <==> permits_spec(caller@, current_owner@),
            final(self).sales@ == after_list(old(self).sales@, token_id@, price@, caller@, current_owner@),
            r is Ok ==> final(self).sales@ == old(self).sales@.insert(
                token_id@,
                SaleInfoView { token_id: token_id@, seller: caller@, price: price@ },
            ),
            r is Err ==> r == Err::<(), ContractError>(ContractError::Unauthorized) && final(self).sales@
                == old(self).sales@,
    {
        if !permits(&caller, current_owner) {
            return Err(ContractError::Unauthorized);
        }
        self.sales.save(SaleInfo { token_id, seller: caller, price });
        Ok(())
    }

    /// Buys the listed asset `token_id` for `caller` with the coins
    /// `offered`. On success the listing is removed and two instructions are
    /// returned: the asset goes to the caller, and exactly the listed price
    /// goes to the seller. Overpayment is accepted and not refunded.
    pub fn buy_nft(&mut self, token_id: &String, caller: &String, offered: &Vec<Coin>) -> (r: Result<
        Vec<Instruction>,
        ContractError,
    >)
        requires
            old(self).wf(),
        ensures
            final(self).wf(),
            final(self).nft_contract == old(self).nft_contract,
            final(self).sales@ == after_buy(old(self).sales@, token_id@, coins_view(offered@)),
            !old(self).sales@.contains_key(token_id@) ==> r == Err::<Vec<Instruction>, ContractError>(
                ContractError::NoActiveListing,
            ),
            old(self).sales@.contains_key(token_id@) && !covers(
                coins_view(offered@),
                old(self).sales@[token_id@].price,
            ) ==> r == Err::<Vec<Instruction>, ContractError>(ContractError::InsufficientFunds),
            r is Err ==> final(self).sales@ == old(self).sales@,
            r is Ok <==> buy_succeeds(old(self).sales@, token_id@, coins_view(offered@)),
            r matches Ok(b) ==> final(self).sales@ == old(self).sales@.remove(token_id@) && batch_view(b@)
                == seq![
                InstructionView::TransferNft {
                    contract: old(self).nft_contract@,
                    recipient: caller@,
                    token_id: token_id@,
                },
                InstructionView::SendNative {
                    recipient: old(self).sales@[token_id@].seller,
                    amount: old(self).sales@[token_id@].price.amount,
                    denom: old(self).sales@[token_id@].price.denom,
                },
            ],
    {
        let sale = match self.sales.load(token_id) {
            Ok(s) => s,
            Err(_) => {
                return Err(ContractError::NoActiveListing);
            },
        };
        let ghost cv = coins_view(offered@);
        let mut paid = false;
        let mut i: usize = 0;
        while i < offered.len()
            invariant
                i <= offered.len(),
                cv == coins_view(offered@),
                paid <==> exists|j: int|
                    0 <= j < i && (#[trigger] cv[j]).denom == sale.price.denom@ && cv[j].amount
                        >= sale.price.amount,
            decreases offered.len() - i,
        {
            assert(cv[i as int] == offered@[i as int]@);
            if offered[i].denom == sale.price.denom && offered[i].amount >= sale.price.amount {
                paid = true;
            }
            i = i + 1;
        }
        if !paid {
            return Err(ContractError::InsufficientFunds);
        }
        let transfer = Instruction::TransferNft {
            contract: self.nft_contract.clone(),
            recipient: caller.clone(),
            token_id: token_id.clone(),
        };
        let payment = Instruction::SendNative {
            recipient: sale.seller.clone(),
            amount: sale.price.amount,
            denom: sale.price.denom.clone(),
        };
        self.sales.delete(token_id);
        let batch = vec![transfer, payment];
        assert(batch_view(batch@) =~= seq![transfer@, payment@]);
        Ok(batch)
    }
}

} // verus!
