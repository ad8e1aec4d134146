use vstd::prelude::*;
use crate::payout::{
    decode_payout, payout_json, payout_total, payout_valid, validate_payout, MAX_PAYOUT_ENTRIES,
};
use crate::sale::{contract_and_token_id, sale_key, Sale};

verus! {

/// Why a caller-facing operation was rejected.
#[derive(Debug, Clone, Copy, PartialEq, Eq, Structural)]
pub enum MarketError {
    /// No listing under the key.
    NotFound,
    /// The caller is not the listing's owner.
    Unauthorized,
    /// The buyer owns the listing.
    SelfTrade,
    /// An offer came with no payment.
    ZeroPayment,
    /// The payment is below the listing's price.
    InsufficientFunds,
    /// An owner operation came without its deposit of exactly one unit.
    GuardDeposit,
}

/// The request that an accepted offer sends to the custody service: move the
/// asset to the buyer under the listing's approval, and report a payout split
/// of `price`. Its settlement is later resolved for `buyer_id` and `price`.
pub struct PurchaseRequest {
    pub nft_contract_id: String,
    pub token_id: String,
    pub approval_id: u64,
    pub buyer_id: String,
    pub price: u128,
}

/// The terminal money movement of an accepted offer.
pub enum Settlement {
    /// Pay each payee its reported amount.
    Disburse(Vec<(String, u128)>),
    /// Return the whole amount to the buyer.
    Refund(String, u128),
}

/// The payout that a transfer outcome reports: none where the transfer failed
/// or its result is no payout mapping.
pub open spec fn reported_payout(outcome: Option<Seq<u8>>) -> Option<Seq<(Seq<char>, u128)>> {
    match outcome {
        Some(b) => payout_json(b),
        None => None,
    }
}

/// A reported payout is paid out only where it is acceptable for `price`.
pub open spec fn payout_accepted(price: u128, payout: Option<Seq<(Seq<char>, u128)>>) -> bool {
    payout.is_some() && payout_valid(price, payout.unwrap())
}

/// The settlement owed to `buyer_id`, who paid `price`, given the reported payout.
pub open spec fn settles_as(
    r: Settlement,
    buyer_id: Seq<char>,
    price: u128,
    payout: Option<Seq<(Seq<char>, u128)>>,
) -> bool {
    if payout_accepted(price, payout) {
        r matches Settlement::Disburse(v) && v.deep_view() == payout.unwrap()
    } else {
        r matches Settlement::Refund(b, a) && b@ == buyer_id && a == price
    }
}

/// The outcome of the checks of an owner operation on the listing `key`.
pub open spec fn owner_check(
    listings: Map<Seq<char>, Sale>,
    caller: Seq<char>,
    deposit: u128,
    key: Seq<char>,
) -> Result<(), MarketError> {
    if deposit != 1 {
        Err(MarketError::GuardDeposit)
    } else if !listings.contains_key(key) {
        Err(MarketError::NotFound)
    } else if listings[key].owner_id@ != caller {
        Err(MarketError::Unauthorized)
    } else {
        Ok(())
    }
}

/// The outcome of the checks of an offer of `deposit` on the listing `key`.
pub open spec fn offer_check(
    listings: Map<Seq<char>, Sale>,
    caller: Seq<char>,
    deposit: u128,
    key: Seq<char>,
) -> Result<(), MarketError> {
    if deposit == 0 {
        Err(MarketError::ZeroPayment)
    } else if !listings.contains_key(key) {
        Err(MarketError::NotFound)
    } else if listings[key].owner_id@ == caller {
        Err(MarketError::SelfTrade)
    } else if deposit < listings[key].sale_conditions {
        Err(MarketError::InsufficientFunds)
    } else {
        Ok(())
    }
}

/// `req` is the custody request for buying `sale` by `buyer_id` for `price`.
pub open spec fn requests_purchase(req: PurchaseRequest, sale: Sale, buyer_id: Seq<char>, price: u128) -> bool {
    &&& req.nft_contract_id@ == sale.nft_contract_id@
    &&& req.token_id@ == sale.token_id@
    &&& req.approval_id == sale.approval_id
    &&& req.buyer_id@ == buyer_id
    &&& req.price == price
}

/// The market: the registry of listings, keyed by `sale_key`.
pub struct Contract {
    sales: Vec<(String, Sale)>,
    listed: Ghost<Map<Seq<char>, Sale>>,
}

impl View for Contract {
    type V = Map<Seq<char>, Sale>;

    closed spec fn view(&self) -> Map<Seq<char>, Sale> {
        self.listed@
    }
}

impl Contract {
    /// The entries hold each key once, and exactly the listings of the view.
    pub closed spec fn wf(&self) -> bool {
        &&& forall|i: int, j: int|
            0 <= i < j < self.sales@.len() ==> #[trigger] self.sales@[i].0@ != #[trigger] self.sales@[j].0@
        &&& forall|i: int|
            0 <= i < self.sales@.len() ==> self.listed@.contains_key(#[trigger] self.sales@[i].0@)
                && self.listed@[self.sales@[i].0@] == self.sales@[i].1
        &&& forall|k: Seq<char>|
            #[trigger] self.listed@.contains_key(k) ==> exists|i: int|
                0 <= i < self.sales@.len() && #[trigger] self.sales@[i].0@ == k
    }

    /// A market with no listings.
    pub fn new() -> (r: Contract)
        ensures
            r.wf(),
            r@ == Map::<Seq<char>, Sale>::empty(),
    {
        Contract { sales: Vec::new(), listed: Ghost(Map::empty()) }
    }

    /// The index of the entry under `key`.
    fn find(&self, key: &String) -> (r: Option<usize>)
        requires
            self.wf(),
        ensures
            r.is_some() == self@.contains_key(key@),
            r matches Some(i) ==> i < self.sales@.len() && self.sales@[i as int].0@ == key@
                && self@[key@] == self.sales@[i as int].1,
    {
        let mut i: usize = 0;
        while i < self.sales.len()
            invariant
                self.wf(),
                i <= self.sales@.len(),
                forall|j: int| 0 <= j < i ==> self.sales@[j].0@ != key@,
            decreases self.sales@.len() - i,
        {
            if self.sales[i].0 == *key {
                return Some(i);
            }
            i = i + 1;
        }
        None
    }

    /// The listing under `key`.
    pub fn get_sale(&self, key: &String) -> (r: Option<&Sale>)
        requires
            self.wf(),
        ensures
            r.is_some() == self@.contains_key(key@),
            r matches Some(s) ==> *s == self@[key@],
    {
        match self.find(key) {
            Some(i) => Some(&self.sales[i].1),
            None => None,
        }
    }

    /// Lists `sale` under `key`, replacing any listing there.
    pub fn insert_sale(&mut self, key: String, sale: Sale)
        requires
            old(self).wf(),
        ensures
            final(self).wf(),
            final(self)@ == old(self)@.insert(key@, sale),
    {
        let ghost k = key@;
        match self.find(&key) {
            Some(i) => {
                self.sales.set(i, (key, sale));
                self.listed = Ghost(self.listed@.insert(k, sale));
                assert forall|kk: Seq<char>| #[trigger] self.listed@.contains_key(kk) implies exists|j: int|
                    0 <= j < self.sales@.len() && #[trigger] self.sales@[j].0@ == kk by {
                    if kk == k {
                        assert(self.sales@[i as int].0@ == kk);
                    } else {
                        assert(old(self).listed@.contains_key(kk));
                        let j = choose|j: int|
                            0 <= j < old(self).sales@.len() && #[trigger] old(self).sales@[j].0@ == kk;
                        assert(self.sales@[j].0@ == kk);
                    }
                }
            },
            None => {
                let ghost n = self.sales@.len();
                self.sales.push((key, sale));
                self.listed = Ghost(self.listed@.insert(k, sale));
                assert forall|kk: Seq<char>| #[trigger] self.listed@.contains_key(kk) implies exists|j: int|
                    0 <= j < self.sales@.len() && #[trigger] self.sales@[j].0@ == kk by {
                    if kk == k {
                        assert(self.sales@[n as int].0@ == kk);
                    } else {
                        assert(old(self).listed@.contains_key(kk));
                        let j = choose|j: int| 0 <= j < n && #[trigger] old(self).sales@[j].0@ == kk;
                        assert(self.sales@[j].0@ == kk);
                    }
                }
            },
        }
    }

    /// Takes out the entry at `i`.
    fn remove_at(&mut self, i: usize) -> (r: (String, Sale))
        requires
            old(self).wf(),
            i < old(self).sales@.len(),
        ensures
            final(self).wf(),
            r.0@ == old(self).sales@[i as int].0@,
            old(self)@.contains_key(r.0@),
            r.1 == old(self)@[r.0@],
            final(self)@ == old(self)@.remove(r.0@),
    {
        let ghost old_sales = self.sales@;
        let r = self.sales.remove(i);
        self.listed = Ghost(self.listed@.remove(r.0@));
        assert forall|j: int| 0 <= j < self.sales@.len() implies self.listed@.contains_key(
            #[trigger] self.sales@[j].0@,
        ) && self.listed@[self.sales@[j].0@] == self.sales@[j].1 by {
            if j < i {
                assert(old_sales[j] == self.sales@[j]);
            } else {
                assert(old_sales[j + 1] == self.sales@[j]);
            }
        }
        assert forall|kk: Seq<char>| #[trigger] self.listed@.contains_key(kk) implies exists|j: int|
            0 <= j < self.sales@.len() && #[trigger] self.sales@[j].0@ == kk by {
            assert(old(self).listed@.contains_key(kk));
            let j = choose|j: int| 0 <= j < old_sales.len() && #[trigger] old_sales[j].0@ == kk;
            if j < i {
                assert(self.sales@[j].0@ == kk);
            } else {
                assert(self.sales@[j - 1].0@ == kk);
            }
        }
        r
    }
}

impl Contract {
    /// Removes the listing of `token_id` on `nft_contract_id`, with no check of
    /// who asks.
    pub fn internal_remove_sale(&mut self, nft_contract_id: String, token_id: String) -> (r: Result<
        Sale,
        MarketError,
    >)
        requires
            old(self).wf(),
        ensures
            final(self).wf(),
            ({
                let key = sale_key(nft_contract_id@, token_id@);
                match r {
                    Ok(sale) => old(self)@.contains_key(key) && sale == old(self)@[key]
                        && final(self)@ == old(self)@.remove(key),
                    Err(e) => e == MarketError::NotFound && !old(self)@.contains_key(key)
                        && final(self)@ == old(self)@,
                }
            }),
    {
        let key = contract_and_token_id(&nft_contract_id, &token_id);
        match self.find(&key) {
            Some(i) => {
                let (_, sale) = self.remove_at(i);
                Ok(sale)
            },
            None => Err(MarketError::NotFound),
        }
    }

    /// Delists a listing at its owner's request; the owner confirms with a
    /// deposit of exactly one unit.
    pub fn remove_sale(
        &mut self,
        caller: &String,
        attached_deposit: u128,
        nft_contract_id: String,
        token_id: String,
    ) -> (r: Result<(), MarketError>)
        requires
            old(self).wf(),
        ensures
            final(self).wf(),
            ({
                let key = sale_key(nft_contract_id@, token_id@);
                &&& r == owner_check(old(self)@, caller@, attached_deposit, key)
                &&& final(self)@ == (if r is Ok {
                    old(self)@.remove(key)
                } else {
                    old(self)@
                })
            }),
    {
        if attached_deposit != 1 {
            return Err(MarketError::GuardDeposit);
        }
        let key = contract_and_token_id(&nft_contract_id, &token_id);
        match self.find(&key) {
            Some(i) => {
                if self.sales[i].1.owner_id != *caller {
                    return Err(MarketError::Unauthorized);
                }
                let _ = self.remove_at(i);
                Ok(())
            },
            None => Err(MarketError::NotFound),
        }
    }

    /// Sets the price of a listing at its owner's request; the owner confirms
    /// with a deposit of exactly one unit. Nothing else of the listing changes.
    pub fn update_price(
        &mut self,
        caller: &String,
        attached_deposit: u128,
        nft_contract_id: String,
        token_id: String,
        price: u128,
    ) -> (r: Result<(), MarketError>)
        requires
            old(self).wf(),
        ensures
            final(self).wf(),
            ({
                let key = sale_key(nft_contract_id@, token_id@);
                let s = old(self)@[key];
                &&& r == owner_check(old(self)@, caller@, attached_deposit, key)
                &&& final(self)@ == (if r is Ok {
                    old(self)@.insert(
                        key,
                        Sale {
                            owner_id: s.owner_id,
                            approval_id: s.approval_id,
                            nft_contract_id: s.nft_contract_id,
                            token_id: s.token_id,
                            sale_conditions: price,
                            created_at: s.created_at,
                        },
                    )
                } else {
                    old(self)@
                })
            }),
    {
        if attached_deposit != 1 {
            return Err(MarketError::GuardDeposit);
        }
        let key = contract_and_token_id(&nft_contract_id, &token_id);
        match self.find(&key) {
            Some(i) => {
                if self.sales[i].1.owner_id != *caller {
                    return Err(MarketError::Unauthorized);
                }
                let ghost before = self@;
                let (k, mut sale) = self.remove_at(i);
                sale.sale_conditions = price;
                self.insert_sale(k, sale);
                assert(self@ =~= before.insert(key@, sale));
                Ok(())
            },
            None => Err(MarketError::NotFound),
        }
    }

    /// Accepts an offer of `attached_deposit` by `caller`: the listing is
    /// removed, and the returned request goes to the custody service.
    pub fn offer(
        &mut self,
        caller: &String,
        attached_deposit: u128,
        nft_contract_id: String,
        token_id: String,
    ) -> (r: Result<PurchaseRequest, MarketError>)
        requires
            old(self).wf(),
        ensures
            final(self).wf(),
            ({
                let key = sale_key(nft_contract_id@, token_id@);
                match r {
                    Ok(req) => offer_check(old(self)@, caller@, attached_deposit, key) is Ok
                        && requests_purchase(req, old(self)@[key], caller@, attached_deposit)
                        && final(self)@ == old(self)@.remove(key),
                    Err(e) => offer_check(old(self)@, caller@, attached_deposit, key) == Err::<
                        (),
                        MarketError,
                    >(e) && final(self)@ == old(self)@,
                }
            }),
    {
        if attached_deposit == 0 {
            return Err(MarketError::ZeroPayment);
        }
        let key = contract_and_token_id(&nft_contract_id, &token_id);
        match self.get_sale(&key) {
            Some(sale) => {
                if sale.owner_id == *caller {
                    return Err(MarketError::SelfTrade);
                }
                if attached_deposit < sale.sale_conditions {
                    return Err(MarketError::InsufficientFunds);
                }
            },
            None => {
                return Err(MarketError::NotFound);
            },
        }
        self.process_purchase(nft_contract_id, token_id, attached_deposit, caller.clone())
    }

    /// Delists the listing and builds the custody request that buys it for
    /// `buyer_id` at `price`.
    pub fn process_purchase(
        &mut self,
        nft_contract_id: String,
        token_id: String,
        price: u128,
        buyer_id: String,
    ) -> (r: Result<PurchaseRequest, MarketError>)
        requires
            old(self).wf(),
        ensures
            final(self).wf(),
            ({
                let key = sale_key(nft_contract_id@, token_id@);
                match r {
                    Ok(req) => old(self)@.contains_key(key)
                        && requests_purchase(req, old(self)@[key], buyer_id@, price)
                        && final(self)@ == old(self)@.remove(key),
                    Err(e) => e == MarketError::NotFound && !old(self)@.contains_key(key)
                        && final(self)@ == old(self)@,
                }
            }),
    {
        let sale = self.internal_remove_sale(nft_contract_id, token_id)?;
        Ok(
            PurchaseRequest {
                nft_contract_id: sale.nft_contract_id,
                token_id: sale.token_id,
                approval_id: sale.approval_id,
                buyer_id,
                price,
            },
        )
    }

    /// Settles a purchase once the custody service has answered: `outcome` is
    /// the transfer's serialized payout, or `None` where it failed.
    pub fn resolve_purchase(&self, buyer_id: String, price: u128, outcome: Option<Vec<u8>>) -> (r:
        Settlement)
        ensures
            settles_as(r, buyer_id@, price, reported_payout(outcome.deep_view())),
    {
        let payout = match outcome {
            Some(bytes) => {
                assert(bytes.deep_view() =~= bytes@);
                decode_payout(&bytes)
            },
            None => None,
        };
        settle(buyer_id, price, payout)
    }
}

/// Settles a purchase of `price` by `buyer_id` against the reported payout.
pub fn settle(buyer_id: String, price: u128, payout: Option<Vec<(String, u128)>>) -> (r: Settlement)
    ensures
        settles_as(r, buyer_id@, price, payout.deep_view()),
{
    match payout {
        Some(p) => match validate_payout(price, p) {
            Some(v) => Settlement::Disburse(v),
            None => Settlement::Refund(buyer_id, price),
        },
        None => Settlement::Refund(buyer_id, price),
    }
}

/// A settlement either disburses to the payees or refunds the buyer, never both
/// and never neither; it disburses exactly when the reported payout is accepted.
pub proof fn lemma_settlement_exactly_one(
    r: Settlement,
    buyer_id: Seq<char>,
    price: u128,
    payout: Option<Seq<(Seq<char>, u128)>>,
)
    requires
        settles_as(r, buyer_id, price, payout),
    ensures
        (r is Disburse) != (r is Refund),
        (r is Disburse) == payout_accepted(price, payout),
        r matches Settlement::Disburse(v) ==> v@.len() >= 1,
{
}

/// A disbursement pays out no more than the amount paid, and at most one unit
/// less.
pub proof fn lemma_disbursement_within_amount(
    r: Settlement,
    buyer_id: Seq<char>,
    price: u128,
    payout: Option<Seq<(Seq<char>, u128)>>,
)
    requires
        settles_as(r, buyer_id, price, payout),
        r is Disburse,
    ensures
        ({
            let paid = payout_total(r->Disburse_0.deep_view());
            paid <= price && price - paid <= 1
        }),
{
}

/// A payout that is missing or unparseable, empty, longer than ten entries, or
/// whose sum is above the amount paid or more than one unit below it, refunds
/// the whole amount to the buyer.
pub proof fn lemma_invalid_payout_refunds(
    r: Settlement,
    buyer_id: Seq<char>,
    price: u128,
    payout: Option<Seq<(Seq<char>, u128)>>,
)
    requires
        settles_as(r, buyer_id, price, payout),
        payout is None || payout.unwrap().len() == 0 || payout.unwrap().len() > MAX_PAYOUT_ENTRIES
            || payout_total(payout.unwrap()) > price || payout_total(payout.unwrap()) < price - 1,
    ensures
        r matches Settlement::Refund(b, a) && b@ == buyer_id && a == price,
{
}

/// Once an offer has removed a listing, no later offer on its key succeeds:
/// every paid offer fails with `NotFound`.
pub proof fn lemma_sold_listing_unavailable(
    listings: Map<Seq<char>, Sale>,
    key: Seq<char>,
    caller: Seq<char>,
    deposit: u128,
)
    ensures
        offer_check(listings.remove(key), caller, deposit, key) is Err,
        deposit > 0 ==> offer_check(listings.remove(key), caller, deposit, key) == Err::<
            (),
            MarketError,
        >(MarketError::NotFound),
{
}

/// An offer by the listing's own owner is rejected as a self-trade, and so
/// leaves the listing in place and sends no request.
pub proof fn lemma_self_trade_rejected(listings: Map<Seq<char>, Sale>, key: Seq<char>, deposit: u128)
    requires
        listings.contains_key(key),
        deposit > 0,
    ensures
        offer_check(listings, listings[key].owner_id@, deposit, key) == Err::<(), MarketError>(
            MarketError::SelfTrade,
        ),
{
}

/// Price updates and delisting by anyone but the listing's owner are rejected,
/// whatever the deposit.
pub proof fn lemma_owner_operations_need_owner(
    listings: Map<Seq<char>, Sale>,
    key: Seq<char>,
    caller: Seq<char>,
    deposit: u128,
)
    requires
        listings.contains_key(key),
        listings[key].owner_id@ != caller,
    ensures
        owner_check(listings, caller, deposit, key) is Err,
{
}

} // verus!
