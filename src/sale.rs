use vstd::prelude::*;

verus! {

/// A fixed-price listing of one asset.
pub struct Sale {
    pub owner_id: String,
    pub approval_id: u64,
    pub nft_contract_id: String,
    pub token_id: String,
    /// The price, in indivisible units of the native currency.
    pub sale_conditions: u128,
    pub created_at: u64,
}

/// The arguments that name the listing a purchase is meant for.
pub struct PurchaseArgs {
    pub nft_contract_id: String,
    pub token_id: String,
}

/// The composite key of a listing: contract id, the separator `||`, token id.
pub open spec fn sale_key(nft_contract_id: Seq<char>, token_id: Seq<char>) -> Seq<char> {
    nft_contract_id + seq!['|', '|'] + token_id
}

/// Builds the registry key of the asset `token_id` held by `nft_contract_id`.
pub fn contract_and_token_id(nft_contract_id: &String, token_id: &String) -> (r: String)
    ensures
        r@ == sale_key(nft_contract_id@, token_id@),
{
    let mut key = nft_contract_id.clone();
    key.append("||");
    key.append(token_id.as_str());
    proof {
        reveal_strlit("||");
        assert(key@ =~= sale_key(nft_contract_id@, token_id@));
    }
    key
}

} // verus!
