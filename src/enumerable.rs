use vstd::prelude::*;

verus! {

/// Descriptive data of a token.
pub struct TokenMetadata {
    pub title: Option<String>,
    pub description: Option<String>,
    pub media: Option<String>,
}

/// A token as the enumeration methods report it.
pub struct JsonToken {
    pub token_id: String,
    pub owner_id: String,
    pub metadata: TokenMetadata,
}

/// The asset contract's token table, in enumeration order.
pub struct Contract {
    pub tokens: Vec<JsonToken>,
}

/// The first token of `tokens` with id `token_id`.
pub open spec fn token_by_id(tokens: Seq<JsonToken>, token_id: Seq<char>) -> Option<JsonToken>
    decreases tokens.len(),
{
    if tokens.len() == 0 {
        None
    } else if tokens[0].token_id@ == token_id {
        Some(tokens[0])
    } else {
        token_by_id(tokens.subrange(1, tokens.len() as int), token_id)
    }
}

/// The tokens of `tokens` that `owner` holds, in order.
pub open spec fn tokens_of(tokens: Seq<JsonToken>, owner: Seq<char>) -> Seq<JsonToken>
    decreases tokens.len(),
{
    if tokens.len() == 0 {
        Seq::empty()
    } else if tokens.last().owner_id@ == owner {
        tokens_of(tokens.drop_last(), owner).push(tokens.last())
    } else {
        tokens_of(tokens.drop_last(), owner)
    }
}

/// At most `limit` tokens of `tokens`, from position `from_index` on; an absent
/// start is zero and an absent limit is zero.
pub open spec fn page(tokens: Seq<JsonToken>, from_index: Option<u128>, limit: Option<u64>) -> Seq<
    JsonToken,
> {
    let start = match from_index {
        Some(f) => f as int,
        None => 0,
    };
    let count = match limit {
        Some(l) => l as int,
        None => 0,
    };
    if start >= tokens.len() {
        Seq::empty()
    } else if start + count >= tokens.len() {
        tokens.subrange(start, tokens.len() as int)
    } else {
        tokens.subrange(start, start + count)
    }
}

fn copy_text(t: &Option<String>) -> (r: Option<String>)
    ensures
        r == *t,
{
    match t {
        Some(s) => Some(s.clone()),
        None => None,
    }
}

impl JsonToken {
    /// A copy of this token.
    pub fn copied(&self) -> (r: JsonToken)
        ensures
            r == *self,
    {
        JsonToken {
            token_id: self.token_id.clone(),
            owner_id: self.owner_id.clone(),
            metadata: TokenMetadata {
                title: copy_text(&self.metadata.title),
                description: copy_text(&self.metadata.description),
                media: copy_text(&self.metadata.media),
            },
        }
    }
}

/// The page of `tokens` that `from_index` and `limit` select, copied.
fn page_of(tokens: &Vec<JsonToken>, from_index: Option<u128>, limit: Option<u64>) -> (r: Vec<
    JsonToken,
>)
    ensures
        r@ == page(tokens@, from_index, limit),
{
    let start: u128 = match from_index {
        Some(f) => f,
        None => 0,
    };
    let count: u64 = match limit {
        Some(l) => l,
        None => 0,
    };
    let mut out: Vec<JsonToken> = Vec::new();
    if start >= tokens.len() as u128 {
        return out;
    }
    let first = start as usize;
    let end: usize = if (count as u128) >= (tokens.len() - first) as u128 {
        tokens.len()
    } else {
        first + count as usize
    };
    let mut i: usize = first;
    while i < end
        invariant
            first <= i <= end <= tokens@.len(),
            out@ =~= tokens@.subrange(first as int, i as int),
        decreases end - i,
    {
        out.push(tokens[i].copied());
        i = i + 1;
    }
    out
}

impl Contract {
    /// The token with id `token_id`.
    pub fn nft_token(&self, token_id: &String) -> (r: Option<JsonToken>)
        ensures
            r == token_by_id(self.tokens@, token_id@),
    {
        let mut i: usize = 0;
        assert(self.tokens@.subrange(0, self.tokens@.len() as int) =~= self.tokens@);
        while i < self.tokens.len()
            invariant
                i <= self.tokens@.len(),
                token_by_id(self.tokens@, token_id@) == token_by_id(
                    self.tokens@.subrange(i as int, self.tokens@.len() as int),
                    token_id@,
                ),
            decreases self.tokens@.len() - i,
        {
            let ghost rest = self.tokens@.subrange(i as int, self.tokens@.len() as int);
            if self.tokens[i].token_id == *token_id {
                return Some(self.tokens[i].copied());
            }
            assert(rest.subrange(1, rest.len() as int) =~= self.tokens@.subrange(
                i + 1,
                self.tokens@.len() as int,
            ));
            i = i + 1;
        }
        None
    }

    /// Tokens in enumeration order: at most `limit` (none where absent) from
    /// position `from_index` (zero where absent).
    pub fn nft_tokens(&self, from_index: Option<u128>, limit: Option<u64>) -> (r: Vec<JsonToken>)
        ensures
            r@ == page(self.tokens@, from_index, limit),
    {
        page_of(&self.tokens, from_index, limit)
    }

    /// The tokens with the given ids, in the order of the ids; each must exist.
    pub fn nft_tokens_batch(&self, token_ids: Vec<String>) -> (r: Vec<JsonToken>)
        requires
            forall|i: int| 0 <= i < token_ids@.len() ==> (#[trigger] token_by_id(self.tokens@, token_ids@[i]@)) is Some,
        ensures
            r@.len() == token_ids@.len(),
            forall|i: int| 0 <= i < r@.len() ==> Some(#[trigger] r@[i]) == token_by_id(self.tokens@, token_ids@[i]@),
    {
        let mut tmp: Vec<JsonToken> = Vec::new();
        let mut i: usize = 0;
        while i < token_ids.len()
            invariant
                i <= token_ids@.len(),
                tmp@.len() == i,
                forall|j: int| 0 <= j < token_ids@.len() ==> (#[trigger] token_by_id(self.tokens@, token_ids@[j]@)) is Some,
                forall|j: int| 0 <= j < i ==> Some(#[trigger] tmp@[j]) == token_by_id(self.tokens@, token_ids@[j]@),
            decreases token_ids@.len() - i,
        {
            let t = self.nft_token(&token_ids[i]);
            assert(token_by_id(self.tokens@, token_ids@[i as int]@) is Some);
            match t {
                Some(t) => tmp.push(t),
                None => {},
            }
            i = i + 1;
        }
        tmp
    }

    /// The number of tokens that `account_id` holds.
    pub fn nft_supply_for_owner(&self, account_id: String) -> (r: u128)
        ensures
            r == tokens_of(self.tokens@, account_id@).len(),
    {
        let owned = self.owned_tokens(&account_id);
        owned.len() as u128
    }

    /// The tokens that `account_id` holds, in enumeration order.
    fn owned_tokens(&self, account_id: &String) -> (r: Vec<JsonToken>)
        ensures
            r@ == tokens_of(self.tokens@, account_id@),
    {
        let mut out: Vec<JsonToken> = Vec::new();
        let mut i: usize = 0;
        while i < self.tokens.len()
            invariant
                i <= self.tokens@.len(),
                out@ == tokens_of(self.tokens@.take(i as int), account_id@),
            decreases self.tokens@.len() - i,
        {
            assert(self.tokens@.take(i + 1).drop_last() =~= self.tokens@.take(i as int));
            if self.tokens[i].owner_id == *account_id {
                out.push(self.tokens[i].copied());
            }
            i = i + 1;
        }
        assert(self.tokens@.take(i as int) =~= self.tokens@);
        out
    }

    /// The tokens that `account_id` holds, paged as `nft_tokens` pages.
    pub fn nft_tokens_for_owner(
        &self,
        account_id: String,
        from_index: Option<u128>,
        limit: Option<u64>,
    ) -> (r: Vec<JsonToken>)
        ensures
            r@ == page(tokens_of(self.tokens@, account_id@), from_index, limit),
    {
        let owned = self.owned_tokens(&account_id);
        page_of(&owned, from_index, limit)
    }
}

} // verus!
