use vstd::prelude::*;

verus! {

/// Contract-level metadata: a versioned spec string, a display name, a symbol
/// and optional icon / URI / reference fields. It is supplied once, at
/// initialization, and the contract exposes no entry point that changes it.
pub struct NFTContractMetadata {
    pub spec_version: String,
    pub name: String,
    pub symbol: String,
    pub icon: Option<String>,
    pub base_uri: Option<String>,
    pub reference: Option<String>,
    pub reference_hash: Option<Vec<u8>>,
}

/// Per-token metadata attached by the minter: a title, a description, media
/// links with content hashes, a copy count, lifecycle timestamps and free-form
/// extra data, every field optional.
pub struct TokenMetadata {
    pub title: Option<String>,
    pub description: Option<String>,
    pub media: Option<String>,
    pub media_hash: Option<Vec<u8>>,
    pub copies: Option<u64>,
    pub issued_at: Option<String>,
    pub expires_at: Option<String>,
    pub starts_at: Option<String>,
    pub updated_at: Option<String>,
    pub extra: Option<String>,
    pub reference: Option<String>,
    pub reference_hash: Option<Vec<u8>>,
}

/// Two optional strings hold the same text.
pub open spec fn opt_str_eq(a: Option<String>, b: Option<String>) -> bool {
    match (a, b) {
        (Option::None, Option::None) => true,
        (Option::Some(x), Option::Some(y)) => x@ == y@,
        _ => false,
    }
}

/// Two optional byte strings hold the same bytes.
pub open spec fn opt_bytes_eq(a: Option<Vec<u8>>, b: Option<Vec<u8>>) -> bool {
    match (a, b) {
        (Option::None, Option::None) => true,
        (Option::Some(x), Option::Some(y)) => x@ == y@,
        _ => false,
    }
}

/// Two contract metadata records carry exactly the same field values.
pub open spec fn contract_meta_eq(a: NFTContractMetadata, b: NFTContractMetadata) -> bool {
    &&& a.spec_version@ == b.spec_version@
    &&& a.name@ == b.name@
    &&& a.symbol@ == b.symbol@
    &&& opt_str_eq(a.icon, b.icon)
    &&& opt_str_eq(a.base_uri, b.base_uri)
    &&& opt_str_eq(a.reference, b.reference)
    &&& opt_bytes_eq(a.reference_hash, b.reference_hash)
}

/// Two token metadata records carry exactly the same field values.
pub open spec fn token_meta_eq(a: TokenMetadata, b: TokenMetadata) -> bool {
    &&& opt_str_eq(a.title, b.title)
    &&& opt_str_eq(a.description, b.description)
    &&& opt_str_eq(a.media, b.media)
    &&& opt_bytes_eq(a.media_hash, b.media_hash)
    &&& a.copies == b.copies
    &&& opt_str_eq(a.issued_at, b.issued_at)
    &&& opt_str_eq(a.expires_at, b.expires_at)
    &&& opt_str_eq(a.starts_at, b.starts_at)
    &&& opt_str_eq(a.updated_at, b.updated_at)
    &&& opt_str_eq(a.extra, b.extra)
    &&& opt_str_eq(a.reference, b.reference)
    &&& opt_bytes_eq(a.reference_hash, b.reference_hash)
}

/// Copy an optional string, keeping its text.
pub fn copy_opt_str(s: &Option<String>) -> (r: Option<String>)
    ensures
        opt_str_eq(*s, r),
{
    match s {
        Option::None => Option::None,
        Option::Some(x) => Option::Some(x.clone()),
    }
}

/// Copy a byte string, keeping its bytes.
pub fn copy_bytes(v: &Vec<u8>) -> (r: Vec<u8>)
    ensures
        r@ == v@,
{
    let mut r: Vec<u8> = Vec::new();
    let mut i: usize = 0;
    while i < v.len()
        invariant
            i <= v.len(),
            r@ == v@.subrange(0, i as int),
        decreases v.len() - i,
    {
        r.push(v[i]);
        i = i + 1;
        proof {
            assert(r@ =~= v@.subrange(0, i as int));
        }
    }
    proof {
        assert(r@ =~= v@);
    }
    r
}

/// Copy an optional byte string, keeping its bytes.
pub fn copy_opt_bytes(v: &Option<Vec<u8>>) -> (r: Option<Vec<u8>>)
    ensures
        opt_bytes_eq(*v, r),
{
    match v {
        Option::None => Option::None,
        Option::Some(x) => Option::Some(copy_bytes(x)),
    }
}

impl NFTContractMetadata {
    /// Copy a contract metadata record, keeping every field value.
    pub fn duplicate(&self) -> (r: NFTContractMetadata)
        ensures
            contract_meta_eq(*self, r),
    {
        NFTContractMetadata {
            spec_version: self.spec_version.clone(),
            name: self.name.clone(),
            symbol: self.symbol.clone(),
            icon: copy_opt_str(&self.icon),
            base_uri: copy_opt_str(&self.base_uri),
            reference: copy_opt_str(&self.reference),
            reference_hash: copy_opt_bytes(&self.reference_hash),
        }
    }
}

impl TokenMetadata {
    /// Copy a token metadata record, keeping every field value.
    pub fn duplicate(&self) -> (r: TokenMetadata)
        ensures
            token_meta_eq(*self, r),
    {
        TokenMetadata {
            title: copy_opt_str(&self.title),
            description: copy_opt_str(&self.description),
            media: copy_opt_str(&self.media),
            media_hash: copy_opt_bytes(&self.media_hash),
            copies: self.copies,
            issued_at: copy_opt_str(&self.issued_at),
            expires_at: copy_opt_str(&self.expires_at),
            starts_at: copy_opt_str(&self.starts_at),
            updated_at: copy_opt_str(&self.updated_at),
            extra: copy_opt_str(&self.extra),
            reference: copy_opt_str(&self.reference),
            reference_hash: copy_opt_bytes(&self.reference_hash),
        }
    }
}

} // verus!
