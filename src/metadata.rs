use vstd::prelude::*;

verus! {

/// Descriptive data of the token.
pub struct TokenMetadata {
    pub spec: String,
    pub name: String,
    pub symbol: String,
    pub icon: Option<String>,
    pub reference: Option<String>,
    pub reference_hash: Option<Vec<u8>>,
    pub decimals: u8,
}

/// Relies on near_contract_standards' `FT_METADATA_SPEC`: the version tag of
/// the fungible token metadata standard.
#[verifier::external_body]
fn metadata_spec_tag() -> (r: String)
    ensures
        r@ == "ft-1.0.0"@,
{
    near_contract_standards::fungible_token::metadata::FT_METADATA_SPEC.to_string()
}

/// The text of an optional string.
pub open spec fn opt_view(o: Option<String>) -> Option<Seq<char>> {
    match o {
        Some(s) => Some(s@),
        None => None,
    }
}

/// The bytes of an optional byte vector.
pub open spec fn opt_bytes(o: Option<Vec<u8>>) -> Option<Seq<u8>> {
    match o {
        Some(v) => Some(v@),
        None => None,
    }
}

impl TokenMetadata {
    /// Follows the standard's version tag; a reference comes with its hash,
    /// which is 32 bytes long.
    pub open spec fn valid(&self) -> bool {
        &&& self.spec@ == "ft-1.0.0"@
        &&& self.reference.is_some() == self.reference_hash.is_some()
        &&& (self.reference_hash matches Some(h) ==> h@.len() == 32)
    }

    /// Whether the metadata is well formed.
    pub fn is_valid(&self) -> (r: bool)
        ensures
            r == self.valid(),
    {
        let tag = metadata_spec_tag();
        if self.spec != tag {
            return false;
        }
        if self.reference.is_some() != self.reference_hash.is_some() {
            return false;
        }
        match &self.reference_hash {
            Some(h) => h.len() == 32,
            None => true,
        }
    }

    /// The metadata of the honeypot token.
    pub fn honeypot() -> (r: Self)
        ensures
            r.valid(),
            r.name@ == "Honeypot Token"@,
            r.symbol@ == "HONEY"@,
            r.decimals == 24,
    {
        TokenMetadata {
            spec: metadata_spec_tag(),
            name: "Honeypot Token".to_owned(),
            symbol: "HONEY".to_owned(),
            icon: None,
            reference: None,
            reference_hash: None,
            decimals: 24,
        }
    }

    /// A copy of the metadata.
    pub fn copy(&self) -> (r: Self)
        ensures
            r.spec@ == self.spec@,
            r.name@ == self.name@,
            r.symbol@ == self.symbol@,
            r.decimals == self.decimals,
            opt_view(r.icon) == opt_view(self.icon),
            opt_view(r.reference) == opt_view(self.reference),
            opt_bytes(r.reference_hash) == opt_bytes(self.reference_hash),
    {
        TokenMetadata {
            spec: self.spec.clone(),
            name: self.name.clone(),
            symbol: self.symbol.clone(),
            icon: match &self.icon {
                Some(s) => Some(s.clone()),
                None => None,
            },
            reference: match &self.reference {
                Some(s) => Some(s.clone()),
                None => None,
            },
            reference_hash: match &self.reference_hash {
                Some(h) => {
                    let c = h.clone();
                    assert(c@ =~= h@);
                    Some(c)
                },
                None => None,
            },
            decimals: self.decimals,
        }
    }
}

} // verus!
