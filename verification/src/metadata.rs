use vstd::prelude::*;

verus! {

/// The metadata specification tag every valid metadata record must carry.
pub const FT_METADATA_SPEC: &'static str = "ft-1.0.0";

/// The token's icon, a data URL, as the deployed token ships it.
pub const DATA_IMAGE_SVG_NEAR_ICON: &'static str =
    "data:image/svg+xml,%3Csvg width='111' height='90' viewBox='0 0 111 90' fill='none' xmlns='http://www.w3.org/2000/svg'%3E%3Cpath fill-rule='evenodd' clip-rule='evenodd' d='M24.4825 0.862305H88.0496C89.5663 0.862305 90.9675 1.64827 91.7239 2.92338L110.244 34.1419C111.204 35.7609 110.919 37.8043 109.549 39.1171L58.5729 87.9703C56.9216 89.5528 54.2652 89.5528 52.6139 87.9703L1.70699 39.1831C0.305262 37.8398 0.0427812 35.7367 1.07354 34.1077L20.8696 2.82322C21.6406 1.60483 23.0087 0.862305 24.4825 0.862305ZM79.8419 14.8003V23.5597H61.7343V29.6329C74.4518 30.2819 83.9934 32.9475 84.0642 36.1425L84.0638 42.803C83.993 45.998 74.4518 48.6635 61.7343 49.3125V64.2168H49.7105V49.3125C36.9929 48.6635 27.4513 45.998 27.3805 42.803L27.381 36.1425C27.4517 32.9475 36.9929 30.2819 49.7105 29.6329V23.5597H31.6028V14.8003H79.8419ZM55.7224 44.7367C69.2943 44.7367 80.6382 42.4827 83.4143 39.4727C81.0601 36.9202 72.5448 34.9114 61.7343 34.3597V40.7183C59.7966 40.8172 57.7852 40.8693 55.7224 40.8693C53.6595 40.8693 51.6481 40.8172 49.7105 40.7183V34.3597C38.8999 34.9114 30.3846 36.9202 28.0304 39.4727C30.8066 42.4827 42.1504 44.7367 55.7224 44.7367Z' fill='%23009393'/%3E%3C/svg%3E";

/// What a metadata record says, at the specification level.
#[verifier::ext_equal]
pub struct MetaView {
    pub spec_version: Seq<char>,
    pub name: Seq<char>,
    pub symbol: Seq<char>,
    pub icon: Option<Seq<char>>,
    pub reference: Option<Seq<char>>,
    pub reference_hash: Option<Seq<u8>>,
    pub decimals: u8,
}

/// Descriptive metadata of the token, in the host chain's
/// fungible-token metadata shape.
pub struct FungibleTokenMetadata {
    /// The metadata specification version tag.
    pub spec_version: String,
    pub name: String,
    pub symbol: String,
    pub icon: Option<String>,
    pub reference: Option<String>,
    pub reference_hash: Option<Vec<u8>>,
    pub decimals: u8,
}

impl View for FungibleTokenMetadata {
    type V = MetaView;

    open spec fn view(&self) -> MetaView {
        MetaView {
            spec_version: self.spec_version@,
            name: self.name@,
            symbol: self.symbol@,
            icon: match self.icon {
                Some(s) => Some(s@),
                None => None,
            },
            reference: match self.reference {
                Some(s) => Some(s@),
                None => None,
            },
            reference_hash: match self.reference_hash {
                Some(h) => Some(h@),
                None => None,
            },
            decimals: self.decimals,
        }
    }
}

impl FungibleTokenMetadata {
    /// A record is valid when it carries the expected specification tag,
    /// names a reference exactly when it carries a reference hash, and
    /// any reference hash is 32 bytes long.
    pub open spec fn valid(&self) -> bool {
        &&& self@.spec_version == FT_METADATA_SPEC@
        &&& (self@.reference is Some <==> self@.reference_hash is Some)
        &&& (self@.reference_hash matches Some(h) ==> h.len() == 32)
    }

    /// Checks validity.
    pub fn is_valid(&self) -> (r: bool)
        ensures
            r == self.valid(),
    {
        let tag_ok = self.spec_version == FT_METADATA_SPEC.to_owned();
        let refs_ok = match (&self.reference, &self.reference_hash) {
            (Some(_), Some(h)) => h.len() == 32,
            (None, None) => true,
            _ => false,
        };
        tag_ok && refs_ok
    }

    /// The metadata the deployed token ships by default.
    pub fn default_meta() -> (r: FungibleTokenMetadata)
        ensures
            r.valid(),
            r@ == (MetaView {
                spec_version: FT_METADATA_SPEC@,
                name: "Tether USD"@,
                symbol: "USDt"@,
                icon: Some(DATA_IMAGE_SVG_NEAR_ICON@),
                reference: None,
                reference_hash: None,
                decimals: 6,
            }),
    {
        FungibleTokenMetadata {
            spec_version: FT_METADATA_SPEC.to_owned(),
            name: "Tether USD".to_owned(),
            symbol: "USDt".to_owned(),
            icon: Some(DATA_IMAGE_SVG_NEAR_ICON.to_owned()),
            reference: None,
            reference_hash: None,
            decimals: 6,
        }
    }
}

impl Clone for FungibleTokenMetadata {
    fn clone(&self) -> (r: Self)
        ensures
            r@ == self@,
    {
        FungibleTokenMetadata {
            spec_version: self.spec_version.clone(),
            name: self.name.clone(),
            symbol: self.symbol.clone(),
            icon: match &self.icon {
                Some(s) => Some(s.clone()),
                None => None,
            },
            reference: match &self.reference {
                Some(s) => Some(s.clone()),
                None => None,
            },
            reference_hash: match &self.reference_hash {
                Some(h) => Some(h.clone()),
                None => None,
            },
            decimals: self.decimals,
        }
    }
}

} // verus!
