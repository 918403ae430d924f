//! Run configuration: the variant selector and the configuration surface
//! the core consumes, with its validation.

use vstd::prelude::*;
use vstd::slice::slice_index_get;
use vstd::string::StringSliceAdditionalSpecFns;
use crate::address::{bytes_eq, AccountAddress};
use crate::errors::ConfigError;

verus! {

/// The transaction semantics of a run.
#[derive(Debug, Clone, Copy, PartialEq, Eq, Structural)]
pub enum DistributionType {
    /// One plain value transfer per recipient.
    NativeDirect,
    /// Batched "send to many" contract calls.
    NativeBatch,
    /// Collectible-mint batches.
    NFTMint,
    /// A repeated contract-call loop.
    Swapper,
}

/// An upper-case ASCII letter folded to lower case; any other byte kept.
pub open spec fn ascii_lower(b: u8) -> u8 {
    if 65 <= b <= 90 {
        (b + 32) as u8
    } else {
        b
    }
}

/// A byte string with its ASCII letters folded to lower case.
pub open spec fn lower_bytes(s: Seq<u8>) -> Seq<u8> {
    Seq::new(s.len(), |i: int| ascii_lower(s[i]))
}

/// The variant a selector denotes, after case folding: each variant under
/// its hyphenated, underscored and fused spelling.
pub open spec fn spec_parse_distribution_type(s: Seq<u8>) -> Option<DistributionType> {
    let l = lower_bytes(s);
    if l == "native-direct".spec_bytes() || l == "native_direct".spec_bytes() || l
        == "nativedirect".spec_bytes() {
        Some(DistributionType::NativeDirect)
    } else if l == "native-batch".spec_bytes() || l == "native_batch".spec_bytes() || l
        == "nativebatch".spec_bytes() {
        Some(DistributionType::NativeBatch)
    } else if l == "swapper".spec_bytes() {
        Some(DistributionType::Swapper)
    } else if l == "nft-mint".spec_bytes() || l == "nft_mint".spec_bytes() || l
        == "nftmint".spec_bytes() {
        Some(DistributionType::NFTMint)
    } else {
        None
    }
}

impl DistributionType {
    /// Reads a variant selector, accepting each variant's spellings in any
    /// letter case; any other text denotes no variant.
    pub fn parse(s: &str) -> (r: Option<DistributionType>)
        ensures
            r == spec_parse_distribution_type(s.spec_bytes()),
    {
        let bytes: &[u8] = s.as_bytes();
        let n = bytes.len();
        let mut lowered: Vec<u8> = Vec::new();
        let mut i: usize = 0;
        while i < n
            invariant
                i <= n,
                n == bytes.len(),
                bytes@ == s.spec_bytes(),
                lowered@ =~= lower_bytes(s.spec_bytes()).subrange(0, i as int),
            decreases n - i,
        {
            let b = *slice_index_get(bytes, i);
            let low = if 65 <= b && b <= 90 {
                b + 32
            } else {
                b
            };
            lowered.push(low);
            proof {
                assert(lower_bytes(s.spec_bytes()).subrange(0, i + 1) =~= lower_bytes(
                    s.spec_bytes(),
                ).subrange(0, i as int).push(ascii_lower(s.spec_bytes()[i as int])));
            }
            i = i + 1;
        }
        proof {
            assert(lowered@ =~= lower_bytes(s.spec_bytes()));
        }
        let l = lowered.as_slice();
        if bytes_eq(l, "native-direct".as_bytes()) || bytes_eq(l, "native_direct".as_bytes())
            || bytes_eq(l, "nativedirect".as_bytes()) {
            Some(DistributionType::NativeDirect)
        } else if bytes_eq(l, "native-batch".as_bytes()) || bytes_eq(l, "native_batch".as_bytes())
            || bytes_eq(l, "nativebatch".as_bytes()) {
            Some(DistributionType::NativeBatch)
        } else if bytes_eq(l, "swapper".as_bytes()) {
            Some(DistributionType::Swapper)
        } else if bytes_eq(l, "nft-mint".as_bytes()) || bytes_eq(l, "nft_mint".as_bytes())
            || bytes_eq(l, "nftmint".as_bytes()) {
            Some(DistributionType::NFTMint)
        } else {
            None
        }
    }
}

impl core::str::FromStr for DistributionType {
    type Err = ConfigError;

    fn from_str(s: &str) -> Result<Self, Self::Err> {
        match DistributionType::parse(s) {
            Some(d) => Ok(d),
            None => Err(ConfigError::UnknownDistributionType),
        }
    }
}

/// The core configuration of a run.
#[derive(Debug)]
pub struct CoreConfig {
    /// The remote endpoints, at least one.
    pub rpc_urls: Vec<String>,
    /// Target throughput, in transactions per second.
    pub target_tps: u64,
    /// Transactions per submission chunk.
    pub rpc_batch_size: usize,
    /// Which transaction semantics the run uses.
    pub distribution_type: DistributionType,
    /// Where the recipient source lives, for the variants that need one.
    pub addresses_file: Option<String>,
}

/// Parameters of the batched value-transfer variant.  Amounts are in
/// minor units.
#[derive(Debug)]
pub struct TokenConfig {
    /// The "send to many" contract.
    pub batch_sender_address: AccountAddress,
    /// Smallest per-recipient amount, in minor units.
    pub amount_per_address_low: u128,
    /// Largest per-recipient amount, in minor units.
    pub amount_per_address_high: u128,
}

/// Parameters of the collectible-mint variant.
#[derive(Debug)]
pub struct NFTConfig {
    /// The minting contract.
    pub token_address: AccountAddress,
    /// Whether the minted collectibles are soulbound.
    pub soulbound: bool,
    /// The metadata reference handed to every mint call.
    pub image_url: String,
}

/// Parameters of the repeated-call variant.
#[derive(Debug)]
pub struct SwapperConfig {
    /// The swapping contract.
    pub swapper_address: AccountAddress,
    /// How many swap calls to produce.
    pub max_swaps: u64,
}

/// The whole configuration surface of a run.
#[derive(Debug)]
pub struct UnifiedConfig {
    pub core: CoreConfig,
    pub token: Option<TokenConfig>,
    pub nft: Option<NFTConfig>,
    pub swapper: Option<SwapperConfig>,
}

impl UnifiedConfig {
    /// The configuration carries everything its chosen variant needs.
    pub open spec fn complete(&self) -> bool {
        &&& self.core.rpc_urls@.len() >= 1
        &&& match self.core.distribution_type {
            DistributionType::NativeDirect => self.core.addresses_file is Some,
            DistributionType::NativeBatch => self.core.addresses_file is Some
                && self.token is Some,
            DistributionType::NFTMint => self.core.addresses_file is Some && self.nft is Some,
            DistributionType::Swapper => self.swapper is Some,
        }
    }

    /// Checks the configuration before any network activity: there must be
    /// at least one endpoint, and the chosen variant's parameters must be
    /// present.
    pub fn validate(&self) -> (r: Result<(), ConfigError>)
        ensures
            (r is Ok) <==> self.complete(),
            r matches Err(e) ==> !self.complete(),
    {
        if self.core.rpc_urls.len() == 0 {
            return Err(ConfigError::NoEndpoints);
        }
        match self.core.distribution_type {
            DistributionType::NativeDirect => {
                if self.core.addresses_file.is_none() {
                    return Err(ConfigError::MissingAddressesFile);
                }
            },
            DistributionType::NativeBatch => {
                if self.core.addresses_file.is_none() {
                    return Err(ConfigError::MissingAddressesFile);
                }
                if self.token.is_none() {
                    return Err(ConfigError::MissingTokenConfig);
                }
            },
            DistributionType::NFTMint => {
                if self.core.addresses_file.is_none() {
                    return Err(ConfigError::MissingAddressesFile);
                }
                if self.nft.is_none() {
                    return Err(ConfigError::MissingNftConfig);
                }
            },
            DistributionType::Swapper => {
                if self.swapper.is_none() {
                    return Err(ConfigError::MissingSwapperConfig);
                }
            },
        }
        Ok(())
    }
}

} // verus!
