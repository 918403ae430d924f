use distribution::address::AccountAddress;
use distribution::config::{
    CoreConfig, DistributionType, NFTConfig, SwapperConfig, TokenConfig, UnifiedConfig,
};
use distribution::dispatch::DistributionOptions;
use distribution::errors::ConfigError;

#[test]
fn every_spelling_of_each_variant_parses() {
    for s in ["native-direct", "native_direct", "nativedirect", "NativeDirect", "NATIVE-DIRECT"] {
        assert_eq!(DistributionType::parse(s), Some(DistributionType::NativeDirect));
    }
    for s in ["native-batch", "native_batch", "nativebatch", "NativeBatch"] {
        assert_eq!(DistributionType::parse(s), Some(DistributionType::NativeBatch));
    }
    for s in ["swapper", "Swapper"] {
        assert_eq!(DistributionType::parse(s), Some(DistributionType::Swapper));
    }
    for s in ["nft-mint", "nft_mint", "nftmint", "NFTMint"] {
        assert_eq!(DistributionType::parse(s), Some(DistributionType::NFTMint));
    }
}

#[test]
fn unknown_selectors_parse_to_nothing() {
    assert_eq!(DistributionType::parse(""), None);
    assert_eq!(DistributionType::parse("native"), None);
    assert_eq!(DistributionType::parse("native direct"), None);
}

#[test]
fn from_str_reports_the_unknown_variant() {
    let r: Result<DistributionType, ConfigError> = "nope".parse();
    assert!(matches!(r, Err(ConfigError::UnknownDistributionType)));
    let ok: Result<DistributionType, ConfigError> = "swapper".parse();
    assert!(matches!(ok, Ok(DistributionType::Swapper)));
}

#[test]
fn default_options_match_the_documented_values() {
    let d = DistributionOptions::default();
    assert_eq!(d.rpc_batch_size, 100);
    assert_eq!(d.target_tps, 10);
    assert!(d.wait_for_confirmation);
    assert_eq!(d.confirmation_timeout, 120);
    assert!(d.rpc_urls.is_empty());
}

fn base_config(dt: DistributionType) -> UnifiedConfig {
    UnifiedConfig {
        core: CoreConfig {
            rpc_urls: vec!["http://localhost:8545".to_string()],
            target_tps: 100,
            rpc_batch_size: 10,
            distribution_type: dt,
            addresses_file: Some("addresses.csv".to_string()),
        },
        token: None,
        nft: None,
        swapper: None,
    }
}

#[test]
fn validation_requires_at_least_one_endpoint() {
    let mut c = base_config(DistributionType::NativeDirect);
    c.core.rpc_urls.clear();
    assert!(matches!(c.validate(), Err(ConfigError::NoEndpoints)));
}

#[test]
fn each_variant_requires_its_parameters() {
    let c = base_config(DistributionType::NativeDirect);
    assert!(c.validate().is_ok());

    let mut c = base_config(DistributionType::NativeDirect);
    c.core.addresses_file = None;
    assert!(matches!(c.validate(), Err(ConfigError::MissingAddressesFile)));

    let c = base_config(DistributionType::NativeBatch);
    assert!(matches!(c.validate(), Err(ConfigError::MissingTokenConfig)));

    let mut c = base_config(DistributionType::NativeBatch);
    c.token = Some(TokenConfig {
        batch_sender_address: AccountAddress::new([0; 20]),
        amount_per_address_low: 1,
        amount_per_address_high: 2,
    });
    assert!(c.validate().is_ok());

    let c = base_config(DistributionType::NFTMint);
    assert!(matches!(c.validate(), Err(ConfigError::MissingNftConfig)));

    let mut c = base_config(DistributionType::NFTMint);
    c.nft = Some(NFTConfig {
        token_address: AccountAddress::new([0; 20]),
        soulbound: true,
        image_url: "ipfs://x".to_string(),
    });
    assert!(c.validate().is_ok());

    let c = base_config(DistributionType::Swapper);
    assert!(matches!(c.validate(), Err(ConfigError::MissingSwapperConfig)));

    let mut c = base_config(DistributionType::Swapper);
    c.swapper = Some(SwapperConfig { swapper_address: AccountAddress::new([0; 20]), max_swaps: 3 });
    assert!(c.validate().is_ok());
}
