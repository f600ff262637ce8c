use chain_registry::address::{
    is_valid_solana_address, Eip155OrSolanaAddress, Eip155OrSolanaStatic,
};
use chain_registry::assets::{AssetError, AssetMetadata, AssetRegistry};
use chain_registry::chain::ChainId;

fn registry() -> AssetRegistry {
    AssetRegistry::bridging_assets().unwrap()
}

fn chain(s: &str) -> ChainId {
    ChainId::parse(s).unwrap()
}

const SOLANA_MAINNET: &str = "solana:5eykt4UsFv8P8NJdTREpY1vzqKqZKvdp";
const SOLANA_USDC: &str = "EPjFWdd5AufqSSqeM2qN1xzybapC8G4wEGGkZwyTDt1v";

#[test]
fn bridging_assets_builds() {
    assert!(AssetRegistry::bridging_assets().is_ok());
}

#[test]
fn usdc_lookup_on_optimism() {
    let reg = registry();
    let (addr, meta) = reg.lookup("USDC", &chain("eip155:10")).unwrap();
    let expected =
        Eip155OrSolanaStatic::eip155_from_hex("0b2c639c533813f4aa9d7837caf62653d097ff85").unwrap();
    assert_eq!(addr, expected);
    assert_eq!(meta, AssetMetadata { decimals: 6 });
}

#[test]
fn usdc_lookup_on_unregistered_chain() {
    let reg = registry();
    assert_eq!(
        reg.lookup("USDC", &chain("eip155:999")),
        Err(AssetError::ChainNotSupportedForAsset)
    );
}

#[test]
fn unknown_asset_is_not_found() {
    let reg = registry();
    assert_eq!(reg.lookup("DOGE", &chain("eip155:10")), Err(AssetError::AssetNotFound));
    assert_eq!(
        reg.simulation_override("DOGE", &chain("eip155:10")),
        Err(AssetError::AssetNotFound)
    );
}

#[test]
fn eth_simulation_override_on_base() {
    let reg = registry();
    assert_eq!(
        reg.simulation_override("ETH", &chain("eip155:8453")),
        Ok((0u64, 99000000000000000000000u128))
    );
}

#[test]
fn usdt_simulation_overrides() {
    let reg = registry();
    assert_eq!(reg.simulation_override("USDT", &chain("eip155:10")), Ok((0, 99000000000)));
    assert_eq!(reg.simulation_override("USDT", &chain("eip155:42161")), Ok((51, 99000000000)));
    assert_eq!(
        reg.simulation_override("USDT", &chain("eip155:8453")),
        Err(AssetError::ChainNotSupportedForAsset)
    );
}

#[test]
fn usdc_storage_slot_is_nine() {
    let reg = registry();
    assert_eq!(reg.simulation_override("USDC", &chain("eip155:10")), Ok((9, 99000000000)));
    assert_eq!(reg.simulation_override("USDC", &chain("eip155:8453")), Ok((9, 99000000000)));
}

#[test]
fn contract_and_slot_tables_agree_on_every_chain() {
    let reg = registry();
    for sym in ["USDC", "USDT", "USDS", "ETH"] {
        for c in ["eip155:10", "eip155:8453", "eip155:42161", "eip155:1", SOLANA_MAINNET] {
            let ch = chain(c);
            assert_eq!(
                reg.lookup(sym, &ch).is_ok(),
                reg.simulation_override(sym, &ch).is_ok(),
                "tables disagree for {} on {}",
                sym,
                c
            );
        }
    }
}

#[test]
fn solana_contract_has_a_simulation_slot() {
    let reg = registry();
    let sol = chain(SOLANA_MAINNET);
    assert!(reg.lookup("USDC", &sol).is_ok());
    assert_eq!(reg.simulation_override("USDC", &sol), Ok((0, 99000000000)));
}

#[test]
fn solana_literals_decode_to_32_byte_keys() {
    assert!(is_valid_solana_address(SOLANA_USDC));
    let reg = registry();
    let (addr, _) = reg.lookup("USDC", &chain(SOLANA_MAINNET)).unwrap();
    match addr.into_eip155_or_solana_address().unwrap() {
        Eip155OrSolanaAddress::Solana(key) => assert_eq!(key.len(), 32),
        Eip155OrSolanaAddress::Eip155(_) => panic!("expected a solana key"),
    }
}

#[test]
fn base58_decoding_through_conversion() {
    let a = Eip155OrSolanaStatic::solana("11111111111111111111111111111111").unwrap();
    assert_eq!(
        a.into_eip155_or_solana_address().unwrap(),
        Eip155OrSolanaAddress::Solana(vec![0u8; 32])
    );
    assert!(Eip155OrSolanaStatic::solana("2").is_err());
    assert!(Eip155OrSolanaStatic::solana("0OIl").is_err());
    assert!(!is_valid_solana_address("not base58 at all!"));
}

#[test]
fn native_token_address_is_sentinel() {
    let a = AssetRegistry::native_token_address();
    let expected =
        Eip155OrSolanaStatic::eip155_from_hex("eeeeeeeeeeeeeeeeeeeeeeeeeeeeeeeeeeeeeeee").unwrap();
    assert_eq!(a, expected);
    let reg = registry();
    let (eth_addr, meta) = reg.lookup("ETH", &chain("eip155:10")).unwrap();
    assert_eq!(eth_addr, expected);
    assert_eq!(meta.decimals, 18);
}

#[test]
fn checksummed_display() {
    let a =
        Eip155OrSolanaStatic::eip155_from_hex("833589fcd6edb6e08f4c7c32d4f71b54bda02913").unwrap();
    assert_eq!(a.to_display_string(), "0x833589fCD6eDb6E08f4c7C32D4f71b54bdA02913");
    let s = Eip155OrSolanaStatic::solana(SOLANA_USDC).unwrap();
    assert_eq!(s.to_display_string(), SOLANA_USDC);
}

#[test]
fn hex_parsing_is_case_insensitive() {
    let lower =
        Eip155OrSolanaStatic::eip155_from_hex("833589fcd6edb6e08f4c7c32d4f71b54bda02913").unwrap();
    let mixed =
        Eip155OrSolanaStatic::eip155_from_hex("833589fCD6eDb6E08f4c7C32D4f71b54bdA02913").unwrap();
    assert_eq!(lower, mixed);
}

#[test]
fn malformed_address_literals_are_rejected() {
    assert!(Eip155OrSolanaStatic::eip155_from_hex("0b2c").is_err());
    assert!(
        Eip155OrSolanaStatic::eip155_from_hex("zzzz89fcd6edb6e08f4c7c32d4f71b54bda02913").is_err()
    );
    assert!(
        Eip155OrSolanaStatic::eip155_from_hex("0x833589fCD6eDb6E08f4c7C32D4f71b54bdA02913")
            .is_err()
    );
}

#[test]
fn eip155_address_bytes_are_exact() {
    let a =
        Eip155OrSolanaStatic::eip155_from_hex("0b2c639c533813f4aa9d7837caf62653d097ff85").unwrap();
    match a.into_eip155_or_solana_address().unwrap() {
        Eip155OrSolanaAddress::Eip155(b) => {
            assert_eq!(b.len(), 20);
            assert_eq!(b[0], 0x0b);
            assert_eq!(b[1], 0x2c);
            assert_eq!(b[19], 0x85);
        },
        Eip155OrSolanaAddress::Solana(_) => panic!("expected an evm address"),
    }
}
