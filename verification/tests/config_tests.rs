use guestbook::config::{Config, ConfigManager};
use guestbook::db::GuestEntry;
use guestbook::device_id::{compute_device_id, device_id_from_mac, get_primary_mac_address};
use guestbook::entries::CardData;
use guestbook::hid::{
    contains_sub, first_match, list_candidates, magtek_signature, matches_signature,
    symbol_scanner_signature, DeviceDescriptor,
};

fn descriptor(vendor_id: u16, manufacturer: &str, product: &str) -> DeviceDescriptor {
    DeviceDescriptor {
        vendor_id,
        product_id: 0,
        manufacturer: manufacturer.to_string(),
        product: product.to_string(),
    }
}

#[test]
fn first_match_over_empty_list_is_none() {
    let devices: Vec<DeviceDescriptor> = Vec::new();
    let sig = magtek_signature();
    assert!(first_match(&devices, &sig).is_none());
}

#[test]
fn first_match_wins_over_later_matches() {
    let devices = vec![
        descriptor(0x1234, "Other", "Mouse"),
        descriptor(0x0801, "Generic", "Reader"),
        descriptor(0x5678, "MagTek Inc", "Swiper"),
    ];
    let sig = magtek_signature();
    assert_eq!(first_match(&devices, &sig), Some(1));
}

#[test]
fn list_candidates_keeps_enumeration_order() {
    let devices = vec![
        descriptor(0x1234, "Other", "Mouse"),
        descriptor(0x0801, "Generic", "Reader"),
        descriptor(0x5678, "MagTek Inc", "Swiper"),
    ];
    let sig = magtek_signature();
    assert_eq!(list_candidates(&devices, &sig), vec![1, 2]);
    let none: Vec<DeviceDescriptor> = Vec::new();
    assert!(list_candidates(&none, &sig).is_empty());
}

#[test]
fn signature_matches_by_vendor_or_name() {
    let sig = magtek_signature();
    assert!(matches_signature(&descriptor(0x0801, "", ""), &sig));
    assert!(matches_signature(&descriptor(0, "MagTek Inc", ""), &sig));
    assert!(matches_signature(&descriptor(0, "Mag-Tek", ""), &sig));
    assert!(matches_signature(&descriptor(0, "", "MagTek Swiper"), &sig));
    assert!(!matches_signature(&descriptor(0, "Acme", "Keyboard"), &sig));

    let sig = symbol_scanner_signature();
    assert!(matches_signature(&descriptor(0x05e0, "", ""), &sig));
    assert!(matches_signature(&descriptor(0, "Zebra Technologies", ""), &sig));
    assert!(matches_signature(&descriptor(0, "Symbol", ""), &sig));
    assert!(matches_signature(&descriptor(0, "", "Bar Code Scanner"), &sig));
    assert!(!matches_signature(&descriptor(0, "Acme", "Mouse"), &sig));
}

#[test]
fn substring_search_is_exact() {
    assert!(contains_sub("MagTek Inc", "MagTek"));
    assert!(contains_sub("abc", ""));
    assert!(contains_sub("abcabd", "abd"));
    assert!(!contains_sub("magtek", "MagTek"));
    assert!(!contains_sub("ab", "abc"));
}

#[test]
fn merge_with_no_loaded_config_gives_defaults() {
    let merged = ConfigManager::merge_with_default(None);
    assert!(merged.server_url.is_none());
    assert!(merged.server_token.is_none());
    assert!(merged.device_location.is_none());
    assert!(merged.device_friendly_name.is_none());
    assert!(merged.first_run);
    let id = merged.device_id.expect("a device id is always filled in");
    assert_eq!(id.len(), 6);
    assert!(id.chars().all(|c| c.is_ascii_alphanumeric()));
}

#[test]
fn merge_keeps_loaded_fields_and_raises_first_run() {
    let loaded = Config {
        server_url: Some("https://example.test".to_string()),
        server_token: None,
        device_id: Some("ABC123".to_string()),
        device_location: Some("Lobby".to_string()),
        device_friendly_name: None,
        first_run: false,
    };
    let merged = ConfigManager::merge_with_default(Some(loaded));
    assert_eq!(merged.server_url.as_deref(), Some("https://example.test"));
    assert!(merged.server_token.is_none());
    assert_eq!(merged.device_id.as_deref(), Some("ABC123"));
    assert_eq!(merged.device_location.as_deref(), Some("Lobby"));
    assert!(merged.device_friendly_name.is_none());
    // the flag is deliberately never taken from the file
    assert!(merged.first_run);
}

#[test]
fn set_server_token_keeps_everything_else() {
    let loaded = Config {
        server_url: Some("https://example.test".to_string()),
        server_token: None,
        device_id: Some("ABC123".to_string()),
        device_location: None,
        device_friendly_name: Some("Front Desk".to_string()),
        first_run: true,
    };
    let mut manager = ConfigManager::new("wg_config.json".to_string(), Some(loaded));
    manager.set_server_token("SECRET-REDACTED".to_string());
    assert_eq!(manager.config_path, "wg_config.json");
    assert_eq!(manager.config.server_token.as_deref(), Some("SECRET-REDACTED"));
    assert_eq!(manager.config.server_url.as_deref(), Some("https://example.test"));
    assert_eq!(manager.config.device_id.as_deref(), Some("ABC123"));
    assert_eq!(manager.config.device_friendly_name.as_deref(), Some("Front Desk"));
}

#[test]
fn device_id_derivation_takes_last_six_hex_digits() {
    assert_eq!(device_id_from_mac("AA:BB:CC:DD:EE:FF"), "DDEEFF");
    assert_eq!(device_id_from_mac("AA:BB"), "AABB");
    assert_eq!(device_id_from_mac(""), "");
}

#[test]
fn device_id_is_six_alphanumerics() {
    let id = compute_device_id();
    assert_eq!(id.len(), 6);
    assert!(id.chars().all(|c| c.is_ascii_alphanumeric()));
}

#[test]
fn primary_mac_address_has_display_shape() {
    if let Some(mac) = get_primary_mac_address() {
        assert_eq!(mac.len(), 17);
        for (i, c) in mac.chars().enumerate() {
            if i % 3 == 2 {
                assert_eq!(c, ':');
            } else {
                assert!(c.is_ascii_hexdigit());
            }
        }
    }
}

#[test]
fn entry_records_carry_their_fields() {
    let card = CardData { onecard: "1234567".to_string(), name: "DOE/JOHN".to_string() };
    let entry = GuestEntry {
        id: 1,
        onecard: 1234567,
        entry_time: "2024-01-01T00:00:00Z".to_string(),
        name: Some(card.name.clone()),
    };
    assert_eq!(entry.onecard, 1234567);
    assert_eq!(entry.name.as_deref(), Some("DOE/JOHN"));
    assert_eq!(card.onecard, "1234567");
}
