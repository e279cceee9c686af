use relay_bot::error::{check_status, RelayError, Service};
use relay_bot::profile::{profile_url, profile_url_for};
use relay_bot::text::{parse_u32, same_text, trim};

#[test]
fn parse_u32_follows_std() {
    assert_eq!(parse_u32("500"), Some(500));
    assert_eq!(parse_u32("+7"), Some(7));
    assert_eq!(parse_u32("0007"), Some(7));
    assert_eq!(parse_u32("4294967295"), Some(u32::MAX));
    assert_eq!(parse_u32("4294967296"), None);
    assert_eq!(parse_u32("99999999999999999999"), None);
    assert_eq!(parse_u32(""), None);
    assert_eq!(parse_u32("+"), None);
    assert_eq!(parse_u32("-0"), None);
    assert_eq!(parse_u32(" 5"), None);
    assert_eq!(parse_u32("5x"), None);
    for s in ["0", "12", "+3", "4294967295", "4294967296", "1a", "", "-1"] {
        assert_eq!(parse_u32(s), s.parse::<u32>().ok(), "{}", s);
    }
}

#[test]
fn trim_follows_std() {
    for s in ["", "   ", " a b ", "\t\nx\u{3000}", "\u{a0}y\u{2009}", "plain"] {
        assert_eq!(trim(s), s.trim(), "{:?}", s);
    }
}

#[test]
fn text_equality() {
    assert!(same_text("user", "user"));
    assert!(!same_text("user", "users"));
}

#[test]
fn status_checks() {
    assert!(check_status(Service::Inference, 200, "").is_ok());
    assert!(check_status(Service::Profile, 299, "n").is_ok());
    assert!(matches!(check_status(Service::Auth, 404, ""), Err(RelayError::Status(Service::Auth, 404))));
    assert!(matches!(check_status(Service::Profile, 404, "n"), Err(RelayError::NotFound(_))));
    assert!(matches!(check_status(Service::Profile, 300, "n"), Err(RelayError::Status(Service::Profile, 300))));
}

#[test]
fn error_texts() {
    assert_eq!(RelayError::NotConfigured(Service::Inference).message(), "LLAMA_API_URL not configured");
    assert_eq!(RelayError::NotConfigured(Service::Auth).message(), "Battle.net not configured");
    assert_eq!(
        RelayError::Unreachable(Service::Inference, "timeout".to_string()).message(),
        "Failed to reach llama.cpp: timeout"
    );
    assert_eq!(RelayError::Status(Service::Auth, 401).message(), "OAuth returned status 401");
    assert_eq!(RelayError::Status(Service::Inference, 0).message(), "llama.cpp returned status 0");
    assert_eq!(
        RelayError::Status(Service::Profile, u16::MAX).message(),
        "Blizzard API returned status 65535"
    );
    assert_eq!(
        RelayError::Malformed(Service::Profile, "eof".to_string()).message(),
        "Failed to parse character data: eof"
    );
    assert_eq!(
        RelayError::NotFound("Ghost".to_string()).message(),
        "Character **Ghost** not found on Nightslayer."
    );
    assert_eq!(RelayError::EmptyCompletion.message(), "No response from model");
    assert_eq!(RelayError::Storage("locked".to_string()).message(), "DB error: locked");
}

#[test]
fn profile_url_lowercases_name() {
    assert_eq!(
        profile_url("Pyuul"),
        "https://us.api.blizzard.com/profile/wow/character/nightslayer/pyuul?namespace=profile-classicann-us&locale=en_US"
    );
    assert_eq!(
        profile_url_for("abc"),
        "https://us.api.blizzard.com/profile/wow/character/nightslayer/abc?namespace=profile-classicann-us&locale=en_US"
    );
}
