use clawbox_core::status::{
    delete_status, get_status, init_status, set_status, unlock_status, CLAWBOX_ERR_INVALID_PASSWORD,
    CLAWBOX_ERR_IO, CLAWBOX_ERR_NOT_FOUND, CLAWBOX_ERR_UNKNOWN, CLAWBOX_ERR_VAULT_LOCKED,
    CLAWBOX_OK,
};
use clawbox_core::text::{
    bytes_eq, check_contains, check_glob, check_occurs_at, from_chars, hex_encode, parse_u64,
    render_u64, str_eq, to_chars,
};
use clawbox_core::{level_of_name, parse_access_level, AccessLevel, Error, SetOptions};

fn chars(s: &str) -> Vec<char> {
    s.chars().collect()
}

fn glob(pattern: &str, text: &str) -> bool {
    check_glob(&chars(pattern), &chars(text))
}

#[test]
fn access_levels_by_name() {
    assert_eq!(parse_access_level("public"), AccessLevel::Public);
    assert_eq!(parse_access_level("normal"), AccessLevel::Normal);
    assert_eq!(parse_access_level("sensitive"), AccessLevel::Sensitive);
    assert_eq!(parse_access_level("critical"), AccessLevel::Critical);
    assert_eq!(parse_access_level("CRITICAL"), AccessLevel::Critical);
    assert_eq!(parse_access_level("Public"), AccessLevel::Public);
    assert_eq!(parse_access_level("secret"), AccessLevel::Normal);
    assert_eq!(parse_access_level(""), AccessLevel::Normal);
    assert_eq!(level_of_name("critical"), AccessLevel::Critical);
    assert_eq!(level_of_name("Critical"), AccessLevel::Normal);
}

#[test]
fn access_levels_by_code() {
    assert_eq!(AccessLevel::from_code(0), AccessLevel::Public);
    assert_eq!(AccessLevel::from_code(1), AccessLevel::Normal);
    assert_eq!(AccessLevel::from_code(2), AccessLevel::Sensitive);
    assert_eq!(AccessLevel::from_code(3), AccessLevel::Critical);
    assert_eq!(AccessLevel::from_code(4), AccessLevel::Normal);
    assert_eq!(AccessLevel::from_code(-1), AccessLevel::Normal);
    for level in [
        AccessLevel::Public,
        AccessLevel::Normal,
        AccessLevel::Sensitive,
        AccessLevel::Critical,
    ] {
        assert_eq!(AccessLevel::from_code(level.code()), level);
    }
    assert_eq!(AccessLevel::Critical.code(), 3);
}

#[test]
fn access_levels_are_ordered() {
    assert!(AccessLevel::Public.at_most(&AccessLevel::Normal));
    assert!(AccessLevel::Normal.at_most(&AccessLevel::Sensitive));
    assert!(AccessLevel::Sensitive.at_most(&AccessLevel::Critical));
    assert!(AccessLevel::Critical.at_most(&AccessLevel::Critical));
    assert!(!AccessLevel::Critical.at_most(&AccessLevel::Sensitive));
    assert_eq!(AccessLevel::default(), AccessLevel::Normal);
}

#[test]
fn default_options() {
    let opts = SetOptions::default();
    assert_eq!(opts.access, AccessLevel::Normal);
    assert!(opts.ttl.is_none());
    assert!(opts.tags.is_empty());
    assert!(opts.note.is_none());
}

#[test]
fn error_messages() {
    assert_eq!(Error::VaultLocked.message(), "Vault is locked");
    assert_eq!(Error::VaultNotFound { path: "/v".to_string() }.message(), "Vault not found at /v");
    assert_eq!(Error::SecretNotFound { path: "a/b".to_string() }.message(), "Secret not found: a/b");
    assert_eq!(Error::InvalidPassword.message(), "Invalid master password");
    assert_eq!(Error::AccessDenied { reason: "no".to_string() }.message(), "Access denied: no");
    assert_eq!(Error::ApprovalTimeout.message(), "Approval timeout");
    assert_eq!(Error::Encryption("x".to_string()).message(), "Encryption error: x");
    assert_eq!(Error::Decryption("y".to_string()).message(), "Decryption error: y");
    assert_eq!(Error::Database("z".to_string()).message(), "Database error: z");
    assert_eq!(Error::Io("i".to_string()).message(), "IO error: i");
    assert_eq!(Error::Json("j".to_string()).message(), "JSON error: j");
    assert_eq!(Error::Other("plain".to_string()).message(), "plain");
}

#[test]
fn status_codes() {
    assert_eq!(CLAWBOX_OK, 0);
    assert_eq!(CLAWBOX_ERR_VAULT_LOCKED, 1);
    assert_eq!(CLAWBOX_ERR_INVALID_PASSWORD, 2);
    assert_eq!(CLAWBOX_ERR_NOT_FOUND, 3);
    assert_eq!(CLAWBOX_ERR_IO, 4);
    assert_eq!(CLAWBOX_ERR_UNKNOWN, -1);

    assert_eq!(init_status(&Ok(())), 0);
    assert_eq!(init_status(&Err(Error::VaultLocked)), 4);
    assert_eq!(unlock_status(&Ok(())), 0);
    assert_eq!(unlock_status(&Err(Error::InvalidPassword)), 2);
    assert_eq!(unlock_status(&Err(Error::VaultLocked)), -1);
    assert_eq!(get_status(&Ok(Some("v".to_string()))), 0);
    assert_eq!(get_status(&Ok(None)), 3);
    assert_eq!(get_status(&Err(Error::VaultLocked)), 1);
    assert_eq!(get_status(&Err(Error::Decryption("d".to_string()))), -1);
    assert_eq!(set_status(&Ok(())), 0);
    assert_eq!(set_status(&Err(Error::VaultLocked)), 1);
    assert_eq!(set_status(&Err(Error::Encryption("e".to_string()))), -1);
    assert_eq!(delete_status(&Ok(true)), 0);
    assert_eq!(delete_status(&Ok(false)), 3);
    assert_eq!(delete_status(&Err(Error::VaultLocked)), 1);
    assert_eq!(delete_status(&Err(Error::InvalidPassword)), -1);
}

#[test]
fn glob_patterns() {
    assert!(glob("", ""));
    assert!(!glob("", "a"));
    assert!(glob("*", ""));
    assert!(glob("*", "anything/at/all"));
    assert!(glob("abc", "abc"));
    assert!(!glob("abc", "abcd"));
    assert!(!glob("abc", "ab"));
    assert!(glob("github/*", "github/"));
    assert!(glob("github/*", "github/token"));
    assert!(!glob("github/*", "github"));
    assert!(!glob("github/*", "xgithub/token"));
    assert!(glob("*token", "github/token"));
    assert!(!glob("*token", "github/tokens"));
    assert!(glob("a*b*c", "aXXbYYc"));
    assert!(glob("a*b*c", "abc"));
    assert!(!glob("a*b*c", "acb"));
    assert!(glob("**", "x"));
    assert!(glob("a**b", "ab"));
    assert!(glob("*a*a*a*", "banana"));
    assert!(!glob("*a*a*a*a*", "banana"));
    assert!(!glob("a_c", "abc"));
    assert!(!glob("A", "a"));
    assert!(glob("é*", "école"));
}

#[test]
fn glob_with_many_stars_is_fast() {
    let pattern = "*a".repeat(40);
    let text = "a".repeat(200) + "b";
    assert!(!glob(&pattern, &text));
    let text = "a".repeat(200);
    assert!(glob(&pattern, &text));
}

#[test]
fn substring_search() {
    assert!(check_contains(&chars("github/token"), &chars("token")));
    assert!(check_contains(&chars("github/token"), &chars("github")));
    assert!(check_contains(&chars("github/token"), &chars("b/t")));
    assert!(check_contains(&chars("abc"), &chars("")));
    assert!(check_contains(&chars(""), &chars("")));
    assert!(!check_contains(&chars(""), &chars("a")));
    assert!(!check_contains(&chars("abc"), &chars("abcd")));
    assert!(!check_contains(&chars("abc"), &chars("ac")));
    assert!(check_contains(&chars("aab"), &chars("ab")));
    assert!(check_occurs_at(&chars("hello"), &chars("ll"), 2));
    assert!(!check_occurs_at(&chars("hello"), &chars("ll"), 3));
    assert!(!check_occurs_at(&chars("hello"), &chars("lo"), 4));
    assert!(check_occurs_at(&chars("hello"), &chars(""), 5));
    assert!(!check_occurs_at(&chars("hello"), &chars(""), 6));
}

#[test]
fn strings_and_characters() {
    assert_eq!(to_chars("héllo"), vec!['h', 'é', 'l', 'l', 'o']);
    assert_eq!(to_chars(""), Vec::<char>::new());
    assert_eq!(from_chars(&chars("héllo"), 1, 4), "éll");
    assert_eq!(from_chars(&chars("abc"), 2, 2), "");
    assert!(str_eq("a", "a"));
    assert!(!str_eq("a", "b"));
    assert!(!str_eq("a", "ab"));
    assert!(bytes_eq(&[1, 2], &[1, 2]));
    assert!(!bytes_eq(&[1, 2], &[1, 3]));
    assert!(!bytes_eq(&[1, 2], &[1]));
    assert!(bytes_eq(&[], &[]));
}

#[test]
fn hexadecimal() {
    assert_eq!(hex_encode(&[]), "");
    assert_eq!(hex_encode(&[0]), "00");
    assert_eq!(hex_encode(&[0x01, 0x23, 0x45, 0x67, 0x89, 0xab, 0xcd, 0xef]), "0123456789abcdef");
    assert_eq!(hex_encode(&[255, 16]), "ff10");
}

#[test]
fn decimal_numbers() {
    assert_eq!(render_u64(0), "0");
    assert_eq!(render_u64(7), "7");
    assert_eq!(render_u64(10), "10");
    assert_eq!(render_u64(1234567890), "1234567890");
    assert_eq!(render_u64(u64::MAX), "18446744073709551615");

    let parse = |s: &str| {
        let c = chars(s);
        parse_u64(&c, 0, c.len())
    };
    assert_eq!(parse("0"), Some(0));
    assert_eq!(parse("42"), Some(42));
    assert_eq!(parse("+42"), Some(42));
    assert_eq!(parse("0042"), Some(42));
    assert_eq!(parse("18446744073709551615"), Some(u64::MAX));
    assert_eq!(parse("18446744073709551616"), None);
    assert_eq!(parse("99999999999999999999999"), None);
    assert_eq!(parse(""), None);
    assert_eq!(parse("+"), None);
    assert_eq!(parse("-1"), None);
    assert_eq!(parse("++1"), None);
    assert_eq!(parse("1 "), None);
    assert_eq!(parse(" 1"), None);
    assert_eq!(parse("1a"), None);
    assert_eq!(parse("١"), None);
    let c = chars("ab123cd");
    assert_eq!(parse_u64(&c, 2, 5), Some(123));
    assert_eq!(parse_u64(&c, 2, 6), None);
    assert_eq!(parse_u64(&c, 3, 3), None);
}

#[test]
fn signed_numbers() {
    let parse = |s: &str| {
        let c = chars(s);
        clawbox_core::text::parse_i64(&c, 0, c.len())
    };
    assert_eq!(parse("0"), Some(0));
    assert_eq!(parse("-0"), Some(0));
    assert_eq!(parse("+7"), Some(7));
    assert_eq!(parse("-7"), Some(-7));
    assert_eq!(parse("9223372036854775807"), Some(i64::MAX));
    assert_eq!(parse("9223372036854775808"), None);
    assert_eq!(parse("-9223372036854775808"), Some(i64::MIN));
    assert_eq!(parse("-9223372036854775809"), None);
    assert_eq!(parse("-"), None);
    assert_eq!(parse("-+1"), None);
    assert_eq!(parse("+-1"), None);
    assert_eq!(parse("--1"), None);
    assert_eq!(parse(""), None);
    assert_eq!(parse("1.5"), None);
}

#[test]
fn lines() {
    let c = chars("ab\r\ncd\n\nef");
    assert_eq!(clawbox_core::text::find_line_end(&c, 0), 3);
    assert_eq!(clawbox_core::text::read_line(&c, 0), (2, 4));
    assert_eq!(clawbox_core::text::read_line(&c, 4), (6, 7));
    assert_eq!(clawbox_core::text::read_line(&c, 7), (7, 8));
    assert_eq!(clawbox_core::text::read_line(&c, 8), (10, 10));
    assert_eq!(clawbox_core::text::read_line(&c, 10), (10, 10));
}
