use clawbox_core::transfer::{
    env_key, export_env, export_yaml, find_char, parse_env, parse_env_line, parse_since,
    replace_char, split_tags, strip_quotes, TransferEntry,
};

fn entry(path: &str, value: &str) -> TransferEntry {
    TransferEntry { path: path.to_string(), value: value.to_string() }
}

fn pairs(entries: &[TransferEntry]) -> Vec<(String, String)> {
    entries.iter().map(|e| (e.path.clone(), e.value.clone())).collect()
}

fn pair(path: &str, value: &str) -> (String, String) {
    (path.to_string(), value.to_string())
}

#[test]
fn replace_every_occurrence() {
    assert_eq!(replace_char("a/b/c", '/', "_"), "a_b_c");
    assert_eq!(replace_char("say \"hi\"", '"', "\\\""), "say \\\"hi\\\"");
    assert_eq!(replace_char("", '/', "_"), "");
    assert_eq!(replace_char("///", '/', ""), "");
    assert_eq!(replace_char("abc", 'x', "y"), "abc");
}

#[test]
fn env_names() {
    assert_eq!(env_key("github/token"), "GITHUB_TOKEN");
    assert_eq!(env_key("a/b/c-d"), "A_B_C-D");
    assert_eq!(env_key(""), "");
}

#[test]
fn env_export() {
    let entries = vec![entry("github/token", "ghp_x"), entry("db/pass", "a\"b")];
    assert_eq!(export_env(&entries), "GITHUB_TOKEN=\"ghp_x\"\nDB_PASS=\"a\\\"b\"\n");
    assert_eq!(export_env(&Vec::new()), "");
}

#[test]
fn yaml_export() {
    let entries = vec![entry("github/token", "ghp_x"), entry("k", "v")];
    assert_eq!(
        export_yaml(&entries),
        "# ClawBox Export\ngithub/token:\n  value: \"ghp_x\"\nk:\n  value: \"v\"\n"
    );
    assert_eq!(export_yaml(&Vec::new()), "# ClawBox Export\n");
}

#[test]
fn quotes_are_stripped_at_both_ends() {
    assert_eq!(strip_quotes("\"abc\""), "abc");
    assert_eq!(strip_quotes("\"\"a\"b\"\"\""), "a\"b");
    assert_eq!(strip_quotes("abc"), "abc");
    assert_eq!(strip_quotes("\"\"\""), "");
    assert_eq!(strip_quotes(""), "");
    assert_eq!(strip_quotes("\"abc"), "abc");
}

#[test]
fn finding_a_character() {
    let chars: Vec<char> = "a=b=c".chars().collect();
    assert_eq!(find_char(&chars, '=', 0), 1);
    assert_eq!(find_char(&chars, '=', 1), 1);
    assert_eq!(find_char(&chars, '=', 2), 3);
    assert_eq!(find_char(&chars, '=', 4), 5);
    assert_eq!(find_char(&chars, '=', 5), 5);
    assert_eq!(find_char(&chars, 'x', 0), 5);
}

#[test]
fn env_lines() {
    let e = parse_env_line("GITHUB_TOKEN=\"ghp_x\"").unwrap();
    assert_eq!((e.path.as_str(), e.value.as_str()), ("github/token", "ghp_x"));
    let e = parse_env_line("  A_B = plain value  ").unwrap();
    assert_eq!((e.path.as_str(), e.value.as_str()), ("a/b", "plain value"));
    let e = parse_env_line("K=a=b").unwrap();
    assert_eq!((e.path.as_str(), e.value.as_str()), ("k", "a=b"));
    let e = parse_env_line("=v").unwrap();
    assert_eq!((e.path.as_str(), e.value.as_str()), ("", "v"));
    let e = parse_env_line("K=").unwrap();
    assert_eq!((e.path.as_str(), e.value.as_str()), ("k", ""));
    assert!(parse_env_line("").is_none());
    assert!(parse_env_line("   ").is_none());
    assert!(parse_env_line("# comment=1").is_none());
    assert!(parse_env_line("  # comment").is_none());
    assert!(parse_env_line("no equals sign").is_none());
}

#[test]
fn env_import() {
    let content = "# exported\nGITHUB_TOKEN=\"ghp_x\"\n\nDB_PASS=secret\r\nbroken line\nLAST=1";
    assert_eq!(
        pairs(&parse_env(content)),
        vec![pair("github/token", "ghp_x"), pair("db/pass", "secret"), pair("last", "1")]
    );
    assert!(parse_env("").is_empty());
    assert!(parse_env("\n\n").is_empty());
}

#[test]
fn env_round_trip_of_plain_entries() {
    let entries = vec![entry("github/token", "ghp_x"), entry("aws/key", "AKIA 123")];
    let back = parse_env(&export_env(&entries));
    assert_eq!(pairs(&back), pairs(&entries));
}

#[test]
fn spans() {
    assert_eq!(parse_since("1h"), 3600);
    assert_eq!(parse_since("24h"), 86400);
    assert_eq!(parse_since("7d"), 604800);
    assert_eq!(parse_since("2d"), 172800);
    assert_eq!(parse_since("h"), 86400);
    assert_eq!(parse_since("d"), 604800);
    assert_eq!(parse_since("xh"), 86400);
    assert_eq!(parse_since("xd"), 604800);
    assert_eq!(parse_since("3hh"), 10800);
    assert_eq!(parse_since("-2h"), -7200);
    assert_eq!(parse_since("+2h"), 7200);
    assert_eq!(parse_since(""), 86400);
    assert_eq!(parse_since("15m"), 86400);
    assert_eq!(parse_since("12"), 86400);
    assert_eq!(parse_since("9223372036854775807h"), 86400);
    assert_eq!(parse_since("9223372036854775807d"), 604800);
    assert_eq!(parse_since("2562047788015215h"), 2562047788015215 * 3600);
}

#[test]
fn tags() {
    assert_eq!(split_tags("a, b ,c"), vec!["a", "b", "c"]);
    assert_eq!(split_tags("one"), vec!["one"]);
    assert_eq!(split_tags(""), vec![""]);
    assert_eq!(split_tags(","), vec!["", ""]);
    assert_eq!(split_tags("a,,b,"), vec!["a", "", "b", ""]);
}
