use clawbox_core::audit::{
    format_timestamp, Action, ActorInfo, AuditEntry, AuditFilter, AuditLogger, Source,
};
use clawbox_core::Actor;

fn entry(id: &str, timestamp: i64, action: Action, key_path: &str, success: bool) -> AuditEntry {
    AuditEntry::stamped(id.to_string(), timestamp, action, key_path, success)
}

fn sample_log() -> AuditLogger {
    let mut log = AuditLogger::new();
    log.log(entry("1", 100, Action::Init, "vault", true).with_actor(ActorInfo::ai("bot")));
    log.log(entry("2", 200, Action::Write, "github/token", true));
    log.log(entry("3", 300, Action::Read, "github/token", true));
    log.log(entry("4", 400, Action::Read, "aws/secret", false).with_error("Not found"));
    log.log(entry("5", 500, Action::Delete, "api/token-old", true).with_actor(ActorInfo::ai("bot")));
    log
}

#[test]
fn action_names() {
    assert_eq!(Action::Read.as_str(), "read");
    assert_eq!(Action::Write.as_str(), "write");
    assert_eq!(Action::Delete.as_str(), "delete");
    assert_eq!(Action::Export.as_str(), "export");
    assert_eq!(Action::Unlock.as_str(), "unlock");
    assert_eq!(Action::Lock.as_str(), "lock");
    assert_eq!(Action::Init.as_str(), "init");
}

#[test]
fn action_from_name() {
    assert_eq!(Action::from_str("read"), Some(Action::Read));
    assert_eq!(Action::from_str("init"), Some(Action::Init));
    assert_eq!(Action::from_str("Read"), None);
    assert_eq!(Action::from_str(""), None);
    assert_eq!(Action::from_str("reads"), None);
    for action in [
        Action::Read,
        Action::Write,
        Action::Delete,
        Action::Export,
        Action::Unlock,
        Action::Lock,
        Action::Init,
    ] {
        assert_eq!(Action::from_str(action.as_str()), Some(action));
    }
}

#[test]
fn actor_info_of_actors() {
    let ai = ActorInfo::ai("helper");
    assert_eq!(ai.actor_type, "ai");
    assert_eq!(ai.identifier, "helper");
    let human = ActorInfo::human();
    assert_eq!(human.actor_type, "human");
    let app = ActorInfo::from_actor(&Actor::App { name: "sync".to_string() });
    assert_eq!(app.actor_type, "app");
    assert_eq!(app.identifier, "sync");
    let device = ActorInfo::from_actor(&Actor::Human { device: "laptop".to_string() });
    assert_eq!(device.actor_type, "human");
    assert_eq!(device.identifier, "laptop");
    let agent = ActorInfo::from_actor(&Actor::AI { agent: "a1".to_string() });
    assert_eq!(agent.actor_type, "ai");
    assert_eq!(agent.identifier, "a1");
    let nobody = ActorInfo::default();
    assert_eq!(nobody.actor_type, "");
    assert_eq!(nobody.identifier, "");
}

#[test]
fn new_entry_is_unlinked() {
    let e = AuditEntry::new(Action::Write, "a/b", true);
    assert_eq!(e.action, Action::Write);
    assert_eq!(e.key_path, "a/b");
    assert!(e.success);
    assert!(e.error_message.is_none());
    assert!(e.hash.is_none());
    assert!(e.prev_hash.is_none());
    assert_eq!(e.id.len(), 36);
    assert!(e.timestamp > 1_600_000_000);
    assert!(matches!(e.source, Source::CLI { ref pwd } if pwd.is_empty()));
    let other = AuditEntry::new(Action::Write, "a/b", true);
    assert_ne!(e.id, other.id);
}

#[test]
fn builders_set_their_field() {
    let e = AuditEntry::new(Action::Read, "k", false)
        .with_error("boom")
        .with_actor(ActorInfo::ai("x"))
        .with_source(Source::API);
    assert_eq!(e.error_message.as_deref(), Some("boom"));
    assert_eq!(e.actor.actor_type, "ai");
    assert!(matches!(e.source, Source::API));
    assert_eq!(e.key_path, "k");
}

#[test]
fn timestamp_text_is_rfc3339() {
    assert_eq!(format_timestamp(0), "1970-01-01T00:00:00+00:00");
    assert_eq!(format_timestamp(1_000_000_000), "2001-09-09T01:46:40+00:00");
    // an instant out of range reads as the epoch
    assert_eq!(format_timestamp(i64::MAX), "1970-01-01T00:00:00+00:00");
}

#[test]
fn hash_is_sha256_of_the_fields_in_hex() {
    let first = entry("id-1", 0, Action::Read, "a/b", true).with_actor(ActorInfo::ai("x"));
    let mut first = first;
    first.actor.actor_type = "human".to_string();
    let h1 = first.compute_hash(None);
    assert_eq!(h1, "171135c8d73b22a3b68102b742448b26a16f94d5d4702dcf2aa5af6cfbe1cbea");

    let second = entry("id-2", 1_000_000_000, Action::Write, "github/token", false)
        .with_actor(ActorInfo::ai("x"));
    let h2 = second.compute_hash(Some(&h1));
    assert_eq!(h2, "450680f9931a51fb8cdbbb39c3613070b69b9b5f77550eae709efdb314135261");
}

#[test]
fn preimage_is_the_fields_in_order() {
    let e = entry("I", 0, Action::Lock, "p", false);
    let bytes = e.preimage(Some("ff"));
    assert_eq!(bytes, b"I1970-01-01T00:00:00+00:00lockp0ff".to_vec());
    let bytes = e.preimage(None);
    assert_eq!(bytes, b"I1970-01-01T00:00:00+00:00lockp0".to_vec());
}

#[test]
fn hash_ignores_message_and_identifier_of_actor() {
    let a = entry("1", 5, Action::Read, "k", true).with_actor(ActorInfo::ai("one"));
    let b = entry("1", 5, Action::Read, "k", true)
        .with_actor(ActorInfo::ai("two"))
        .with_error("text");
    assert_eq!(a.compute_hash(None), b.compute_hash(None));
}

#[test]
fn digest_in_hex() {
    assert_eq!(AuditEntry::hash_of_digest(&[0x00, 0x0f, 0xa5, 0xff]), "000fa5ff");
    assert_eq!(AuditEntry::hash_of_digest(&[]), "");
}

#[test]
fn logging_links_entries() {
    let log = sample_log();
    let entries = log.entries();
    assert_eq!(entries.len(), 5);
    assert_eq!(log.len(), 5);
    assert!(entries[0].prev_hash.is_none());
    for i in 1..entries.len() {
        assert_eq!(entries[i].prev_hash, entries[i - 1].hash);
        assert!(entries[i].hash.is_some());
        assert_eq!(entries[i].hash.as_ref().unwrap().len(), 64);
    }
    assert_eq!(
        entries[1].hash.clone().unwrap(),
        entries[1].compute_hash(entries[0].hash.as_deref())
    );
    assert_eq!(log.get_last_hash(), entries[4].hash);
    assert_eq!(AuditLogger::new().get_last_hash(), None);
}

#[test]
fn chain_of_logged_entries_is_intact() {
    assert!(AuditLogger::new().verify_integrity());
    let mut log = AuditLogger::new();
    for i in 0..25 {
        log.log(entry(&format!("{}", i), i, Action::Write, "k", i % 2 == 0));
        assert!(log.verify_integrity());
    }
}

#[test]
fn flipped_success_breaks_the_chain() {
    let log = sample_log();
    for victim in 0..5 {
        let mut entries: Vec<AuditEntry> = log.entries().iter().map(|e| e.duplicate()).collect();
        entries[victim].success = !entries[victim].success;
        assert!(!AuditLogger::from_entries(entries).verify_integrity());
    }
}

#[test]
fn removed_or_reordered_entries_break_the_chain() {
    let log = sample_log();
    let mut entries: Vec<AuditEntry> = log.entries().iter().map(|e| e.duplicate()).collect();
    entries.remove(2);
    assert!(!AuditLogger::from_entries(entries).verify_integrity());

    let mut entries: Vec<AuditEntry> = log.entries().iter().map(|e| e.duplicate()).collect();
    entries.swap(1, 3);
    assert!(!AuditLogger::from_entries(entries).verify_integrity());

    let mut entries: Vec<AuditEntry> = log.entries().iter().map(|e| e.duplicate()).collect();
    entries[3].key_path = "other".to_string();
    assert!(!AuditLogger::from_entries(entries).verify_integrity());

    let mut entries: Vec<AuditEntry> = log.entries().iter().map(|e| e.duplicate()).collect();
    entries[0].hash = None;
    assert!(!AuditLogger::from_entries(entries).verify_integrity());

    let entries: Vec<AuditEntry> = log.entries().iter().map(|e| e.duplicate()).collect();
    assert!(AuditLogger::from_entries(entries).verify_integrity());
}

fn ids(found: &[AuditEntry]) -> Vec<String> {
    found.iter().map(|e| e.id.clone()).collect()
}

#[test]
fn query_without_filter_is_most_recent_first() {
    let log = sample_log();
    let found = log.query(&AuditFilter::default());
    assert_eq!(ids(&found), vec!["5", "4", "3", "2", "1"]);
}

#[test]
fn query_by_key_path_part() {
    let log = sample_log();
    let mut filter = AuditFilter::default();
    filter.key_path = Some("token".to_string());
    let found = log.query(&filter);
    assert_eq!(ids(&found), vec!["5", "3", "2"]);
    for e in &found {
        assert!(e.key_path.contains("token"));
    }
    filter.key_path = Some("".to_string());
    assert_eq!(log.query(&filter).len(), 5);
    filter.key_path = Some("TOKEN".to_string());
    assert_eq!(log.query(&filter).len(), 0);
}

#[test]
fn query_by_time_range_is_inclusive() {
    let log = sample_log();
    let mut filter = AuditFilter::default();
    filter.since = Some(200);
    filter.until = Some(400);
    assert_eq!(ids(&log.query(&filter)), vec!["4", "3", "2"]);
    filter.until = None;
    assert_eq!(ids(&log.query(&filter)), vec!["5", "4", "3", "2"]);
    filter.since = Some(501);
    assert!(log.query(&filter).is_empty());
}

#[test]
fn query_by_actor_action_and_limit() {
    let log = sample_log();
    let mut filter = AuditFilter::default();
    filter.actor_type = Some("ai".to_string());
    assert_eq!(ids(&log.query(&filter)), vec!["5", "1"]);

    let mut filter = AuditFilter::default();
    filter.action = Some(Action::Read);
    assert_eq!(ids(&log.query(&filter)), vec!["4", "3"]);
    filter.limit = Some(1);
    assert_eq!(ids(&log.query(&filter)), vec!["4"]);
    filter.limit = Some(0);
    assert!(log.query(&filter).is_empty());
    filter.limit = Some(10);
    assert_eq!(ids(&log.query(&filter)), vec!["4", "3"]);
}

#[test]
fn query_returns_whole_entries() {
    let log = sample_log();
    let mut filter = AuditFilter::default();
    filter.limit = Some(2);
    let found = log.query(&filter);
    assert_eq!(found[1].error_message.as_deref(), Some("Not found"));
    assert_eq!(found[1].hash, log.entries()[3].hash);
    assert_eq!(found[0].actor.identifier, "bot");
}

#[test]
fn stamped_entry_has_what_it_was_given() {
    let e = AuditEntry::stamped("the-id".to_string(), 1234, Action::Export, "a/b", false);
    assert_eq!(e.id, "the-id");
    assert_eq!(e.timestamp, 1234);
    assert_eq!(e.action, Action::Export);
    assert_eq!(e.key_path, "a/b");
    assert!(!e.success);
    assert!(e.error_message.is_none());
    assert_eq!(e.actor.actor_type, "");
    assert_eq!(e.actor.identifier, "");
    assert!(matches!(e.source, Source::CLI { ref pwd } if pwd.is_empty()));
    assert!(e.hash.is_none());
    assert!(e.prev_hash.is_none());
}

#[test]
fn named_human() {
    let info = ActorInfo::human_named("alice".to_string());
    assert_eq!(info.actor_type, "human");
    assert_eq!(info.identifier, "alice");
}

#[test]
fn hash_is_64_hex_characters() {
    let e = AuditEntry::stamped("x".to_string(), -1, Action::Unlock, "", false);
    for prev in [None, Some("abc")] {
        let h = e.compute_hash(prev);
        assert_eq!(h.len(), 64);
        assert!(h.chars().all(|c| c.is_ascii_digit() || ('a'..='f').contains(&c)));
    }
    assert_eq!(AuditEntry::hash_of_digest(&[1, 2, 3]).len(), 6);
}
