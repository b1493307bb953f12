use clawbox_core::crypto::DerivedKey;
use clawbox_core::icloud::{
    device_id_of, get_device_id, ICloudSync, LocalFiles, RemoteFiles, SyncMeta, SyncResult,
};
use clawbox_core::sync::{ICloudBackend, SyncBackend, SyncManager, SyncState};
use clawbox_core::Error;

fn meta(version: u64) -> SyncMeta {
    SyncMeta { version, timestamp: 1000 + version, device_id: "dev".to_string() }
}

fn sealed(vault: &[u8], key: &[u8]) -> Vec<u8> {
    clawbox_core::crypto::encrypt(vault, &DerivedKey::from_bytes(key.to_vec())).unwrap().to_blob()
}

#[test]
fn test_device_id() {
    let id = get_device_id();
    assert!(!id.is_empty());
}

#[test]
fn meta_is_rendered_as_three_lines() {
    let m = SyncMeta { version: 7, timestamp: 1700000000, device_id: "laptop".to_string() };
    assert_eq!(m.render(), "7\n1700000000\nlaptop");
    let m = SyncMeta { version: 0, timestamp: 0, device_id: String::new() };
    assert_eq!(m.render(), "0\n0\n");
    let m = SyncMeta { version: u64::MAX, timestamp: 10, device_id: "x".to_string() };
    assert_eq!(m.render(), "18446744073709551615\n10\nx");
}

#[test]
fn meta_is_parsed_from_lines() {
    let m = SyncMeta::parse("5\n1234\nmy-host");
    assert_eq!(m.version, 5);
    assert_eq!(m.timestamp, 1234);
    assert_eq!(m.device_id, "my-host");

    let m = SyncMeta::parse("5\r\n1234\r\nmy-host\r\nmore\n");
    assert_eq!(m.version, 5);
    assert_eq!(m.timestamp, 1234);
    assert_eq!(m.device_id, "my-host");

    let m = SyncMeta::parse("+12\n007\nhost\n");
    assert_eq!(m.version, 12);
    assert_eq!(m.timestamp, 7);
    assert_eq!(m.device_id, "host");
}

#[test]
fn meta_parsing_falls_back() {
    let m = SyncMeta::parse("");
    assert_eq!((m.version, m.timestamp, m.device_id.as_str()), (0, 0, ""));
    let m = SyncMeta::parse("abc\n-3\n");
    assert_eq!((m.version, m.timestamp, m.device_id.as_str()), (0, 0, ""));
    let m = SyncMeta::parse("9");
    assert_eq!((m.version, m.timestamp, m.device_id.as_str()), (9, 0, ""));
    let m = SyncMeta::parse("18446744073709551616\n 4\n\nx");
    assert_eq!((m.version, m.timestamp, m.device_id.as_str()), (0, 0, ""));
    let m = SyncMeta::parse("\n\nhost\r");
    assert_eq!((m.version, m.timestamp, m.device_id.as_str()), (0, 0, "host\r"));
    let m = SyncMeta::parse("1\n2\nnämé");
    assert_eq!((m.version, m.timestamp, m.device_id.as_str()), (1, 2, "nämé"));
}

#[test]
fn meta_round_trips() {
    for m in [meta(0), meta(1), meta(123456789), meta(u64::MAX - 1000)] {
        let back = SyncMeta::parse(&m.render());
        assert_eq!(back.version, m.version);
        assert_eq!(back.timestamp, m.timestamp);
        assert_eq!(back.device_id, m.device_id);
    }
}

#[test]
fn new_meta_is_made_now() {
    let m = SyncMeta::new(42);
    assert_eq!(m.version, 42);
    assert!(m.timestamp > 1_600_000_000);
    assert!(!m.device_id.is_empty());
}

#[test]
fn container_path_below_home() {
    assert_eq!(
        ICloudSync::container_path("/Users/me"),
        "/Users/me/Library/Mobile Documents/iCloud~com~harrishan~ClawBox/Documents"
    );
}

#[test]
fn new_sync_knows_nothing() {
    let sync = ICloudSync::new("/vault", None);
    assert!(!sync.is_available());
    assert_eq!(sync.icloud_path(), None);
    assert_eq!(sync.local_vault_path(), "/vault");
    assert_eq!(sync.local_version(), 0);
    assert!(matches!(sync.remote_version(), Err(Error::Other(_))));
    assert!(matches!(sync.needs_pull(), Err(Error::Other(_))));
    assert!(matches!(sync.needs_push(), Err(Error::Other(_))));

    let sync = ICloudSync::new("/vault", Some("/cloud"));
    assert!(sync.is_available());
    assert_eq!(sync.icloud_path(), Some("/cloud"));
    assert_eq!(sync.remote_version().unwrap(), 0);
    assert_eq!(sync.needs_pull().unwrap(), false);
    assert_eq!(sync.needs_push().unwrap(), false);
}

#[test]
fn sync_without_drive_is_an_error() {
    let mut sync = ICloudSync::new("/vault", None);
    sync.set_key(vec![7u8; 32]);
    sync.load(
        LocalFiles { vault: Some(vec![1]), backup: Some(vec![2]), meta: Some(meta(3)) },
        RemoteFiles { vault: None, meta: None },
    );
    assert!(matches!(sync.sync(), Err(Error::Other(_))));
    assert!(matches!(sync.push(), Err(Error::Other(_))));
    assert!(matches!(sync.pull(), Err(Error::Other(_))));
    assert_eq!(sync.local_version(), 3);
    assert_eq!(sync.local_files().vault, Some(vec![1]));
    assert_eq!(sync.local_files().backup, Some(vec![2]));
    assert!(sync.remote_files().vault.is_none());
}

#[test]
fn each_fault_has_its_error() {
    let key = vec![7u8; 32];
    // no key: a fault of the configuration
    let mut sync = ICloudSync::new("/vault", Some("/cloud"));
    sync.load(
        LocalFiles { vault: Some(vec![1]), backup: None, meta: None },
        RemoteFiles { vault: Some(sealed(b"r", &key)), meta: Some(meta(1)) },
    );
    assert!(matches!(sync.push(), Err(Error::Other(_))));
    assert!(matches!(sync.pull(), Err(Error::Other(_))));

    // no record of the copy's version
    let mut sync = ICloudSync::new("/vault", Some("/cloud"));
    sync.set_key(key.clone());
    sync.load(
        LocalFiles { vault: None, backup: None, meta: None },
        RemoteFiles { vault: Some(sealed(b"r", &key)), meta: None },
    );
    assert!(matches!(sync.pull(), Err(Error::Io(_))));
    assert!(sync.local_files().vault.is_none());
    // no local vault
    assert!(matches!(sync.push(), Err(Error::Io(_))));
}

#[test]
fn after_a_push_the_drive_is_still_there() {
    let key = vec![7u8; 32];
    let mut sync = ICloudSync::new("/vault", Some("/cloud"));
    sync.set_key(key.clone());
    sync.load(
        LocalFiles { vault: Some(b"B".to_vec()), backup: None, meta: Some(meta(4)) },
        RemoteFiles { vault: None, meta: Some(meta(1)) },
    );
    assert_eq!(sync.sync().unwrap(), SyncResult::Pushed);
    assert!(sync.is_available());
    assert_eq!(sync.icloud_path(), Some("/cloud"));
    assert_eq!(sync.local_vault_path(), "/vault");
    assert_eq!(sync.remote_version().unwrap(), 5);
    assert_eq!(sync.local_version(), 5);
    assert_eq!(sync.remote_files().vault.as_ref().unwrap().len(), 1 + 28);
}

#[test]
fn scenario_remote_newer_is_pulled() {
    let key = vec![7u8; 32];
    let mut sync = ICloudSync::new("/vault", Some("/cloud"));
    sync.set_key(key.clone());
    sync.load(
        LocalFiles { vault: Some(b"local-store".to_vec()), backup: None, meta: Some(meta(2)) },
        RemoteFiles { vault: Some(sealed(b"remote-store", &key)), meta: Some(meta(5)) },
    );
    assert_eq!(sync.local_version(), 2);
    assert_eq!(sync.remote_version().unwrap(), 5);
    assert!(sync.needs_pull().unwrap());
    assert!(!sync.needs_push().unwrap());

    assert_eq!(sync.sync().unwrap(), SyncResult::Pulled);

    assert_eq!(sync.local_version(), 5);
    let local = sync.local_files();
    assert_eq!(local.vault.as_deref(), Some(&b"remote-store"[..]));
    assert_eq!(local.backup.as_deref(), Some(&b"local-store"[..]));
    assert_eq!(local.meta.as_ref().unwrap().timestamp, 1005);
    assert_eq!(sync.remote_version().unwrap(), 5);
    assert_eq!(sync.sync().unwrap(), SyncResult::UpToDate);
}

#[test]
fn local_newer_is_pushed() {
    let key = vec![7u8; 32];
    let mut sync = ICloudSync::new("/vault", Some("/cloud"));
    sync.set_key(key.clone());
    sync.load(
        LocalFiles { vault: Some(b"local-store".to_vec()), backup: None, meta: Some(meta(4)) },
        RemoteFiles { vault: None, meta: Some(meta(1)) },
    );
    assert!(sync.needs_push().unwrap());
    assert_eq!(sync.sync().unwrap(), SyncResult::Pushed);
    assert_eq!(sync.local_version(), 5);
    assert_eq!(sync.remote_version().unwrap(), 5);
    let copy = sync.remote_files().vault.clone().unwrap();
    assert_eq!(copy.len(), 12 + b"local-store".len() + 16);
    assert_eq!(ICloudSync::unseal(&copy, &key), Some(b"local-store".to_vec()));
    assert_eq!(sync.local_files().vault.as_deref(), Some(&b"local-store"[..]));
    assert!(sync.local_files().backup.is_none());
}

#[test]
fn what_one_device_pushes_another_pulls() {
    let key = vec![1u8, 2, 3];
    let mut a = ICloudSync::new("/a", Some("/cloud"));
    a.set_key(key.clone());
    a.load(
        LocalFiles { vault: Some(b"the vault".to_vec()), backup: None, meta: None },
        RemoteFiles { vault: None, meta: None },
    );
    a.push().unwrap();
    assert_eq!(a.local_version(), 1);

    let mut b = ICloudSync::new("/b", Some("/cloud"));
    b.set_key(key);
    b.load(
        LocalFiles { vault: None, backup: None, meta: None },
        RemoteFiles {
            vault: a.remote_files().vault.clone(),
            meta: a.remote_files().meta.clone(),
        },
    );
    assert_eq!(b.sync().unwrap(), SyncResult::Pulled);
    assert_eq!(b.local_files().vault.as_deref(), Some(&b"the vault"[..]));
    assert!(b.local_files().backup.is_none());
    assert_eq!(b.local_version(), 1);
}

#[test]
fn equal_versions_are_up_to_date() {
    let mut sync = ICloudSync::new("/vault", Some("/cloud"));
    sync.load(
        LocalFiles { vault: Some(vec![1]), backup: None, meta: Some(meta(3)) },
        RemoteFiles { vault: Some(vec![2]), meta: Some(meta(3)) },
    );
    assert_eq!(sync.sync().unwrap(), SyncResult::UpToDate);
    assert_eq!(sync.local_files().vault, Some(vec![1]));
    assert_eq!(sync.remote_files().vault, Some(vec![2]));
}

#[test]
fn failures_leave_everything_untouched() {
    let key = vec![7u8; 32];
    // no key
    let mut sync = ICloudSync::new("/vault", Some("/cloud"));
    sync.load(
        LocalFiles { vault: Some(vec![1]), backup: None, meta: Some(meta(2)) },
        RemoteFiles { vault: Some(sealed(b"r", &key)), meta: Some(meta(5)) },
    );
    assert!(matches!(sync.sync(), Err(Error::Other(_))));
    assert_eq!(sync.local_version(), 2);
    assert_eq!(sync.local_files().vault, Some(vec![1]));
    assert!(sync.local_files().backup.is_none());

    // a copy shorter than a nonce
    let mut sync = ICloudSync::new("/vault", Some("/cloud"));
    sync.set_key(key.clone());
    sync.load(
        LocalFiles { vault: Some(vec![1]), backup: None, meta: Some(meta(2)) },
        RemoteFiles { vault: Some(vec![0u8; 11]), meta: Some(meta(5)) },
    );
    assert!(matches!(sync.pull(), Err(Error::Other(_))));
    assert_eq!(sync.local_version(), 2);
    assert_eq!(sync.local_files().vault, Some(vec![1]));

    // a copy sealed under another key
    let mut sync = ICloudSync::new("/vault", Some("/cloud"));
    sync.set_key(vec![8u8; 32]);
    sync.load(
        LocalFiles { vault: Some(vec![1]), backup: None, meta: Some(meta(2)) },
        RemoteFiles { vault: Some(sealed(b"r", &key)), meta: Some(meta(5)) },
    );
    assert!(matches!(sync.sync(), Err(Error::Decryption(_))));
    assert_eq!(sync.local_version(), 2);
    assert_eq!(sync.local_files().vault, Some(vec![1]));
    assert!(sync.local_files().backup.is_none());

    // no copy at all
    let mut sync = ICloudSync::new("/vault", Some("/cloud"));
    sync.set_key(key.clone());
    sync.load(
        LocalFiles { vault: None, backup: None, meta: None },
        RemoteFiles { vault: None, meta: Some(meta(1)) },
    );
    assert!(matches!(sync.pull(), Err(Error::Other(_))));

    // nothing to push
    let mut sync = ICloudSync::new("/vault", Some("/cloud"));
    sync.set_key(key.clone());
    sync.load(
        LocalFiles { vault: None, backup: None, meta: Some(meta(3)) },
        RemoteFiles { vault: None, meta: None },
    );
    assert!(matches!(sync.sync(), Err(Error::Io(_))));
    assert!(sync.remote_files().vault.is_none());
    assert_eq!(sync.remote_version().unwrap(), 0);

    // a version that cannot be raised
    let mut sync = ICloudSync::new("/vault", Some("/cloud"));
    sync.set_key(key);
    sync.load(
        LocalFiles { vault: Some(vec![1]), backup: None, meta: Some(meta(u64::MAX)) },
        RemoteFiles { vault: None, meta: None },
    );
    assert!(matches!(sync.push(), Err(Error::Other(_))));
    assert!(sync.remote_files().vault.is_none());
    assert_eq!(sync.local_version(), u64::MAX);
}

#[test]
fn unseal_of_malformed_copy_is_none() {
    assert_eq!(ICloudSync::unseal(&[1, 2, 3], &vec![0u8; 32]), None);
    assert_eq!(ICloudSync::unseal(&[0u8; 40], &vec![0u8; 32]), None);
}

#[test]
fn sync_result_in_words() {
    assert_eq!(SyncResult::Pulled.message(), "Pulled from iCloud");
    assert_eq!(SyncResult::Pushed.message(), "Pushed to iCloud");
    assert_eq!(SyncResult::UpToDate.message(), "Already up to date");
    assert_eq!(SyncResult::Unavailable.message(), "iCloud not available");
}

struct Nowhere;

impl SyncBackend for Nowhere {
    fn is_connected(&self) -> bool {
        false
    }

    fn get_remote_version(&self) -> Result<u64, Error> {
        Ok(0)
    }

    fn upload(&self, _data: &[u8], _version: u64) -> Result<(), Error> {
        Ok(())
    }

    fn download(&self) -> Result<(Vec<u8>, u64), Error> {
        Ok((Vec::new(), 0))
    }
}

#[test]
fn manager_notes_the_time_when_enabled() {
    let mut manager = SyncManager::new();
    assert!(!manager.state().sync_enabled);
    assert!(manager.state().last_sync.is_none());
    assert!(matches!(manager.sync(&Nowhere), Err(Error::Other(_))));
    assert!(manager.state().last_sync.is_none());
    manager.enable();
    assert!(manager.state().sync_enabled);
    manager.sync(&Nowhere).unwrap();
    assert!(manager.state().last_sync.unwrap() > 1_600_000_000);
    assert_eq!(manager.state().local_version, 0);
    manager.disable();
    assert!(!manager.state().sync_enabled);
    assert!(matches!(manager.sync(&Nowhere), Err(Error::Other(_))));
}

#[test]
fn default_state_is_off() {
    let state = SyncState::default();
    assert!(state.last_sync.is_none());
    assert_eq!(state.local_version, 0);
    assert_eq!(state.remote_version, 0);
    assert!(!state.sync_enabled);
    assert_eq!(state.conflict_count, 0);
    let manager = SyncManager::default();
    assert!(!manager.state().sync_enabled);
}

#[test]
fn backend_paths() {
    let backend = ICloudBackend::new("com.example.vault");
    assert_eq!(backend.container_id(), "com.example.vault");
    assert_eq!(backend.vault_file(), "vault.encrypted");
    assert_eq!(
        backend.icloud_path("/Users/me"),
        "/Users/me/Library/Mobile Documents/iCloud~com~example~vault/Documents"
    );
}

#[test]
fn device_names() {
    assert_eq!(device_id_of(Some("laptop".to_string())), "laptop");
    assert_eq!(device_id_of(Some(String::new())), "");
    assert_eq!(device_id_of(None), "unknown");
}

#[test]
fn stamped_meta() {
    let m = SyncMeta::stamped(3, 1700000000, "dev".to_string());
    assert_eq!((m.version, m.timestamp, m.device_id.as_str()), (3, 1700000000, "dev"));
    let m = SyncMeta::stamped(0, -5, String::new());
    assert_eq!((m.version, m.timestamp, m.device_id.as_str()), (0, 0, ""));
    let m = SyncMeta::stamped(u64::MAX, i64::MAX, "x".to_string());
    assert_eq!(m.timestamp, i64::MAX as u64);
}
