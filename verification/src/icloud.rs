//! Synchronisation of a whole vault with a copy on a shared drive, by
//! version: the side with the higher version wins.

use crate::audit::unix_now;
use crate::crypto::{
    decrypt, encrypt, key_from_bytes, opened, sealed_blob, wipe_bytes, DerivedKey,
    EncryptedData, MAX_PLAINTEXT_LEN, NONCE_LEN,
};
use crate::error::Error;
use crate::text::{
    decimal_text, from_chars, is_digit, lemma_decimal_round_trip, lemma_line_end, line_at,
    next_line, parse_u64, parsed_u64, read_line, render_u64, to_chars,
};
use vstd::prelude::*;
use vstd::string::*;

verus! {

/// The name of the container on the shared drive.
pub const ICLOUD_CONTAINER: &'static str = "iCloud~com~harrishan~ClawBox";

/// The file of the sealed vault on the shared drive.
pub const VAULT_FILE: &'static str = "vault.encrypted";

/// The file of the version record on the shared drive.
pub const META_FILE: &'static str = "vault.meta";

/// Calls `hostname::get` and reads the name as text. The name is the
/// machine's, so nothing is claimed of it; `None` stands for an error.
#[verifier::external_body]
fn system_hostname() -> Option<String> {
    hostname::get().ok().map(|name| name.to_string_lossy().into_owned())
}

/// The name that a device goes by: its host name, or `unknown` where the
/// system gives none.
pub open spec fn device_name(host: Option<Seq<char>>) -> Seq<char> {
    match host {
        Some(name) => name,
        None => "unknown"@,
    }
}

/// The name that a device with the given host name goes by.
pub fn device_id_of(host: Option<String>) -> (id: String)
    ensures
        id@ == device_name(crate::text::opt_text(host)),
{
    match host {
        Some(name) => name,
        None => String::from_str("unknown"),
    }
}

/// The name of this device: the host name, or `unknown` where there is none.
pub fn get_device_id() -> String {
    device_id_of(system_hostname())
}

/// The version record that goes with a copy of the vault.
#[derive(Debug, Clone)]
pub struct SyncMeta {
    pub version: u64,
    /// When the copy was made, in seconds since the Unix epoch.
    pub timestamp: u64,
    pub device_id: String,
}

/// What a `SyncMeta` says.
pub struct SyncMetaView {
    pub version: u64,
    pub timestamp: u64,
    pub device_id: Seq<char>,
}

impl View for SyncMeta {
    type V = SyncMetaView;

    open spec fn view(&self) -> SyncMetaView {
        SyncMetaView {
            version: self.version,
            timestamp: self.timestamp,
            device_id: self.device_id@,
        }
    }
}

/// The number on the line that begins at `from`, or 0 where there is no
/// such line or no number on it.
pub open spec fn number_at(text: Seq<char>, from: int) -> u64 {
    if 0 <= from < text.len() {
        match parsed_u64(line_at(text, from)) {
            Some(n) => n,
            None => 0,
        }
    } else {
        0
    }
}

/// What a version record's file says: the version on its first line, the
/// timestamp on its second, the device on its third. A line that is missing
/// or holds no number counts as 0, a missing device as the empty name.
pub open spec fn parsed_meta(text: Seq<char>) -> SyncMetaView {
    let second = next_line(text, 0);
    let third = next_line(text, second);
    SyncMetaView {
        version: number_at(text, 0),
        timestamp: number_at(text, second),
        device_id: if third < text.len() {
            line_at(text, third)
        } else {
            Seq::empty()
        },
    }
}

/// The text of a version record's file: version, timestamp and device, with
/// a line feed after each of the first two.
pub open spec fn rendered_meta(meta: SyncMetaView) -> Seq<char> {
    decimal_text(meta.version as nat).push('\n') + decimal_text(meta.timestamp as nat).push('\n')
        + meta.device_id
}

impl SyncMeta {
    /// A record of the given version, made at the instant `now`, counted
    /// in seconds from the Unix epoch, on the device of the given name. An
    /// instant before the epoch counts as the epoch.
    pub fn stamped(version: u64, now: i64, device_id: String) -> (meta: SyncMeta)
        ensures
            meta@ == (SyncMetaView {
                version,
                timestamp: if now < 0 {
                    0u64
                } else {
                    now as u64
                },
                device_id: device_id@,
            }),
    {
        let timestamp: u64 = if now < 0 {
            0
        } else {
            now as u64
        };
        SyncMeta { version, timestamp, device_id }
    }

    /// A record of the given version, made now on this device.
    pub fn new(version: u64) -> (meta: SyncMeta)
        ensures
            meta@.version == version,
    {
        SyncMeta::stamped(version, unix_now(), get_device_id())
    }

    /// A copy that says the same.
    pub fn duplicate(&self) -> (copy: SyncMeta)
        ensures
            copy@ == self@,
    {
        SyncMeta {
            version: self.version,
            timestamp: self.timestamp,
            device_id: self.device_id.clone(),
        }
    }

    /// Reads a record from the text of its file.
    pub fn parse(content: &str) -> (meta: SyncMeta)
        ensures
            meta@ == parsed_meta(content@),
    {
        let chars = to_chars(content);
        let text = chars.as_slice();
        let n = text.len();
        let (first_stop, second) = read_line(text, 0);
        let version = if 0 < n {
            match parse_u64(text, 0, first_stop) {
                Some(v) => v,
                None => 0,
            }
        } else {
            0
        };
        let (second_stop, third) = read_line(text, second);
        let timestamp = if second < n {
            match parse_u64(text, second, second_stop) {
                Some(t) => t,
                None => 0,
            }
        } else {
            0
        };
        let (third_stop, _) = read_line(text, third);
        let device_id = if third < n {
            from_chars(text, third, third_stop)
        } else {
            String::new()
        };
        SyncMeta { version, timestamp, device_id }
    }

    /// The text of the record's file.
    pub fn render(&self) -> (text: String)
        ensures
            text@ == rendered_meta(self@),
    {
        let mut text = render_u64(self.version);
        text.push('\n');
        text.append(render_u64(self.timestamp).as_str());
        text.push('\n');
        text.append(self.device_id.as_str());
        text
    }
}

/// A record is read back from the text it was written as, as long as the
/// name of the device holds no line feed.
pub proof fn lemma_meta_round_trip(meta: SyncMetaView)
    requires
        forall|k: int| 0 <= k < meta.device_id.len() ==> meta.device_id[k] != '\n',
    ensures
        parsed_meta(rendered_meta(meta)) == meta,
{
    let first = decimal_text(meta.version as nat);
    let second = decimal_text(meta.timestamp as nat);
    let text = rendered_meta(meta);
    let a = first.len() as int;
    let b = a + 1 + second.len();
    lemma_decimal_round_trip(meta.version as nat);
    lemma_decimal_round_trip(meta.timestamp as nat);
    assert(text.len() == b + 1 + meta.device_id.len());
    assert forall|k: int| 0 <= k < a implies text[k] == first[k] by {}
    assert forall|k: int| a + 1 <= k < b implies text[k] == second[k - a - 1] by {}
    assert forall|k: int| b + 1 <= k < text.len() implies text[k] == meta.device_id[k - b - 1] by {}
    assert(text[a] == '\n');
    assert(text[b] == '\n');
    assert forall|k: int| 0 <= k < a implies text[k] != '\n' by {
        assert(is_digit(first[k]));
    }
    assert forall|k: int| a + 1 <= k < b implies text[k] != '\n' by {
        assert(is_digit(second[k - a - 1]));
    }
    lemma_line_end(text, 0, a);
    lemma_line_end(text, a + 1, b);
    assert(is_digit(first[a - 1]));
    assert(is_digit(second[second.len() - 1]));
    assert(text[a - 1] != '\r');
    assert(text[b - 1] != '\r');
    assert(text.subrange(0, a) =~= first);
    assert(text.subrange(a + 1, b) =~= second);
    assert(line_at(text, 0) == first);
    assert(next_line(text, 0) == a + 1);
    assert(line_at(text, a + 1) == second);
    assert(next_line(text, a + 1) == b + 1);
    if b + 1 < text.len() {
        lemma_line_end(text, b + 1, text.len() as int);
        assert(text.subrange(b + 1, text.len() as int) =~= meta.device_id);
    } else {
        assert(meta.device_id =~= Seq::<char>::empty());
    }
}

/// How a synchronisation ended.
#[derive(Debug, Clone, Copy, PartialEq, Eq, Structural)]
pub enum SyncResult {
    /// The copy on the drive was newer and has replaced the local vault.
    Pulled,
    /// The local vault was newer and has replaced the copy on the drive.
    Pushed,
    /// Both sides have the same version.
    UpToDate,
    /// There is no shared drive. A synchronisation never ends so: without
    /// a drive it is an error.
    Unavailable,
}

impl SyncResult {
    /// The outcome in words.
    pub open spec fn text(self) -> Seq<char> {
        match self {
            SyncResult::Pulled => "Pulled from iCloud"@,
            SyncResult::Pushed => "Pushed to iCloud"@,
            SyncResult::UpToDate => "Already up to date"@,
            SyncResult::Unavailable => "iCloud not available"@,
        }
    }

    /// The outcome in words.
    pub fn message(&self) -> (s: &'static str)
        ensures
            s@ == self.text(),
    {
        match self {
            SyncResult::Pulled => "Pulled from iCloud",
            SyncResult::Pushed => "Pushed to iCloud",
            SyncResult::UpToDate => "Already up to date",
            SyncResult::Unavailable => "iCloud not available",
        }
    }
}

/// The files of a vault on this device, as far as synchronisation reads and
/// writes them. A file that does not exist is `None`.
#[derive(Debug)]
pub struct LocalFiles {
    /// The vault's store.
    pub vault: Option<Vec<u8>>,
    /// The store as it was before the last pull.
    pub backup: Option<Vec<u8>>,
    /// The version record.
    pub meta: Option<SyncMeta>,
}

/// The files of the copy on the shared drive.
#[derive(Debug)]
pub struct RemoteFiles {
    /// The sealed vault: a nonce, then the ciphertext.
    pub vault: Option<Vec<u8>>,
    /// The version record.
    pub meta: Option<SyncMeta>,
}

/// What a file of bytes holds, if it exists.
pub open spec fn file_bytes(file: Option<Vec<u8>>) -> Option<Seq<u8>> {
    match file {
        Some(bytes) => Some(bytes@),
        None => None,
    }
}

/// What a version record says, if it exists.
pub open spec fn file_meta(file: Option<SyncMeta>) -> Option<SyncMetaView> {
    match file {
        Some(meta) => Some(meta@),
        None => None,
    }
}

/// The version that a record gives, 0 where there is no record.
pub open spec fn version_of(meta: Option<SyncMetaView>) -> u64 {
    match meta {
        Some(m) => m.version,
        None => 0,
    }
}

/// What synchronisation sees and keeps.
pub struct SyncView {
    pub icloud_path: Option<Seq<char>>,
    pub local_vault_path: Seq<char>,
    pub encryption_key: Option<Seq<u8>>,
    pub local_vault: Option<Seq<u8>>,
    pub local_backup: Option<Seq<u8>>,
    pub local_meta: Option<SyncMetaView>,
    pub remote_vault: Option<Seq<u8>>,
    pub remote_meta: Option<SyncMetaView>,
}

/// The vault that a sealed copy holds under the raw key `key`, or `None`
/// where the copy is shorter than a nonce or the cipher rejects it.
pub open spec fn unsealed(copy: Seq<u8>, key: Seq<u8>) -> Option<Seq<u8>> {
    if copy.len() < NONCE_LEN {
        None
    } else {
        opened(
            copy.subrange(0, NONCE_LEN as int),
            copy.subrange(NONCE_LEN as int, copy.len() as int),
            key_from_bytes(key),
        )
    }
}

/// Whether a pull can be made: there is a drive, a key, a record of the
/// copy's version, and a sealed copy that opens under the key.
pub open spec fn can_pull(v: SyncView) -> bool {
    &&& v.icloud_path is Some
    &&& v.encryption_key matches Some(key)
    &&& v.remote_meta is Some
    &&& v.remote_vault matches Some(copy)
    &&& unsealed(copy, key) is Some
}

/// The state after a pull: the local vault is what the copy holds, the
/// vault as it was is the backup, and the local version is the copy's.
pub open spec fn pulled(v: SyncView) -> SyncView {
    SyncView {
        local_vault: unsealed(v.remote_vault->0, v.encryption_key->0),
        local_backup: if v.local_vault is Some {
            v.local_vault
        } else {
            v.local_backup
        },
        local_meta: v.remote_meta,
        ..v
    }
}

/// Whether a push can be made: there is a drive, a key, a local vault of at
/// most 2^36 bytes, and a version that can still be raised.
pub open spec fn can_push(v: SyncView) -> bool {
    &&& v.icloud_path is Some
    &&& v.encryption_key is Some
    &&& v.local_vault matches Some(vault)
    &&& vault.len() <= MAX_PLAINTEXT_LEN
    &&& version_of(v.local_meta) < u64::MAX
}

/// The state after a push: the copy on the drive is the local vault sealed
/// under the key, both sides have a record of the local version raised by
/// one, and everything else is as it was.
pub open spec fn pushed(before: SyncView, after: SyncView) -> bool {
    &&& can_push(before)
    &&& after.remote_vault matches Some(copy) && sealed_blob(
        copy,
        key_from_bytes(before.encryption_key->0),
        before.local_vault->0,
    ) && unsealed(copy, before.encryption_key->0) == before.local_vault
    &&& after.remote_meta matches Some(meta) && meta.version == version_of(before.local_meta) + 1
    &&& after.local_meta == after.remote_meta
    &&& after.local_vault == before.local_vault
    &&& after.local_backup == before.local_backup
    &&& after.icloud_path == before.icloud_path
    &&& after.local_vault_path == before.local_vault_path
    &&& after.encryption_key == before.encryption_key
}

/// The error of a push that cannot be made: a fault of the configuration
/// (`Other`) without a drive or without a key, `Io` without a local vault,
/// `Encryption` for a vault too long to seal, and `Other` for a version that
/// cannot be raised.
pub open spec fn push_fault(v: SyncView, e: Error) -> bool {
    if v.icloud_path is None || v.encryption_key is None {
        e is Other
    } else if v.local_vault is None {
        e is Io
    } else if v.local_vault->0.len() > MAX_PLAINTEXT_LEN {
        e is Encryption
    } else {
        e is Other
    }
}

/// The error of a pull that cannot be made: a fault of the configuration
/// (`Other`) without a drive or without a key, `Other` without a copy or
/// for a copy shorter than a nonce, `Decryption` for a copy that the cipher
/// rejects, and `Io` without a record of the copy's version.
pub open spec fn pull_fault(v: SyncView, e: Error) -> bool {
    if v.icloud_path is None || v.encryption_key is None || v.remote_vault is None
        || v.remote_vault->0.len() < NONCE_LEN {
        e is Other
    } else if unsealed(v.remote_vault->0, v.encryption_key->0) is None {
        e is Decryption
    } else {
        e is Io
    }
}

/// The error of a synchronisation that cannot be made: `Other` without a
/// drive, and else that of the pull or the push that was due.
pub open spec fn sync_fault(v: SyncView, e: Error) -> bool {
    if v.icloud_path is None {
        e is Other
    } else if version_of(v.remote_meta) > version_of(v.local_meta) {
        !can_pull(v) && pull_fault(v, e)
    } else {
        version_of(v.local_meta) > version_of(v.remote_meta) && !can_push(v) && push_fault(v, e)
    }
}

/// Synchronisation of one vault with its copy on a shared drive. The bytes
/// of its key are wiped when it is dropped.
pub struct ICloudSync {
    icloud_path: Option<String>,
    local_vault_path: String,
    encryption_key: Option<Vec<u8>>,
    local: LocalFiles,
    remote: RemoteFiles,
}

impl View for ICloudSync {
    type V = SyncView;

    closed spec fn view(&self) -> SyncView {
        SyncView {
            icloud_path: crate::text::opt_text(self.icloud_path),
            local_vault_path: self.local_vault_path@,
            encryption_key: file_bytes(self.encryption_key),
            local_vault: file_bytes(self.local.vault),
            local_backup: file_bytes(self.local.backup),
            local_meta: file_meta(self.local.meta),
            remote_vault: file_bytes(self.remote.vault),
            remote_meta: file_meta(self.remote.meta),
        }
    }
}

impl Drop for ICloudSync {
    fn drop(&mut self)
        opens_invariants none
        no_unwind
    {
        match &mut self.encryption_key {
            Some(key) => {
                wipe_bytes(key);
            },
            None => {},
        }
    }
}

/// The folder of the container's documents below a home directory.
pub open spec fn container_path_text(home: Seq<char>) -> Seq<char> {
    home + "/Library/Mobile Documents/"@ + ICLOUD_CONTAINER@ + "/Documents"@
}

/// A copy of a file of bytes.
fn clone_file(file: &Option<Vec<u8>>) -> (copy: Option<Vec<u8>>)
    ensures
        file_bytes(copy) == file_bytes(*file),
{
    match file {
        Some(bytes) => Some(bytes.clone()),
        None => None,
    }
}

/// A copy of a version record.
fn clone_meta(file: &Option<SyncMeta>) -> (copy: Option<SyncMeta>)
    ensures
        file_meta(copy) == file_meta(*file),
{
    match file {
        Some(meta) => Some(meta.duplicate()),
        None => None,
    }
}

impl ICloudSync {
    /// The folder of the container's documents below a home directory.
    pub fn container_path(home: &str) -> (path: String)
        ensures
            path@ == container_path_text(home@),
    {
        let mut path = String::from_str(home);
        path.append("/Library/Mobile Documents/");
        path.append(ICLOUD_CONTAINER);
        path.append("/Documents");
        path
    }

    /// Synchronisation for the vault at `local_vault_path`, with the shared
    /// drive's folder where there is one. No key is set, and no file is known
    /// yet.
    pub fn new(local_vault_path: &str, icloud_path: Option<&str>) -> (sync: ICloudSync)
        ensures
            sync@ == (SyncView {
                icloud_path: match icloud_path {
                    Some(p) => Some(p@),
                    None => None,
                },
                local_vault_path: local_vault_path@,
                encryption_key: None,
                local_vault: None,
                local_backup: None,
                local_meta: None,
                remote_vault: None,
                remote_meta: None,
            }),
    {
        ICloudSync {
            icloud_path: match icloud_path {
                Some(p) => Some(String::from_str(p)),
                None => None,
            },
            local_vault_path: String::from_str(local_vault_path),
            encryption_key: None,
            local: LocalFiles { vault: None, backup: None, meta: None },
            remote: RemoteFiles { vault: None, meta: None },
        }
    }

    /// Takes the files as they are found on the device and on the drive.
    pub fn load(&mut self, local: LocalFiles, remote: RemoteFiles)
        ensures
            final(self)@ == (SyncView {
                local_vault: file_bytes(local.vault),
                local_backup: file_bytes(local.backup),
                local_meta: file_meta(local.meta),
                remote_vault: file_bytes(remote.vault),
                remote_meta: file_meta(remote.meta),
                ..old(self)@
            }),
    {
        self.local = local;
        self.remote = remote;
    }

    /// The local files, as they are to be written.
    pub fn local_files(&self) -> (files: &LocalFiles)
        ensures
            file_bytes(files.vault) == self@.local_vault,
            file_bytes(files.backup) == self@.local_backup,
            file_meta(files.meta) == self@.local_meta,
    {
        &self.local
    }

    /// The files on the drive, as they are to be written.
    pub fn remote_files(&self) -> (files: &RemoteFiles)
        ensures
            file_bytes(files.vault) == self@.remote_vault,
            file_meta(files.meta) == self@.remote_meta,
    {
        &self.remote
    }

    /// Whether there is a shared drive.
    pub fn is_available(&self) -> (r: bool)
        ensures
            r == (self@.icloud_path is Some),
    {
        self.icloud_path.is_some()
    }

    /// The folder on the shared drive.
    pub fn icloud_path(&self) -> (path: Option<&str>)
        ensures
            match path {
                Some(p) => self@.icloud_path == Some(p@),
                None => self@.icloud_path is None,
            },
    {
        match &self.icloud_path {
            Some(p) => Some(p.as_str()),
            None => None,
        }
    }

    /// Where the local vault lives.
    pub fn local_vault_path(&self) -> (path: &str)
        ensures
            path@ == self@.local_vault_path,
    {
        self.local_vault_path.as_str()
    }

    /// Sets the key under which copies are sealed and opened. The bytes of
    /// a key that was set before are wiped.
    pub fn set_key(&mut self, key: Vec<u8>)
        ensures
            final(self)@ == (SyncView { encryption_key: Some(key@), ..old(self)@ }),
    {
        match &mut self.encryption_key {
            Some(before) => {
                wipe_bytes(before);
            },
            None => {},
        }
        self.encryption_key = Some(key);
    }

    /// The version of the local vault, 0 where it has no record.
    pub fn local_version(&self) -> (version: u64)
        ensures
            version == version_of(self@.local_meta),
    {
        match &self.local.meta {
            Some(meta) => meta.version,
            None => 0,
        }
    }

    /// The version of the copy on the drive, 0 where it has no record.
    /// Without a drive there is no version.
    pub fn remote_version(&self) -> (r: Result<u64, Error>)
        ensures
            match r {
                Ok(version) => self@.icloud_path is Some && version == version_of(
                    self@.remote_meta,
                ),
                Err(e) => e is Other && self@.icloud_path is None,
            },
    {
        if self.icloud_path.is_none() {
            return Err(Error::Other(String::from_str("iCloud not available")));
        }
        match &self.remote.meta {
            Some(meta) => Ok(meta.version),
            None => Ok(0),
        }
    }

    /// Whether the copy on the drive is newer than the local vault.
    pub fn needs_pull(&self) -> (r: Result<bool, Error>)
        ensures
            match r {
                Ok(needed) => self@.icloud_path is Some && needed == (version_of(
                    self@.remote_meta,
                ) > version_of(self@.local_meta)),
                Err(e) => e is Other && self@.icloud_path is None,
            },
    {
        let local = self.local_version();
        match self.remote_version() {
            Ok(remote) => Ok(remote > local),
            Err(e) => Err(e),
        }
    }

    /// Whether the local vault is newer than the copy on the drive.
    pub fn needs_push(&self) -> (r: Result<bool, Error>)
        ensures
            match r {
                Ok(needed) => self@.icloud_path is Some && needed == (version_of(
                    self@.local_meta,
                ) > version_of(self@.remote_meta)),
                Err(e) => e is Other && self@.icloud_path is None,
            },
    {
        let local = self.local_version();
        match self.remote_version() {
            Ok(remote) => Ok(local > remote),
            Err(e) => Err(e),
        }
    }

    /// Opens a sealed copy under the raw key.
    pub fn unseal(copy: &[u8], key: &Vec<u8>) -> (r: Option<Vec<u8>>)
        ensures
            file_bytes(r) == unsealed(copy@, key@),
    {
        let encrypted = match EncryptedData::from_blob(copy) {
            Some(encrypted) => encrypted,
            None => {
                return None;
            },
        };
        let session = DerivedKey::from_bytes(key.clone());
        match decrypt(&encrypted, &session) {
            Ok(vault) => Some(vault),
            Err(_) => None,
        }
    }

    /// Pushes the local vault to the drive: it is sealed under the key with
    /// a fresh nonce and replaces the copy, and both sides get a record of
    /// the local version raised by one. A push that cannot be made is an
    /// error and changes nothing.
    pub fn push(&mut self) -> (r: Result<(), Error>)
        ensures
            match r {
                Ok(()) => pushed(old(self)@, final(self)@),
                Err(e) => !can_push(old(self)@) && push_fault(old(self)@, e) && final(self)@
                    == old(self)@,
            },
    {
        if self.icloud_path.is_none() {
            return Err(Error::Other(String::from_str("iCloud not available")));
        }
        let sealed = match (&self.encryption_key, &self.local.vault) {
            (None, _) => {
                return Err(Error::Other(String::from_str("Encryption key not set")));
            },
            (Some(_), None) => {
                return Err(Error::Io(String::from_str("No local vault found")));
            },
            (Some(key), Some(vault)) => {
                let session = DerivedKey::from_bytes(key.clone());
                match encrypt(vault.as_slice(), &session) {
                    Ok(sealed) => sealed,
                    Err(e) => {
                        return Err(e);
                    },
                }
            },
        };
        let version = match self.local_version().checked_add(1) {
            Some(version) => version,
            None => {
                return Err(Error::Other(String::from_str("Version out of range")));
            },
        };
        let copy = sealed.to_blob();
        proof {
            assert(copy@.subrange(0, NONCE_LEN as int) =~= sealed.nonce@);
            assert(copy@.subrange(NONCE_LEN as int, copy@.len() as int) =~= sealed.ciphertext@);
            assert(sealed_blob(
                copy@,
                key_from_bytes(old(self)@.encryption_key->0),
                old(self)@.local_vault->0,
            ));
        }
        let meta = SyncMeta::new(version);
        self.remote.vault = Some(copy);
        self.local.meta = Some(meta.duplicate());
        self.remote.meta = Some(meta);
        Ok(())
    }

    /// Pulls the copy from the drive: it is opened under the key and
    /// replaces the local vault, the vault as it was is kept as the backup,
    /// and the local version becomes the copy's. A pull that cannot be made
    /// is an error and changes nothing.
    pub fn pull(&mut self) -> (r: Result<(), Error>)
        ensures
            match r {
                Ok(()) => can_pull(old(self)@) && final(self)@ == pulled(old(self)@),
                Err(e) => !can_pull(old(self)@) && pull_fault(old(self)@, e) && final(self)@
                    == old(self)@,
            },
    {
        if self.icloud_path.is_none() {
            return Err(Error::Other(String::from_str("iCloud not available")));
        }
        let vault = match (&self.encryption_key, &self.remote.vault) {
            (None, _) => {
                return Err(Error::Other(String::from_str("Encryption key not set")));
            },
            (Some(_), None) => {
                return Err(Error::Other(String::from_str("No remote vault found")));
            },
            (Some(key), Some(copy)) => {
                if copy.len() < NONCE_LEN {
                    return Err(Error::Other(String::from_str("Invalid sync data")));
                }
                match ICloudSync::unseal(copy.as_slice(), key) {
                    Some(vault) => vault,
                    None => {
                        return Err(Error::Decryption(String::from_str("Decryption failed")));
                    },
                }
            },
        };
        let meta = match &self.remote.meta {
            Some(meta) => meta.duplicate(),
            None => {
                return Err(Error::Io(String::from_str("No remote version found")));
            },
        };
        if self.local.vault.is_some() {
            self.local.backup = clone_file(&self.local.vault);
        }
        self.local.vault = Some(vault);
        self.local.meta = Some(meta);
        Ok(())
    }

    /// Brings the two sides together. With equal versions nothing is done.
    /// Where the copy on the drive has the higher version it is pulled, and
    /// what was changed locally since the last synchronisation is lost but
    /// for the backup; where the local vault has the higher version it is
    /// pushed. Without a drive, and where the pull or the push that is due
    /// cannot be made, the answer is an error, and nothing is changed.
    pub fn sync(&mut self) -> (r: Result<SyncResult, Error>)
        ensures
            old(self)@.icloud_path is None ==> (r matches Err(e) && e is Other && final(self)@
                == old(self)@),
            match r {
                Ok(SyncResult::Unavailable) => false,
                Ok(SyncResult::UpToDate) => {
                    &&& old(self)@.icloud_path is Some
                    &&& version_of(old(self)@.remote_meta) == version_of(old(self)@.local_meta)
                    &&& final(self)@ == old(self)@
                },
                Ok(SyncResult::Pulled) => {
                    &&& version_of(old(self)@.remote_meta) > version_of(old(self)@.local_meta)
                    &&& can_pull(old(self)@)
                    &&& final(self)@ == pulled(old(self)@)
                    &&& version_of(final(self)@.local_meta) == version_of(old(self)@.remote_meta)
                    &&& old(self)@.local_vault is Some ==> final(self)@.local_backup
                        == old(self)@.local_vault
                },
                Ok(SyncResult::Pushed) => {
                    &&& version_of(old(self)@.local_meta) > version_of(old(self)@.remote_meta)
                    &&& pushed(old(self)@, final(self)@)
                    &&& version_of(final(self)@.remote_meta) == version_of(old(self)@.local_meta)
                        + 1
                },
                Err(e) => sync_fault(old(self)@, e) && final(self)@ == old(self)@,
            },
    {
        if !self.is_available() {
            return Err(Error::Other(String::from_str("iCloud not available")));
        }
        let local = self.local_version();
        let remote = match self.remote_version() {
            Ok(remote) => remote,
            Err(e) => {
                return Err(e);
            },
        };
        if remote > local {
            match self.pull() {
                Ok(()) => Ok(SyncResult::Pulled),
                Err(e) => Err(e),
            }
        } else if local > remote {
            match self.push() {
                Ok(()) => Ok(SyncResult::Pushed),
                Err(e) => Err(e),
            }
        } else {
            Ok(SyncResult::UpToDate)
        }
    }
}

/// What one device pushes, another device with the same key pulls: after a
/// push, the copy on the drive opens to the vault that was pushed, and a pull
/// of it makes that vault the local one, under the version that the push
/// gave.
pub proof fn lemma_pull_after_push(pushed: SyncView, other: SyncView)
    requires
        pushed.remote_vault matches Some(copy) && unsealed(copy, pushed.encryption_key->0)
            == pushed.local_vault,
        pushed.local_vault is Some,
        pushed.remote_meta is Some,
        other.icloud_path is Some,
        other.encryption_key == pushed.encryption_key,
        other.encryption_key is Some,
        other.remote_vault == pushed.remote_vault,
        other.remote_meta == pushed.remote_meta,
    ensures
        can_pull(other),
        pulled(other).local_vault == pushed.local_vault,
        version_of(pulled(other).local_meta) == version_of(pushed.remote_meta),
        other.local_vault is Some ==> pulled(other).local_backup == other.local_vault,
{
}

} // verus!
