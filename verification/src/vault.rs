//! The vault: a store of sealed secrets behind a master password, which it
//! keeps locked or unlocked, and a ledger of what was done to it.

use crate::audit::{
    chain_intact, entry_hash, entry_views, hash_preimage, last_hash, link_intact, linked,
    query_result, utf8, Action, ActorInfo, AuditEntry, AuditEntryView, AuditFilter, AuditLogger,
    Source, SourceView,
};
use crate::crypto::{
    decrypt, derive_key, derived_key_bytes, encrypt, generate_salt, key_derivable, opened,
    sealed_blob, DerivedKey, EncryptedData, MAX_KDF_INPUT_LEN, MAX_PLAINTEXT_LEN, NONCE_LEN,
    SALT_LEN,
};
use crate::error::Error;
use crate::storage::{
    has_secret, info_views, lemma_meta_put, lemma_removed, lemma_upserted, listing, meta_value,
    removed, secret_value, unique_paths, upserted, MemoryStore, MetaEntryView, SecretRecordView,
    SecretStore, StoreView,
};
use crate::text::{bytes_eq, opt_text};
use crate::{texts, SecretInfo, SetOptions};
use vstd::prelude::*;
use vstd::string::*;

verus! {

/// What a vault holds: where it lives, its store, its ledger, and the key
/// while it is unlocked.
pub struct VaultView {
    pub path: Seq<char>,
    pub store: StoreView,
    pub audit: Seq<AuditEntryView>,
    pub key: Option<Seq<u8>>,
    /// Where the requests come from, as the ledger records it.
    pub source: SourceView,
}

/// The vault. When it is dropped its key is dropped with it, and wiped.
pub struct ClawBox {
    path: String,
    store: MemoryStore,
    audit: AuditLogger,
    key: Option<DerivedKey>,
    source: Source,
}

impl View for ClawBox {
    type V = VaultView;

    closed spec fn view(&self) -> VaultView {
        VaultView {
            path: self.path@,
            store: self.store@,
            audit: self.audit@,
            key: match self.key {
                Some(key) => Some(key@),
                None => None,
            },
            source: self.source@,
        }
    }
}

/// The bytes that are sealed under the key when a vault is initialised, and
/// looked for when it is unlocked.
pub open spec fn verification_token() -> Seq<u8> {
    utf8("clawbox-verification-token"@)
}

/// The salt of a vault, once it is initialised.
pub open spec fn vault_salt(meta: Seq<MetaEntryView>) -> Option<Seq<u8>> {
    meta_value(meta, "salt"@)
}

/// The key that a password gives for a vault: the one derived from the
/// password and the vault's salt.
pub open spec fn session_key(meta: Seq<MetaEntryView>, password: Seq<char>) -> Seq<u8> {
    match vault_salt(meta) {
        Some(salt) => derived_key_bytes(password, salt),
        None => Seq::empty(),
    }
}

/// Whether a password unlocks a vault: the vault has a salt from which the
/// password's key can be derived, and a verification record that opens under
/// that key to the verification token.
pub open spec fn unlocks(meta: Seq<MetaEntryView>, password: Seq<char>) -> bool {
    match (
        vault_salt(meta),
        meta_value(meta, "verification_nonce"@),
        meta_value(meta, "verification_data"@),
    ) {
        (Some(salt), Some(nonce), Some(data)) => key_derivable(password, salt) && opened(
            nonce,
            data,
            derived_key_bytes(password, salt),
        ) == Some(verification_token()),
        _ => false,
    }
}

/// The vault without its key.
pub open spec fn locked(v: VaultView) -> VaultView {
    VaultView { key: None, ..v }
}

/// The vault after an attempt to unlock it: holding the password's key where
/// the password unlocks it, and else as it was.
pub open spec fn after_unlock(v: VaultView, password: Seq<char>) -> VaultView {
    if unlocks(v.store.meta, password) {
        VaultView { key: Some(session_key(v.store.meta, password)), ..v }
    } else {
        v
    }
}

/// What a stored value opens to under `key`: the text, or `None` where the
/// value is shorter than a nonce, the cipher rejects it, or what it holds is
/// no text.
pub open spec fn blob_text(blob: Seq<u8>, key: Seq<u8>) -> Option<Seq<char>> {
    if blob.len() < NONCE_LEN {
        None
    } else {
        match opened(
            blob.subrange(0, NONCE_LEN as int),
            blob.subrange(NONCE_LEN as int, blob.len() as int),
            key,
        ) {
            Some(bytes) => if vstd::utf8::valid_utf8(bytes) {
                Some(vstd::utf8::decode_utf8(bytes))
            } else {
                None
            },
            None => None,
        }
    }
}

/// What reading a path gives under `key`: `Some(None)` where nothing is
/// stored, `Some(Some(text))` where the stored value opens to a text, and
/// `None` where it does not open.
pub open spec fn read_result(stored: Option<Seq<u8>>, key: Seq<u8>) -> Option<Option<Seq<char>>> {
    match stored {
        None => Some(None),
        Some(blob) => match blob_text(blob, key) {
            Some(text) => Some(Some(text)),
            None => None,
        },
    }
}

/// The error that the ledger records for a reading, if there is one.
pub open spec fn read_fault(stored: Option<Seq<u8>>, key: Seq<u8>) -> Option<Seq<char>> {
    match stored {
        None => Some("Not found"@),
        Some(blob) => if blob.len() < NONCE_LEN {
            Some("Invalid data format"@)
        } else {
            match opened(
                blob.subrange(0, NONCE_LEN as int),
                blob.subrange(NONCE_LEN as int, blob.len() as int),
                key,
            ) {
                Some(bytes) => if vstd::utf8::valid_utf8(bytes) {
                    None
                } else {
                    Some("Invalid text"@)
                },
                None => Some("Decryption failed"@),
            }
        },
    }
}

/// The ledger has grown by one entry, linked to the one before it, that
/// records the given action by the human at the keyboard. Where the request
/// came from is recorded as the vault has it.
pub open spec fn recorded(
    before: Seq<AuditEntryView>,
    after: Seq<AuditEntryView>,
    action: Action,
    key_path: Seq<char>,
    success: bool,
    error_message: Option<Seq<char>>,
) -> bool {
    &&& after.len() == before.len() + 1
    &&& after.drop_last() == before
    &&& after.last().action == action
    &&& after.last().key_path == key_path
    &&& after.last().success == success
    &&& after.last().error_message == error_message
    &&& after.last().actor.actor_type == "human"@
    &&& after.last().prev_hash == last_hash(before)
    &&& after.last().hash == Some(entry_hash(after.last(), last_hash(before)))
}

/// An entry recorded onto an intact chain leaves the chain intact.
pub proof fn lemma_recorded_keeps_chain(
    before: Seq<AuditEntryView>,
    after: Seq<AuditEntryView>,
    action: Action,
    key_path: Seq<char>,
    success: bool,
    error_message: Option<Seq<char>>,
)
    requires
        recorded(before, after, action, key_path, success, error_message),
        chain_intact(before),
    ensures
        chain_intact(after),
{
    assert forall|i: int| 0 <= i < after.len() implies #[trigger] link_intact(after, i) by {
        if i < before.len() {
            assert(after[i] == after.drop_last()[i]);
            assert(link_intact(before, i));
            if i > 0 {
                assert(after[i - 1] == after.drop_last()[i - 1]);
            }
        } else {
            if i > 0 {
                assert(after[i - 1] == after.drop_last()[i - 1]);
                assert(before.last() == before[i - 1]);
            }
        }
    }
}

impl ClawBox {
    /// A vault at `path` with nothing in it: not initialised, and locked.
    pub fn open(path: &str) -> (vault: ClawBox)
        ensures
            vault@.path == path@,
            vault@.store.meta == Seq::<MetaEntryView>::empty(),
            vault@.store.secrets == Seq::<SecretRecordView>::empty(),
            vault@.audit == Seq::<AuditEntryView>::empty(),
            vault@.key is None,
            vault@.source == (SourceView::CLI { pwd: Seq::empty() }),
    {
        ClawBox {
            path: String::from_str(path),
            store: MemoryStore::new(),
            audit: AuditLogger::new(),
            key: None,
            source: Source::CLI { pwd: String::new() },
        }
    }

    /// A vault at `path` over a store and a ledger that were kept before. It
    /// is locked.
    pub fn from_parts(path: &str, store: MemoryStore, audit: AuditLogger) -> (vault: ClawBox)
        ensures
            vault@ == (VaultView {
                path: path@,
                store: store@,
                audit: audit@,
                key: None,
                source: SourceView::CLI { pwd: Seq::empty() },
            }),
    {
        ClawBox {
            path: String::from_str(path),
            store,
            audit,
            key: None,
            source: Source::CLI { pwd: String::new() },
        }
    }

    /// Says where the requests come from, for the ledger.
    pub fn set_source(&mut self, source: Source)
        ensures
            final(self)@ == (VaultView { source: source@, ..old(self)@ }),
    {
        self.source = source;
    }

    /// The store, as it is to be kept.
    pub fn store(&self) -> (store: &MemoryStore)
        ensures
            store@ == self@.store,
    {
        &self.store
    }

    /// The ledger, as it is to be kept.
    pub fn audit_log(&self) -> (log: &AuditLogger)
        ensures
            log@ == self@.audit,
    {
        &self.audit
    }

    /// Where the vault lives.
    pub fn path(&self) -> (path: &str)
        ensures
            path@ == self@.path,
    {
        self.path.as_str()
    }

    /// Whether the vault has been initialised: whether it has a salt.
    pub fn is_initialized(&self) -> (r: bool)
        ensures
            r == (vault_salt(self@.store.meta) is Some),
    {
        self.store.get_meta("salt").is_some()
    }

    /// Whether the vault holds a key.
    pub fn is_unlocked(&self) -> (r: bool)
        ensures
            r == (self@.key is Some),
    {
        self.key.is_some()
    }

    /// A copy of the key's bytes, for sealing a copy of the whole vault, or
    /// `None` of a locked vault. Its owner is to wipe it after use.
    pub fn export_key(&self) -> (bytes: Option<Vec<u8>>)
        ensures
            match bytes {
                Some(b) => self@.key == Some(b@),
                None => self@.key is None,
            },
    {
        match &self.key {
            Some(key) => Some(key.to_bytes()),
            None => None,
        }
    }

    /// Locks the vault: the key is dropped, and its bytes are wiped. A
    /// locked vault stays as it is.
    pub fn lock(&mut self)
        ensures
            final(self)@ == locked(old(self)@),
    {
        self.key = None;
    }

    /// Records an action of the human at the keyboard in the ledger.
    fn log_audit(&mut self, action: Action, key_path: &str, success: bool, error: Option<&str>)
        ensures
            recorded(
                old(self)@.audit,
                final(self)@.audit,
                action,
                key_path@,
                success,
                match error {
                    Some(text) => Some(text@),
                    None => None,
                },
            ),
            chain_intact(old(self)@.audit) ==> chain_intact(final(self)@.audit),
            final(self)@.audit.last().source == old(self)@.source,
            final(self)@.path == old(self)@.path,
            final(self)@.store == old(self)@.store,
            final(self)@.key == old(self)@.key,
            final(self)@.source == old(self)@.source,
    {
        let entry = AuditEntry::new(action, key_path, success).with_actor(
            ActorInfo::human(),
        ).with_source(self.source.duplicate());
        let entry = match error {
            Some(text) => entry.with_error(text),
            None => entry,
        };
        let ghost before = self.audit@;
        let ghost e = entry@;
        self.audit.log(entry);
        proof {
            let prev = last_hash(before);
            let after = self.audit@;
            assert(after == before.push(linked(e, prev)));
            assert(after.drop_last() =~= before);
            assert(after.last() == linked(e, prev));
            assert(hash_preimage(linked(e, prev), prev) == hash_preimage(e, prev));
        }
    }

    /// Initialises the vault with a master password: a fresh salt, the key
    /// derived from password and salt, and the verification token sealed
    /// under that key are stored, and the vault is left unlocked with the new
    /// key. A vault that was initialised before gets a new salt and a new
    /// verification record; the secrets stay as they are, sealed under the
    /// old key. Initialising fails, with `Encryption` and with nothing
    /// changed, exactly when the password is longer than 2^32 - 1 bytes.
    pub fn init(&mut self, password: &str) -> (r: Result<(), Error>)
        ensures
            match r {
                Ok(()) => {
                    &&& utf8(password@).len() <= MAX_KDF_INPUT_LEN
                    &&& vault_salt(final(self)@.store.meta) matches Some(salt) && salt.len()
                        == SALT_LEN
                    &&& unlocks(final(self)@.store.meta, password@)
                    &&& final(self)@.key == Some(session_key(final(self)@.store.meta, password@))
                    &&& forall|other: Seq<char>|
                        other != "salt"@ && other != "verification_nonce"@ && other
                            != "verification_data"@ ==> #[trigger] meta_value(
                            final(self)@.store.meta,
                            other,
                        ) == meta_value(old(self)@.store.meta, other)
                    &&& final(self)@.store.secrets == old(self)@.store.secrets
                    &&& final(self)@.path == old(self)@.path
                    &&& final(self)@.source == old(self)@.source
                    &&& final(self)@.audit.last().source == old(self)@.source
                    &&& recorded(
                        old(self)@.audit,
                        final(self)@.audit,
                        Action::Init,
                        "vault"@,
                        true,
                        None,
                    )
                },
                Err(e) => {
                    &&& e is Encryption
                    &&& utf8(password@).len() > MAX_KDF_INPUT_LEN
                    &&& final(self)@ == old(self)@
                },
            },
            chain_intact(old(self)@.audit) ==> chain_intact(final(self)@.audit),
    {
        let salt = generate_salt();
        let key = match derive_key(password, salt.as_slice()) {
            Ok(key) => key,
            Err(e) => {
                return Err(e);
            },
        };
        let token = "clawbox-verification-token".as_bytes();
        proof {
            reveal_strlit("clawbox-verification-token");
            vstd::utf8::is_ascii_chars_encode_utf8("clawbox-verification-token"@);
        }
        let sealed = match encrypt(token, &key) {
            Ok(sealed) => sealed,
            Err(e) => {
                return Err(e);
            },
        };
        let ghost m0 = self.store@.meta;
        self.store.set_meta("salt", salt.as_slice());
        let ghost m1 = self.store@.meta;
        self.store.set_meta("verification_nonce", sealed.nonce.as_slice());
        let ghost m2 = self.store@.meta;
        self.store.set_meta("verification_data", sealed.ciphertext.as_slice());
        let ghost m3 = self.store@.meta;
        proof {
            reveal_strlit("salt");
            reveal_strlit("verification_nonce");
            reveal_strlit("verification_data");
            assert("salt"@.len() == 4);
            assert("verification_nonce"@.len() == 18);
            assert("verification_data"@.len() == 17);
            lemma_meta_put(m0, "salt"@, salt@, "salt"@);
            lemma_meta_put(m1, "verification_nonce"@, sealed.nonce@, "salt"@);
            lemma_meta_put(m2, "verification_data"@, sealed.ciphertext@, "salt"@);
            lemma_meta_put(m2, "verification_data"@, sealed.ciphertext@, "verification_nonce"@);
            assert forall|other: Seq<char>|
                other != "salt"@ && other != "verification_nonce"@ && other
                    != "verification_data"@ implies #[trigger] meta_value(m3, other) == meta_value(
                m0,
                other,
            ) by {
                lemma_meta_put(m0, "salt"@, salt@, other);
                lemma_meta_put(m1, "verification_nonce"@, sealed.nonce@, other);
                lemma_meta_put(m2, "verification_data"@, sealed.ciphertext@, other);
            }
        }
        self.key = Some(key);
        self.log_audit(Action::Init, "vault", true, None);
        Ok(())
    }

    /// Unlocks the vault with the master password: the key is derived anew
    /// from the stored salt, and kept when the stored verification record
    /// opens under it to the verification token. Every failure is
    /// `InvalidPassword`, whether the vault was never initialised, the
    /// password is wrong or the verification record is damaged, and leaves
    /// the vault as it was.
    pub fn unlock(&mut self, password: &str) -> (r: Result<(), Error>)
        ensures
            final(self)@ == after_unlock(old(self)@, password@),
            match r {
                Ok(()) => unlocks(old(self)@.store.meta, password@),
                Err(e) => e is InvalidPassword && !unlocks(old(self)@.store.meta, password@),
            },
    {
        let salt = match self.store.get_meta("salt") {
            Some(salt) => salt,
            None => {
                return Err(Error::InvalidPassword);
            },
        };
        let key = match derive_key(password, salt.as_slice()) {
            Ok(key) => key,
            Err(_) => {
                return Err(Error::InvalidPassword);
            },
        };
        let nonce = match self.store.get_meta("verification_nonce") {
            Some(nonce) => nonce,
            None => {
                return Err(Error::InvalidPassword);
            },
        };
        let ciphertext = match self.store.get_meta("verification_data") {
            Some(data) => data,
            None => {
                return Err(Error::InvalidPassword);
            },
        };
        let encrypted = EncryptedData { nonce, ciphertext };
        let decrypted = match decrypt(&encrypted, &key) {
            Ok(bytes) => bytes,
            Err(_) => {
                return Err(Error::InvalidPassword);
            },
        };
        if !ClawBox::is_verification_token(decrypted.as_slice()) {
            return Err(Error::InvalidPassword);
        }
        self.key = Some(key);
        Ok(())
    }

    /// Whether the bytes are the verification token.
    pub fn is_verification_token(bytes: &[u8]) -> (r: bool)
        ensures
            r == (bytes@ == verification_token()),
    {
        bytes_eq(bytes, "clawbox-verification-token".as_bytes())
    }

    /// What a stored value holds, opened under `key`: the text, or the words
    /// for what is wrong with it.
    pub fn open_value(blob: &[u8], key: &DerivedKey) -> (r: Result<String, String>)
        ensures
            match r {
                Ok(text) => blob_text(blob@, key@) == Some(text@) && read_fault(Some(blob@), key@)
                    is None,
                Err(fault) => blob_text(blob@, key@) is None && read_fault(Some(blob@), key@)
                    == Some(fault@),
            },
    {
        let encrypted = match EncryptedData::from_blob(blob) {
            Some(encrypted) => encrypted,
            None => {
                return Err(String::from_str("Invalid data format"));
            },
        };
        let plaintext = match decrypt(&encrypted, key) {
            Ok(plaintext) => plaintext,
            Err(_) => {
                return Err(String::from_str("Decryption failed"));
            },
        };
        match String::from_utf8(plaintext) {
            Ok(text) => Ok(text),
            Err(_) => Err(String::from_str("Invalid text")),
        }
    }

    /// Reads the secret of `path`: `None` where nothing is stored under it.
    /// A locked vault answers `VaultLocked` and records nothing. A stored
    /// value that is shorter than a nonce, that the cipher rejects or that
    /// holds no text gives `Decryption`. Every reading of an unlocked vault
    /// is recorded in the ledger, with its outcome.
    pub fn get(&mut self, path: &str) -> (r: Result<Option<String>, Error>)
        ensures
            final(self)@.path == old(self)@.path,
            final(self)@.store == old(self)@.store,
            final(self)@.key == old(self)@.key,
            final(self)@.source == old(self)@.source,
            chain_intact(old(self)@.audit) ==> chain_intact(final(self)@.audit),
            match old(self)@.key {
                None => r matches Err(e) && e is VaultLocked && final(self)@.audit
                    == old(self)@.audit,
                Some(key) => {
                    let stored = secret_value(old(self)@.store.secrets, path@);
                    &&& final(self)@.audit.last().source == old(self)@.source
                    &&& recorded(
                        old(self)@.audit,
                        final(self)@.audit,
                        Action::Read,
                        path@,
                        read_fault(stored, key) is None,
                        read_fault(stored, key),
                    )
                    &&& match r {
                        Ok(found) => read_result(stored, key) == Some(opt_text(found)),
                        Err(e) => e is Decryption && read_result(stored, key) is None,
                    }
                },
            },
    {
        let opened_value = match &self.key {
            None => {
                return Err(Error::VaultLocked);
            },
            Some(key) => match self.store.get(path) {
                Ok(None) => None,
                Ok(Some(blob)) => Some(ClawBox::open_value(blob.as_slice(), key)),
                Err(e) => {
                    return Err(e);
                },
            },
        };
        match opened_value {
            None => {
                self.log_audit(Action::Read, path, false, Some("Not found"));
                Ok(None)
            },
            Some(Ok(text)) => {
                self.log_audit(Action::Read, path, true, None);
                Ok(Some(text))
            },
            Some(Err(fault)) => {
                self.log_audit(Action::Read, path, false, Some(fault.as_str()));
                Err(Error::Decryption(fault))
            },
        }
    }

    /// Sets the secret of `path` to `value`, sealed under the vault's key
    /// with a fresh nonce: a new secret under a new path, and else the one
    /// that is there, which keeps its place and the time it was made. A
    /// locked vault answers `VaultLocked`; a value longer than 2^36 bytes
    /// gives `Encryption`; both leave the vault as it was. What is stored is
    /// the nonce followed by the ciphertext, 28 bytes more than the value and
    /// never the value in the clear. What was set is what a reading gives
    /// back, and every other path holds what it held.
    pub fn set(&mut self, path: &str, value: &str, opts: SetOptions) -> (r: Result<(), Error>)
        ensures
            chain_intact(old(self)@.audit) ==> chain_intact(final(self)@.audit),
            match r {
                Ok(()) => {
                    &&& old(self)@.key matches Some(key)
                    &&& utf8(value@).len() <= MAX_PLAINTEXT_LEN
                    &&& exists|blob: Seq<u8>, id: Seq<char>, now: i64|
                        sealed_blob(blob, key, utf8(value@)) && blob_text(blob, key) == Some(
                            value@,
                        ) && final(self)@.store.secrets == #[trigger] upserted(
                            old(self)@.store.secrets,
                            path@,
                            blob,
                            opts.access,
                            texts(opts.tags@),
                            opt_text(opts.note),
                            id,
                            now,
                        )
                    &&& read_result(secret_value(final(self)@.store.secrets, path@), key) == Some(
                        Some(value@),
                    )
                    &&& forall|other: Seq<char>|
                        other != path@ ==> #[trigger] secret_value(
                            final(self)@.store.secrets,
                            other,
                        ) == secret_value(old(self)@.store.secrets, other)
                    &&& unique_paths(final(self)@.store.secrets)
                    &&& final(self)@.store.meta == old(self)@.store.meta
                    &&& final(self)@.key == old(self)@.key
                    &&& final(self)@.path == old(self)@.path
                    &&& final(self)@.source == old(self)@.source
                    &&& final(self)@.audit.last().source == old(self)@.source
                    &&& recorded(
                        old(self)@.audit,
                        final(self)@.audit,
                        Action::Write,
                        path@,
                        true,
                        None,
                    )
                },
                Err(e) => {
                    &&& final(self)@ == old(self)@
                    &&& if old(self)@.key is None {
                        e is VaultLocked
                    } else {
                        e is Encryption && utf8(value@).len() > MAX_PLAINTEXT_LEN
                    }
                },
            },
    {
        let sealed = match &self.key {
            None => {
                return Err(Error::VaultLocked);
            },
            Some(key) => match encrypt(value.as_bytes(), key) {
                Ok(sealed) => sealed,
                Err(e) => {
                    return Err(e);
                },
            },
        };
        let blob = sealed.to_blob();
        let info = SecretInfo {
            path: String::from_str(path),
            access: opts.access,
            tags: opts.tags,
            note: opts.note,
            created_at: 0,
            updated_at: 0,
        };
        let ghost before = self.store@.secrets;
        let ghost key = old(self)@.key->0;
        match self.store.set(path, blob.as_slice(), &info) {
            Ok(()) => {},
            Err(e) => {
                let text = e.message();
                self.log_audit(Action::Write, path, false, Some(text.as_str()));
                return Err(e);
            },
        }
        proof {
            assert(blob@.subrange(0, NONCE_LEN as int) =~= sealed.nonce@);
            assert(blob@.subrange(NONCE_LEN as int, blob@.len() as int) =~= sealed.ciphertext@);
            vstd::utf8::encode_utf8_valid_utf8(value@);
            vstd::utf8::encode_utf8_decode_utf8(value@);
            assert(blob_text(blob@, key) == Some(value@));
            assert(sealed_blob(blob@, key, utf8(value@)));
            let (id, now) = choose|id: Seq<char>, now: i64|
                self.store@.secrets == #[trigger] upserted(
                    before,
                    path@,
                    blob@,
                    info.access,
                    info@.tags,
                    info@.note,
                    id,
                    now,
                );
            lemma_upserted(before, path@, blob@, info.access, info@.tags, info@.note, id, now, path@);
            assert forall|other: Seq<char>| other != path@ implies #[trigger] secret_value(
                self.store@.secrets,
                other,
            ) == secret_value(before, other) by {
                lemma_upserted(
                    before,
                    path@,
                    blob@,
                    info.access,
                    info@.tags,
                    info@.note,
                    id,
                    now,
                    other,
                );
            }
        }
        self.log_audit(Action::Write, path, true, None);
        Ok(())
    }

    /// Removes the secret of `path` and says whether there was one: removing
    /// a path that holds nothing answers `false` and is no error. A locked
    /// vault answers `VaultLocked` and stays as it was. The removal is
    /// recorded in the ledger, as a failure where nothing was there.
    pub fn delete(&mut self, path: &str) -> (r: Result<bool, Error>)
        ensures
            chain_intact(old(self)@.audit) ==> chain_intact(final(self)@.audit),
            match r {
                Ok(existed) => {
                    &&& old(self)@.key is Some
                    &&& existed == has_secret(old(self)@.store.secrets, path@)
                    &&& final(self)@.store.secrets == removed(old(self)@.store.secrets, path@)
                    &&& secret_value(final(self)@.store.secrets, path@) is None
                    &&& unique_paths(final(self)@.store.secrets)
                    &&& final(self)@.store.meta == old(self)@.store.meta
                    &&& final(self)@.key == old(self)@.key
                    &&& final(self)@.path == old(self)@.path
                    &&& final(self)@.source == old(self)@.source
                    &&& final(self)@.audit.last().source == old(self)@.source
                    &&& recorded(
                        old(self)@.audit,
                        final(self)@.audit,
                        Action::Delete,
                        path@,
                        existed,
                        if existed {
                            None
                        } else {
                            Some("Not found"@)
                        },
                    )
                },
                Err(e) => e is VaultLocked && old(self)@.key is None && final(self)@ == old(self)@,
            },
    {
        if !self.is_unlocked() {
            return Err(Error::VaultLocked);
        }
        let ghost before = self.store@.secrets;
        let existed = match self.store.delete(path) {
            Ok(existed) => existed,
            Err(e) => {
                let text = e.message();
                self.log_audit(Action::Delete, path, false, Some(text.as_str()));
                return Err(e);
            },
        };
        proof {
            lemma_removed(before, path@, path@);
        }
        if existed {
            self.log_audit(Action::Delete, path, true, None);
        } else {
            self.log_audit(Action::Delete, path, false, Some("Not found"));
        }
        Ok(existed)
    }

    /// The descriptions of the secrets whose path matches the pattern, `*`
    /// standing for any run of characters, or of all secrets where no pattern
    /// is given, in the order in which they were first set. No value is
    /// opened. A locked vault answers `VaultLocked`.
    pub fn list(&self, pattern: Option<&str>) -> (r: Result<Vec<SecretInfo>, Error>)
        ensures
            match r {
                Ok(found) => self@.key is Some && info_views(found@) == listing(
                    self@.store.secrets,
                    match pattern {
                        Some(p) => Some(p@),
                        None => None,
                    },
                ),
                Err(e) => e is VaultLocked && self@.key is None,
            },
    {
        if !self.is_unlocked() {
            return Err(Error::VaultLocked);
        }
        self.store.list(pattern)
    }

    /// The entries of the ledger that pass the filter, the most recent
    /// first, and no more of them than the limit allows.
    pub fn audit(&self, filter: &AuditFilter) -> (found: Vec<AuditEntry>)
        ensures
            entry_views(found@) == query_result(self@.audit, filter@),
    {
        self.audit.query(filter)
    }

    /// Whether the ledger's chain of hashes is intact.
    pub fn verify_audit_integrity(&self) -> (intact: bool)
        ensures
            intact == chain_intact(self@.audit),
    {
        self.audit.verify_integrity()
    }
}

/// A vault that a password unlocks is, once locked, unlocked again by that
/// password, and then holds that password's key; a password that does not
/// unlock it leaves it locked and changes nothing, so that the right
/// password still unlocks it afterwards.
pub proof fn lemma_lifecycle(v: VaultView, password: Seq<char>, wrong: Seq<char>)
    requires
        unlocks(v.store.meta, password),
        !unlocks(v.store.meta, wrong),
    ensures
        locked(v).key is None,
        after_unlock(locked(v), password).key == Some(session_key(v.store.meta, password)),
        after_unlock(locked(v), wrong) == locked(v),
        after_unlock(locked(v), wrong).key is None,
        after_unlock(after_unlock(locked(v), wrong), password).key == Some(
            session_key(v.store.meta, password),
        ),
{
}

/// A secret that reads as a text in an unlocked vault reads as the same text
/// after the vault has been locked and unlocked again with the password
/// whose key it held.
pub proof fn lemma_secret_survives_relock(
    v: VaultView,
    password: Seq<char>,
    path: Seq<char>,
    text: Seq<char>,
)
    requires
        unlocks(v.store.meta, password),
        v.key == Some(session_key(v.store.meta, password)),
        read_result(secret_value(v.store.secrets, path), v.key->0) == Some(Some(text)),
    ensures
        after_unlock(locked(v), password).key == v.key,
        read_result(
            secret_value(after_unlock(locked(v), password).store.secrets, path),
            after_unlock(locked(v), password).key->0,
        ) == Some(Some(text)),
{
}

} // verus!
