//! The secret store: the vault's metadata and its sealed secrets, each
//! under a key of its own, held in memory in the order in which they came.

use crate::audit::{fresh_id, unix_now};
use crate::error::Error;
use crate::text::{check_glob, glob_matches, lemma_glob_prefix, str_eq, to_chars};
use crate::{AccessLevel, SecretInfo, SecretInfoView};
use vstd::prelude::*;
use vstd::string::*;

verus! {

/// One value of the vault's metadata, under its key.
#[derive(Debug)]
pub struct MetaEntry {
    pub key: String,
    pub value: Vec<u8>,
}

/// What a `MetaEntry` says.
pub struct MetaEntryView {
    pub key: Seq<char>,
    pub value: Seq<u8>,
}

impl View for MetaEntry {
    type V = MetaEntryView;

    open spec fn view(&self) -> MetaEntryView {
        MetaEntryView { key: self.key@, value: self.value@ }
    }
}

/// One secret as it is stored: what is known of it, and its sealed value.
#[derive(Debug)]
pub struct SecretRecord {
    /// The identifier of the row, given when the secret is first set.
    pub id: String,
    pub info: SecretInfo,
    /// The nonce, followed by the ciphertext.
    pub encrypted_value: Vec<u8>,
    pub created_by: String,
}

/// What a `SecretRecord` says.
pub struct SecretRecordView {
    pub id: Seq<char>,
    pub info: SecretInfoView,
    pub encrypted_value: Seq<u8>,
    pub created_by: Seq<char>,
}

impl View for SecretRecord {
    type V = SecretRecordView;

    open spec fn view(&self) -> SecretRecordView {
        SecretRecordView {
            id: self.id@,
            info: self.info@,
            encrypted_value: self.encrypted_value@,
            created_by: self.created_by@,
        }
    }
}

/// What a list of metadata says, one by one.
pub open spec fn meta_views(entries: Seq<MetaEntry>) -> Seq<MetaEntryView> {
    entries.map_values(|e: MetaEntry| e@)
}

/// What a list of records says, one by one.
pub open spec fn record_views(records: Seq<SecretRecord>) -> Seq<SecretRecordView> {
    records.map_values(|r: SecretRecord| r@)
}

/// What a list of descriptions says, one by one.
pub open spec fn info_views(infos: Seq<SecretInfo>) -> Seq<SecretInfoView> {
    infos.map_values(|i: SecretInfo| i@)
}

/// The metadata holds a value under `key`.
pub open spec fn has_meta(meta: Seq<MetaEntryView>, key: Seq<char>) -> bool {
    exists|i: int| 0 <= i < meta.len() && (#[trigger] meta[i]).key == key
}

/// Where the metadata holds `key`, if it does.
pub open spec fn meta_index(meta: Seq<MetaEntryView>, key: Seq<char>) -> int {
    choose|i: int| 0 <= i < meta.len() && (#[trigger] meta[i]).key == key
}

/// The value that the metadata holds under `key`.
pub open spec fn meta_value(meta: Seq<MetaEntryView>, key: Seq<char>) -> Option<Seq<u8>> {
    if has_meta(meta, key) {
        Some(meta[meta_index(meta, key)].value)
    } else {
        None
    }
}

/// The metadata after `value` has been put under `key`: in the place of the
/// value that was there, or at the end.
pub open spec fn meta_put(meta: Seq<MetaEntryView>, key: Seq<char>, value: Seq<u8>) -> Seq<
    MetaEntryView,
> {
    if has_meta(meta, key) {
        meta.update(meta_index(meta, key), MetaEntryView { key, value })
    } else {
        meta.push(MetaEntryView { key, value })
    }
}

/// No key stands twice in the metadata.
pub open spec fn unique_keys(meta: Seq<MetaEntryView>) -> bool {
    forall|i: int, j: int|
        0 <= i < meta.len() && 0 <= j < meta.len() && i != j ==> (#[trigger] meta[i]).key != (
        #[trigger] meta[j]).key
}

/// A secret is stored under `path`.
pub open spec fn has_secret(records: Seq<SecretRecordView>, path: Seq<char>) -> bool {
    exists|i: int| 0 <= i < records.len() && (#[trigger] records[i]).info.path == path
}

/// Where the secret of `path` is stored, if it is.
pub open spec fn secret_index(records: Seq<SecretRecordView>, path: Seq<char>) -> int {
    choose|i: int| 0 <= i < records.len() && (#[trigger] records[i]).info.path == path
}

/// The sealed value stored under `path`.
pub open spec fn secret_value(records: Seq<SecretRecordView>, path: Seq<char>) -> Option<Seq<u8>> {
    if has_secret(records, path) {
        Some(records[secret_index(records, path)].encrypted_value)
    } else {
        None
    }
}

/// No path stands twice among the records.
pub open spec fn unique_paths(records: Seq<SecretRecordView>) -> bool {
    forall|i: int, j: int|
        0 <= i < records.len() && 0 <= j < records.len() && i != j ==> (
        #[trigger] records[i]).info.path != (#[trigger] records[j]).info.path
}

/// The records after a secret has been set at the instant `now`. Under a new
/// path a record is added at the end, with the identifier `id`, made and last
/// set at `now`. Under a path that is there, the record stays in its place
/// and keeps its identifier, its maker and the time it was made; its value,
/// level, tags and note are replaced, and it was last set at `now`.
pub open spec fn upserted(
    records: Seq<SecretRecordView>,
    path: Seq<char>,
    value: Seq<u8>,
    access: AccessLevel,
    tags: Seq<Seq<char>>,
    note: Option<Seq<char>>,
    id: Seq<char>,
    now: i64,
) -> Seq<SecretRecordView> {
    if has_secret(records, path) {
        let i = secret_index(records, path);
        records.update(
            i,
            SecretRecordView {
                info: SecretInfoView {
                    path: path,
                    access: access,
                    tags: tags,
                    note: note,
                    created_at: records[i].info.created_at,
                    updated_at: now,
                },
                encrypted_value: value,
                ..records[i]
            },
        )
    } else {
        records.push(
            SecretRecordView {
                id: id,
                info: SecretInfoView {
                    path: path,
                    access: access,
                    tags: tags,
                    note: note,
                    created_at: now,
                    updated_at: now,
                },
                encrypted_value: value,
                created_by: "human"@,
            },
        )
    }
}

/// The records without the secret of `path`.
pub open spec fn removed(records: Seq<SecretRecordView>, path: Seq<char>) -> Seq<SecretRecordView> {
    if has_secret(records, path) {
        records.remove(secret_index(records, path))
    } else {
        records
    }
}

/// Whether a path is one that a listing asks for: every path where no pattern
/// is given, and else those that the pattern matches as a whole, `*` standing
/// for any run of characters.
pub open spec fn listed_path(pattern: Option<Seq<char>>, path: Seq<char>) -> bool {
    match pattern {
        Some(p) => glob_matches(p, path),
        None => true,
    }
}

/// What a listing returns: the descriptions of the secrets whose path the
/// pattern asks for, in the order in which the secrets were first set.
pub open spec fn listing(records: Seq<SecretRecordView>, pattern: Option<Seq<char>>) -> Seq<
    SecretInfoView,
> {
    records.filter(|r: SecretRecordView| listed_path(pattern, r.info.path)).map_values(
        |r: SecretRecordView| r.info,
    )
}

/// What a store holds: the metadata and the records, each in the order in
/// which the keys first came.
pub struct StoreView {
    pub meta: Seq<MetaEntryView>,
    pub secrets: Seq<SecretRecordView>,
}

/// The store. No key stands twice in its metadata, and no path twice among
/// its secrets.
pub struct MemoryStore {
    meta: Vec<MetaEntry>,
    secrets: Vec<SecretRecord>,
}

impl View for MemoryStore {
    type V = StoreView;

    closed spec fn view(&self) -> StoreView {
        StoreView { meta: meta_views(self.meta@), secrets: record_views(self.secrets@) }
    }
}

/// Where `key` stands in the metadata.
fn find_meta(meta: &Vec<MetaEntry>, key: &str) -> (r: Option<usize>)
    requires
        unique_keys(meta_views(meta@)),
    ensures
        match r {
            Some(i) => i < meta@.len() && has_meta(meta_views(meta@), key@) && meta_index(
                meta_views(meta@),
                key@,
            ) == i,
            None => !has_meta(meta_views(meta@), key@),
        },
{
    let ghost views = meta_views(meta@);
    let mut i: usize = 0;
    while i < meta.len()
        invariant
            i <= meta@.len(),
            views == meta_views(meta@),
            unique_keys(views),
            forall|k: int| 0 <= k < i ==> (#[trigger] views[k]).key != key@,
        decreases meta@.len() - i,
    {
        if str_eq(meta[i].key.as_str(), key) {
            proof {
                assert(views[i as int].key == key@);
                let c = meta_index(views, key@);
                assert(0 <= c < views.len() && views[c].key == key@);
                if c != i {
                    assert(views[c].key != views[i as int].key);
                }
            }
            return Some(i);
        }
        i += 1;
    }
    None
}

/// Where the secret of `path` stands among the records.
fn find_secret(records: &Vec<SecretRecord>, path: &str) -> (r: Option<usize>)
    requires
        unique_paths(record_views(records@)),
    ensures
        match r {
            Some(i) => i < records@.len() && has_secret(record_views(records@), path@)
                && secret_index(record_views(records@), path@) == i,
            None => !has_secret(record_views(records@), path@),
        },
{
    let ghost views = record_views(records@);
    let mut i: usize = 0;
    while i < records.len()
        invariant
            i <= records@.len(),
            views == record_views(records@),
            unique_paths(views),
            forall|k: int| 0 <= k < i ==> (#[trigger] views[k]).info.path != path@,
        decreases records@.len() - i,
    {
        if str_eq(records[i].info.path.as_str(), path) {
            proof {
                assert(views[i as int].info.path == path@);
                let c = secret_index(views, path@);
                assert(0 <= c < views.len() && views[c].info.path == path@);
                if c != i {
                    assert(views[c].info.path != views[i as int].info.path);
                }
            }
            return Some(i);
        }
        i += 1;
    }
    None
}

/// Whether no key stands twice in the metadata.
pub fn check_unique_keys(meta: &Vec<MetaEntry>) -> (r: bool)
    ensures
        r == unique_keys(meta_views(meta@)),
{
    let ghost views = meta_views(meta@);
    let mut i: usize = 0;
    while i < meta.len()
        invariant
            i <= meta@.len(),
            views == meta_views(meta@),
            forall|a: int, b: int|
                0 <= a < b < i ==> (#[trigger] views[a]).key != (#[trigger] views[b]).key,
        decreases meta@.len() - i,
    {
        let mut j: usize = 0;
        while j < i
            invariant
                j <= i < meta@.len(),
                views == meta_views(meta@),
                forall|a: int| 0 <= a < j ==> (#[trigger] views[a]).key != views[i as int].key,
            decreases i - j,
        {
            if str_eq(meta[j].key.as_str(), meta[i].key.as_str()) {
                assert(views[j as int].key == views[i as int].key);
                return false;
            }
            j += 1;
        }
        i += 1;
    }
    assert forall|a: int, b: int|
        0 <= a < views.len() && 0 <= b < views.len() && a != b implies (#[trigger] views[a]).key
        != (#[trigger] views[b]).key by {
        if a < b {
        } else {
            assert(views[b].key != views[a].key);
        }
    }
    true
}

/// Whether no path stands twice among the records.
pub fn check_unique_paths(records: &Vec<SecretRecord>) -> (r: bool)
    ensures
        r == unique_paths(record_views(records@)),
{
    let ghost views = record_views(records@);
    let mut i: usize = 0;
    while i < records.len()
        invariant
            i <= records@.len(),
            views == record_views(records@),
            forall|a: int, b: int|
                0 <= a < b < i ==> (#[trigger] views[a]).info.path != (
                #[trigger] views[b]).info.path,
        decreases records@.len() - i,
    {
        let mut j: usize = 0;
        while j < i
            invariant
                j <= i < records@.len(),
                views == record_views(records@),
                forall|a: int|
                    0 <= a < j ==> (#[trigger] views[a]).info.path != views[i as int].info.path,
            decreases i - j,
        {
            if str_eq(records[j].info.path.as_str(), records[i].info.path.as_str()) {
                assert(views[j as int].info.path == views[i as int].info.path);
                return false;
            }
            j += 1;
        }
        i += 1;
    }
    assert forall|a: int, b: int|
        0 <= a < views.len() && 0 <= b < views.len() && a != b implies (
    #[trigger] views[a]).info.path != (#[trigger] views[b]).info.path by {
        if a < b {
        } else {
            assert(views[b].info.path != views[a].info.path);
        }
    }
    true
}

impl MemoryStore {
    #[verifier::type_invariant]
    spec fn well_formed(self) -> bool {
        &&& unique_keys(meta_views(self.meta@))
        &&& unique_paths(record_views(self.secrets@))
    }

    /// An empty store.
    pub fn new() -> (store: MemoryStore)
        ensures
            store@.meta == Seq::<MetaEntryView>::empty(),
            store@.secrets == Seq::<SecretRecordView>::empty(),
    {
        let store = MemoryStore { meta: Vec::new(), secrets: Vec::new() };
        assert(store@.meta =~= Seq::<MetaEntryView>::empty());
        assert(store@.secrets =~= Seq::<SecretRecordView>::empty());
        store
    }

    /// A store over rows that were stored before. Rows in which a key or a
    /// path stands twice make no store.
    pub fn from_rows(meta: Vec<MetaEntry>, secrets: Vec<SecretRecord>) -> (r: Option<MemoryStore>)
        ensures
            r is Some <==> unique_keys(meta_views(meta@)) && unique_paths(record_views(secrets@)),
            r matches Some(store) ==> store@.meta == meta_views(meta@) && store@.secrets
                == record_views(secrets@),
    {
        if check_unique_keys(&meta) && check_unique_paths(&secrets) {
            Some(MemoryStore { meta, secrets })
        } else {
            None
        }
    }

    /// The metadata, as it is to be stored.
    pub fn meta_rows(&self) -> (rows: &Vec<MetaEntry>)
        ensures
            meta_views(rows@) == self@.meta,
            unique_keys(self@.meta),
    {
        proof {
            use_type_invariant(self);
        }
        &self.meta
    }

    /// The records, as they are to be stored.
    pub fn secret_rows(&self) -> (rows: &Vec<SecretRecord>)
        ensures
            record_views(rows@) == self@.secrets,
            unique_paths(self@.secrets),
    {
        proof {
            use_type_invariant(self);
        }
        &self.secrets
    }

    /// The value of the metadata under `key`.
    pub fn get_meta(&self, key: &str) -> (r: Option<Vec<u8>>)
        ensures
            match r {
                Some(value) => meta_value(self@.meta, key@) == Some(value@),
                None => meta_value(self@.meta, key@) is None,
            },
            unique_keys(self@.meta),
    {
        proof {
            use_type_invariant(self);
        }
        match find_meta(&self.meta, key) {
            Some(i) => Some(self.meta[i].value.clone()),
            None => None,
        }
    }

    /// Puts `value` under `key` in the metadata, in the place of the value
    /// that was there. The secrets stay as they are.
    pub fn set_meta(&mut self, key: &str, value: &[u8])
        ensures
            final(self)@.meta == meta_put(old(self)@.meta, key@, value@),
            final(self)@.secrets == old(self)@.secrets,
            unique_keys(old(self)@.meta),
            unique_keys(final(self)@.meta),
    {
        proof {
            use_type_invariant(&*self);
        }
        let entry = MetaEntry { key: String::from_str(key), value: vstd::slice::slice_to_vec(value) };
        let mut meta: Vec<MetaEntry> = Vec::new();
        std::mem::swap(&mut self.meta, &mut meta);
        let ghost before = meta_views(meta@);
        match find_meta(&meta, key) {
            Some(i) => {
                meta.set(i, entry);
                assert(meta_views(meta@) =~= before.update(i as int, entry@));
                assert forall|a: int, b: int|
                    0 <= a < before.len() && 0 <= b < before.len() && a != b implies (
                #[trigger] before.update(i as int, entry@)[a]).key != (#[trigger] before.update(
                    i as int,
                    entry@,
                )[b]).key by {
                    assert(before[a].key != before[b].key);
                }
            },
            None => {
                meta.push(entry);
                assert(meta_views(meta@) =~= before.push(entry@));
                assert forall|a: int, b: int|
                    0 <= a <= before.len() && 0 <= b <= before.len() && a != b implies (
                #[trigger] before.push(entry@)[a]).key != (#[trigger] before.push(
                    entry@,
                )[b]).key by {
                    if a < before.len() && b < before.len() {
                        assert(before[a].key != before[b].key);
                    } else if a < before.len() {
                        assert(before[a].key != key@);
                    } else {
                        assert(before[b].key != key@);
                    }
                }
            },
        }
        self.meta = meta;
    }

    /// The sealed value stored under `path`.
    fn lookup(&self, path: &str) -> (r: Option<Vec<u8>>)
        ensures
            match r {
                Some(value) => secret_value(self@.secrets, path@) == Some(value@),
                None => secret_value(self@.secrets, path@) is None,
            },
            unique_paths(self@.secrets),
    {
        proof {
            use_type_invariant(self);
        }
        match find_secret(&self.secrets, path) {
            Some(i) => Some(self.secrets[i].encrypted_value.clone()),
            None => None,
        }
    }

    /// Whether a secret is stored under `path`.
    pub fn contains(&self, path: &str) -> (r: bool)
        ensures
            r == has_secret(self@.secrets, path@),
    {
        proof {
            use_type_invariant(self);
        }
        find_secret(&self.secrets, path).is_some()
    }

    /// Sets the secret of `path` at the instant `now`: a new record with the
    /// identifier `id` under a new path, and else the record that is there,
    /// with its value, level, tags and note replaced. The path, and the times
    /// in `info`, play no part. The metadata stays as it is.
    pub fn upsert(&mut self, path: &str, value: &[u8], info: &SecretInfo, id: String, now: i64)
        ensures
            final(self)@.secrets == upserted(
                old(self)@.secrets,
                path@,
                value@,
                info.access,
                info@.tags,
                info@.note,
                id@,
                now,
            ),
            final(self)@.meta == old(self)@.meta,
            unique_paths(old(self)@.secrets),
            unique_paths(final(self)@.secrets),
    {
        proof {
            use_type_invariant(&*self);
        }
        let mut secrets: Vec<SecretRecord> = Vec::new();
        std::mem::swap(&mut self.secrets, &mut secrets);
        let ghost before = record_views(secrets@);
        match find_secret(&secrets, path) {
            Some(i) => {
                let record = SecretRecord {
                    id: secrets[i].id.clone(),
                    info: SecretInfo {
                        path: String::from_str(path),
                        access: info.access,
                        tags: crate::clone_texts(&info.tags),
                        note: crate::text::clone_opt(&info.note),
                        created_at: secrets[i].info.created_at,
                        updated_at: now,
                    },
                    encrypted_value: vstd::slice::slice_to_vec(value),
                    created_by: secrets[i].created_by.clone(),
                };
                assert(before[i as int] == secrets@[i as int]@);
                secrets.set(i, record);
                assert(record_views(secrets@) =~= before.update(i as int, record@));
                assert forall|a: int, b: int|
                    0 <= a < before.len() && 0 <= b < before.len() && a != b implies (
                #[trigger] before.update(i as int, record@)[a]).info.path != (
                #[trigger] before.update(i as int, record@)[b]).info.path by {
                    assert(before[a].info.path != before[b].info.path);
                }
            },
            None => {
                let record = SecretRecord {
                    id,
                    info: SecretInfo {
                        path: String::from_str(path),
                        access: info.access,
                        tags: crate::clone_texts(&info.tags),
                        note: crate::text::clone_opt(&info.note),
                        created_at: now,
                        updated_at: now,
                    },
                    encrypted_value: vstd::slice::slice_to_vec(value),
                    created_by: String::from_str("human"),
                };
                secrets.push(record);
                assert(record_views(secrets@) =~= before.push(record@));
                assert forall|a: int, b: int|
                    0 <= a <= before.len() && 0 <= b <= before.len() && a != b implies (
                #[trigger] before.push(record@)[a]).info.path != (#[trigger] before.push(
                    record@,
                )[b]).info.path by {
                    if a < before.len() && b < before.len() {
                        assert(before[a].info.path != before[b].info.path);
                    } else if a < before.len() {
                        assert(before[a].info.path != path@);
                    } else {
                        assert(before[b].info.path != path@);
                    }
                }
            },
        }
        self.secrets = secrets;
    }

    /// Removes the secret of `path` and says whether there was one.
    fn remove(&mut self, path: &str) -> (existed: bool)
        ensures
            existed == has_secret(old(self)@.secrets, path@),
            final(self)@.secrets == removed(old(self)@.secrets, path@),
            final(self)@.meta == old(self)@.meta,
            unique_paths(old(self)@.secrets),
            unique_paths(final(self)@.secrets),
    {
        proof {
            use_type_invariant(&*self);
        }
        let mut secrets: Vec<SecretRecord> = Vec::new();
        std::mem::swap(&mut self.secrets, &mut secrets);
        let ghost before = record_views(secrets@);
        let existed = match find_secret(&secrets, path) {
            Some(i) => {
                let _ = secrets.remove(i);
                assert(record_views(secrets@) =~= before.remove(i as int));
                assert forall|a: int, b: int|
                    0 <= a < before.len() - 1 && 0 <= b < before.len() - 1 && a != b implies (
                #[trigger] before.remove(i as int)[a]).info.path != (#[trigger] before.remove(
                    i as int,
                )[b]).info.path by {
                    let a0 = if a < i {
                        a
                    } else {
                        a + 1
                    };
                    let b0 = if b < i {
                        b
                    } else {
                        b + 1
                    };
                    assert(before[a0].info.path != before[b0].info.path);
                }
                true
            },
            None => false,
        };
        self.secrets = secrets;
        existed
    }

    /// The descriptions of the secrets whose path the pattern matches.
    fn describe(&self, pattern: Option<&str>) -> (found: Vec<SecretInfo>)
        ensures
            info_views(found@) == listing(
                self@.secrets,
                match pattern {
                    Some(p) => Some(p@),
                    None => None,
                },
            ),
    {
        let ghost wanted = match pattern {
            Some(p) => Some(p@),
            None => None,
        };
        let ghost pred = |r: SecretRecordView| listed_path(wanted, r.info.path);
        let ghost all = record_views(self.secrets@);
        let pattern_chars: Option<Vec<char>> = match pattern {
            Some(p) => Some(to_chars(p)),
            None => None,
        };
        let mut found: Vec<SecretInfo> = Vec::new();
        let ghost mut kept: Seq<SecretRecordView> = Seq::empty();
        let mut i: usize = 0;
        proof {
            reveal(Seq::filter);
            assert(all.take(0) =~= Seq::<SecretRecordView>::empty());
            assert(info_views(found@) =~= kept.map_values(|r: SecretRecordView| r.info));
        }
        while i < self.secrets.len()
            invariant
                i <= self.secrets@.len(),
                all == record_views(self.secrets@),
                pred == (|r: SecretRecordView| listed_path(wanted, r.info.path)),
                match pattern_chars {
                    Some(chars) => wanted == Some(chars@),
                    None => wanted is None,
                },
                kept == all.take(i as int).filter(pred),
                found@.len() == kept.len(),
                info_views(found@) == kept.map_values(|r: SecretRecordView| r.info),
            decreases self.secrets@.len() - i,
        {
            let record = &self.secrets[i];
            let wanted_here = match &pattern_chars {
                Some(chars) => {
                    let path_chars = to_chars(record.info.path.as_str());
                    check_glob(chars.as_slice(), path_chars.as_slice())
                },
                None => true,
            };
            proof {
                reveal(Seq::filter);
                let upto = all.take(i + 1);
                assert(upto.drop_last() =~= all.take(i as int));
                assert(upto.last() == record@);
                assert(wanted_here == pred(record@));
            }
            if wanted_here {
                let ghost before = found@;
                let info = record.info.duplicate();
                found.push(info);
                proof {
                    let next = kept.push(record@);
                    assert forall|k: int| 0 <= k < next.len() implies info_views(found@)[k]
                        == next.map_values(|r: SecretRecordView| r.info)[k] by {
                        if k < kept.len() {
                            assert(info_views(before)[k] == kept.map_values(
                                |r: SecretRecordView| r.info,
                            )[k]);
                        }
                    }
                    assert(info_views(found@) =~= next.map_values(|r: SecretRecordView| r.info));
                    kept = next;
                }
            }
            i += 1;
        }
        assert(all.take(i as int) =~= all);
        found
    }
}

/// What a store of secrets offers to a vault. The vault's owner may put a
/// store of their own behind it; a store may fail, and then it has changed
/// nothing.
pub trait SecretStore {
    /// The records that the store holds, in the order in which the paths
    /// first came.
    spec fn records(&self) -> Seq<SecretRecordView>;

    /// The sealed value stored under `path`.
    fn get(&self, path: &str) -> (r: Result<Option<Vec<u8>>, Error>)
        ensures
            r matches Ok(found) ==> match found {
                Some(value) => secret_value(self.records(), path@) == Some(value@),
                None => secret_value(self.records(), path@) is None,
            },
    ;

    /// Sets the secret of `path`: a new record under a new path, and else
    /// the record that is there, with its value, level, tags and note
    /// replaced.
    fn set(&mut self, path: &str, value: &[u8], info: &SecretInfo) -> (r: Result<(), Error>)
        ensures
            match r {
                Ok(()) => exists|id: Seq<char>, now: i64|
                    final(self).records() == #[trigger] upserted(
                        old(self).records(),
                        path@,
                        value@,
                        info.access,
                        info@.tags,
                        info@.note,
                        id,
                        now,
                    ),
                Err(_) => final(self).records() == old(self).records(),
            },
    ;

    /// Removes the secret of `path` and says whether there was one.
    fn delete(&mut self, path: &str) -> (r: Result<bool, Error>)
        ensures
            match r {
                Ok(existed) => {
                    &&& existed == has_secret(old(self).records(), path@)
                    &&& final(self).records() == removed(old(self).records(), path@)
                },
                Err(_) => final(self).records() == old(self).records(),
            },
    ;

    /// The descriptions of the secrets whose path the pattern matches, or of
    /// all where no pattern is given.
    fn list(&self, pattern: Option<&str>) -> (r: Result<Vec<SecretInfo>, Error>)
        ensures
            r matches Ok(found) ==> info_views(found@) == listing(
                self.records(),
                match pattern {
                    Some(p) => Some(p@),
                    None => None,
                },
            ),
    ;
}

impl SecretStore for MemoryStore {
    open spec fn records(&self) -> Seq<SecretRecordView> {
        self@.secrets
    }

    /// The sealed value stored under `path`. The store in memory never
    /// fails.
    fn get(&self, path: &str) -> (outcome: Result<Option<Vec<u8>>, Error>)
        ensures
            outcome is Ok,
            unique_paths(self@.secrets),
    {
        Ok(self.lookup(path))
    }

    /// Sets the secret of `path` now, with a fresh identifier where the path
    /// is new. The metadata stays as it is. The store in memory never fails.
    fn set(&mut self, path: &str, value: &[u8], info: &SecretInfo) -> (outcome: Result<(), Error>)
        ensures
            outcome is Ok,
            final(self)@.meta == old(self)@.meta,
            unique_paths(old(self)@.secrets),
            unique_paths(final(self)@.secrets),
    {
        let id = fresh_id();
        let now = unix_now();
        let ghost id_text = id@;
        self.upsert(path, value, info, id, now);
        assert(self.records() == upserted(
            old(self).records(),
            path@,
            value@,
            info.access,
            info@.tags,
            info@.note,
            id_text,
            now,
        ));
        Ok(())
    }

    /// Removes the secret of `path` and says whether there was one. The
    /// other secrets keep their order, and the metadata stays as it is. The
    /// store in memory never fails.
    fn delete(&mut self, path: &str) -> (outcome: Result<bool, Error>)
        ensures
            outcome is Ok,
            final(self)@.meta == old(self)@.meta,
            unique_paths(old(self)@.secrets),
            unique_paths(final(self)@.secrets),
    {
        Ok(self.remove(path))
    }

    /// The descriptions of the secrets whose path the pattern matches, or of
    /// all where no pattern is given, in the order in which the secrets were
    /// first set. No value is opened. The store in memory never fails.
    fn list(&self, pattern: Option<&str>) -> (outcome: Result<Vec<SecretInfo>, Error>)
        ensures
            outcome is Ok,
    {
        Ok(self.describe(pattern))
    }
}

/// Among records with unique paths, the record of a path stands where any
/// record of that path stands.
pub proof fn lemma_secret_index(records: Seq<SecretRecordView>, path: Seq<char>, i: int)
    requires
        unique_paths(records),
        0 <= i < records.len(),
        records[i].info.path == path,
    ensures
        has_secret(records, path),
        secret_index(records, path) == i,
        secret_value(records, path) == Some(records[i].encrypted_value),
{
    let c = secret_index(records, path);
    assert(0 <= c < records.len() && records[c].info.path == path);
    if c != i {
        assert(records[c].info.path != records[i].info.path);
    }
}

/// In metadata with unique keys, the value of a key stands where any value
/// of that key stands.
pub proof fn lemma_meta_index(meta: Seq<MetaEntryView>, key: Seq<char>, i: int)
    requires
        unique_keys(meta),
        0 <= i < meta.len(),
        meta[i].key == key,
    ensures
        has_meta(meta, key),
        meta_index(meta, key) == i,
        meta_value(meta, key) == Some(meta[i].value),
{
    let c = meta_index(meta, key);
    assert(0 <= c < meta.len() && meta[c].key == key);
    if c != i {
        assert(meta[c].key != meta[i].key);
    }
}

/// What is put under a key is what is found there afterwards, and every
/// other key holds what it held.
pub proof fn lemma_meta_put(
    meta: Seq<MetaEntryView>,
    key: Seq<char>,
    value: Seq<u8>,
    other: Seq<char>,
)
    requires
        unique_keys(meta),
    ensures
        unique_keys(meta_put(meta, key, value)),
        meta_value(meta_put(meta, key, value), key) == Some(value),
        other != key ==> meta_value(meta_put(meta, key, value), other) == meta_value(meta, other),
{
    let after = meta_put(meta, key, value);
    let entry = MetaEntryView { key, value };
    if has_meta(meta, key) {
        let i = meta_index(meta, key);
        assert(0 <= i < meta.len() && meta[i].key == key);
        assert forall|a: int, b: int|
            0 <= a < after.len() && 0 <= b < after.len() && a != b implies (
        #[trigger] after[a]).key != (#[trigger] after[b]).key by {
            assert(meta[a].key != meta[b].key);
        }
        lemma_meta_index(after, key, i);
        if other != key {
            if has_meta(meta, other) {
                let j = meta_index(meta, other);
                assert(0 <= j < meta.len() && meta[j].key == other);
                assert(after[j] == meta[j]);
                lemma_meta_index(after, other, j);
            } else if has_meta(after, other) {
                let j = meta_index(after, other);
                assert(0 <= j < after.len() && after[j].key == other);
                assert(meta[j].key == other);
            }
        }
    } else {
        assert forall|a: int, b: int|
            0 <= a < after.len() && 0 <= b < after.len() && a != b implies (
        #[trigger] after[a]).key != (#[trigger] after[b]).key by {
            if a < meta.len() && b < meta.len() {
                assert(meta[a].key != meta[b].key);
            } else if a < meta.len() {
                assert(meta[a].key != key);
            } else {
                assert(meta[b].key != key);
            }
        }
        lemma_meta_index(after, key, meta.len() as int);
        if other != key {
            if has_meta(meta, other) {
                let j = meta_index(meta, other);
                assert(0 <= j < meta.len() && meta[j].key == other);
                assert(after[j] == meta[j]);
                lemma_meta_index(after, other, j);
            } else if has_meta(after, other) {
                let j = meta_index(after, other);
                assert(0 <= j < after.len() && after[j].key == other);
                assert(meta[j].key == other);
            }
        }
    }
}

/// A secret that has been set is stored once, under its path, with the value
/// it was set to; every other path holds what it held.
pub proof fn lemma_upserted(
    records: Seq<SecretRecordView>,
    path: Seq<char>,
    value: Seq<u8>,
    access: AccessLevel,
    tags: Seq<Seq<char>>,
    note: Option<Seq<char>>,
    id: Seq<char>,
    now: i64,
    other: Seq<char>,
)
    requires
        unique_paths(records),
    ensures
        unique_paths(upserted(records, path, value, access, tags, note, id, now)),
        has_secret(upserted(records, path, value, access, tags, note, id, now), path),
        secret_value(upserted(records, path, value, access, tags, note, id, now), path) == Some(value),
        other != path ==> has_secret(upserted(records, path, value, access, tags, note, id, now), other)
            == has_secret(records, other),
        other != path ==> secret_value(upserted(records, path, value, access, tags, note, id, now), other)
            == secret_value(records, other),
{
    let after = upserted(records, path, value, access, tags, note, id, now);
    let at = if has_secret(records, path) {
        secret_index(records, path)
    } else {
        records.len() as int
    };
    if has_secret(records, path) {
        assert(0 <= at < records.len() && records[at].info.path == path);
        assert forall|a: int, b: int|
            0 <= a < after.len() && 0 <= b < after.len() && a != b implies (
        #[trigger] after[a]).info.path != (#[trigger] after[b]).info.path by {
            assert(records[a].info.path != records[b].info.path);
        }
    } else {
        assert forall|a: int, b: int|
            0 <= a < after.len() && 0 <= b < after.len() && a != b implies (
        #[trigger] after[a]).info.path != (#[trigger] after[b]).info.path by {
            if a < records.len() && b < records.len() {
                assert(records[a].info.path != records[b].info.path);
            } else if a < records.len() {
                assert(records[a].info.path != path);
            } else {
                assert(records[b].info.path != path);
            }
        }
    }
    lemma_secret_index(after, path, at);
    if other != path {
        if has_secret(records, other) {
            let j = secret_index(records, other);
            assert(0 <= j < records.len() && records[j].info.path == other);
            assert(after[j] == records[j]);
            lemma_secret_index(after, other, j);
        } else if has_secret(after, other) {
            let j = secret_index(after, other);
            assert(0 <= j < after.len() && after[j].info.path == other);
            assert(records[j].info.path == other);
        }
    }
}

/// The level, the tags and the note that go with a secret.
pub struct SecretAttrs {
    pub access: AccessLevel,
    pub tags: Seq<Seq<char>>,
    pub note: Option<Seq<char>>,
}

/// Setting one path twice leaves exactly one record under it: it holds the
/// value, level, tags and note of the second setting, and was made when the
/// record that the first setting left was made.
pub proof fn lemma_set_twice(
    records: Seq<SecretRecordView>,
    path: Seq<char>,
    first: Seq<u8>,
    first_attrs: SecretAttrs,
    first_id: Seq<char>,
    first_now: i64,
    second: Seq<u8>,
    second_attrs: SecretAttrs,
    second_id: Seq<char>,
    second_now: i64,
)
    requires
        unique_paths(records),
    ensures
        ({
            let once = upserted(
                records,
                path,
                first,
                first_attrs.access,
                first_attrs.tags,
                first_attrs.note,
                first_id,
                first_now,
            );
            let twice = upserted(
                once,
                path,
                second,
                second_attrs.access,
                second_attrs.tags,
                second_attrs.note,
                second_id,
                second_now,
            );
            let i = secret_index(twice, path);
            &&& twice.len() == once.len()
            &&& 0 <= i < twice.len()
            &&& forall|k: int|
                0 <= k < twice.len() && (#[trigger] twice[k]).info.path == path ==> k == i
            &&& twice[i].encrypted_value == second
            &&& twice[i].info.access == second_attrs.access
            &&& twice[i].info.tags == second_attrs.tags
            &&& twice[i].info.note == second_attrs.note
            &&& twice[i].info.created_at == once[secret_index(once, path)].info.created_at
            &&& twice[i].info.updated_at == second_now
            &&& twice[i].id == once[secret_index(once, path)].id
            &&& !has_secret(records, path) ==> twice[i].info.created_at == first_now
        }),
{
    let once = upserted(
        records,
        path,
        first,
        first_attrs.access,
        first_attrs.tags,
        first_attrs.note,
        first_id,
        first_now,
    );
    lemma_upserted(
        records,
        path,
        first,
        first_attrs.access,
        first_attrs.tags,
        first_attrs.note,
        first_id,
        first_now,
        path,
    );
    let at = secret_index(once, path);
    assert(0 <= at < once.len() && once[at].info.path == path);
    let twice = upserted(
        once,
        path,
        second,
        second_attrs.access,
        second_attrs.tags,
        second_attrs.note,
        second_id,
        second_now,
    );
    lemma_upserted(
        once,
        path,
        second,
        second_attrs.access,
        second_attrs.tags,
        second_attrs.note,
        second_id,
        second_now,
        path,
    );
    lemma_secret_index(twice, path, at);
    assert forall|k: int| 0 <= k < twice.len() && (#[trigger] twice[k]).info.path == path implies k
        == at by {
        if k != at {
            assert(twice[k].info.path != twice[at].info.path);
        }
    }
    if !has_secret(records, path) {
        lemma_secret_index(once, path, records.len() as int);
    }
}

/// After a path has been removed no secret is stored under it, and every
/// other path holds what it held. Removing a path that holds nothing changes
/// nothing.
pub proof fn lemma_removed(records: Seq<SecretRecordView>, path: Seq<char>, other: Seq<char>)
    requires
        unique_paths(records),
    ensures
        unique_paths(removed(records, path)),
        !has_secret(removed(records, path), path),
        !has_secret(records, path) ==> removed(records, path) == records,
        other != path ==> secret_value(removed(records, path), other) == secret_value(
            records,
            other,
        ),
{
    let after = removed(records, path);
    if has_secret(records, path) {
        let i = secret_index(records, path);
        assert(0 <= i < records.len() && records[i].info.path == path);
        assert forall|a: int, b: int|
            0 <= a < after.len() && 0 <= b < after.len() && a != b implies (
        #[trigger] after[a]).info.path != (#[trigger] after[b]).info.path by {
            let a0 = if a < i {
                a
            } else {
                a + 1
            };
            let b0 = if b < i {
                b
            } else {
                b + 1
            };
            assert(records[a0].info.path != records[b0].info.path);
        }
        if has_secret(after, path) {
            let j = secret_index(after, path);
            assert(0 <= j < after.len() && after[j].info.path == path);
            let j0 = if j < i {
                j
            } else {
                j + 1
            };
            assert(records[j0].info.path != records[i].info.path);
        }
        if other != path {
            if has_secret(records, other) {
                let j = secret_index(records, other);
                assert(0 <= j < records.len() && records[j].info.path == other);
                let j1 = if j < i {
                    j
                } else {
                    j - 1
                };
                assert(after[j1] == records[j]);
                lemma_secret_index(after, other, j1);
            } else if has_secret(after, other) {
                let j = secret_index(after, other);
                assert(0 <= j < after.len() && after[j].info.path == other);
                let j0 = if j < i {
                    j
                } else {
                    j + 1
                };
                assert(records[j0].info.path == other);
            }
        }
    }
}

/// A listing hands out only secrets that are stored and that the pattern
/// asks for: under a pattern that ends in its only `*`, only paths that begin
/// with what stands before the `*`.
pub proof fn lemma_listing_prefix(records: Seq<SecretRecordView>, prefix: Seq<char>, k: int)
    requires
        forall|c: int| 0 <= c < prefix.len() ==> prefix[c] != '*',
        0 <= k < listing(records, Some(prefix.push('*'))).len(),
    ensures
        prefix.is_prefix_of(listing(records, Some(prefix.push('*')))[k].path),
        exists|i: int|
            0 <= i < records.len() && (#[trigger] records[i]).info == listing(
                records,
                Some(prefix.push('*')),
            )[k],
{
    let pattern = Some(prefix.push('*'));
    let pred = |r: SecretRecordView| listed_path(pattern, r.info.path);
    let kept = records.filter(pred);
    records.lemma_filter_pred(pred, k);
    assert(pred(kept[k]));
    lemma_glob_prefix(prefix, kept[k].info.path);
    assert(kept.contains(kept[k]));
    records.lemma_filter_contains_rev(pred, kept[k]);
    let i = choose|i: int| 0 <= i < records.len() && records[i] == kept[k];
    assert(records[i].info == listing(records, pattern)[k]);
}

/// With no pattern, a listing describes every secret, in order.
pub proof fn lemma_listing_all(records: Seq<SecretRecordView>)
    ensures
        listing(records, None) == records.map_values(|r: SecretRecordView| r.info),
{
    lemma_keeps_all(records);
}

/// A listing without a pattern keeps every record.
proof fn lemma_keeps_all(records: Seq<SecretRecordView>)
    ensures
        records.filter(|r: SecretRecordView| listed_path(None, r.info.path)) == records,
    decreases records.len(),
{
    reveal(Seq::filter);
    let pred = |r: SecretRecordView| listed_path(None, r.info.path);
    if records.len() > 0 {
        lemma_keeps_all(records.drop_last());
        assert(pred(records.last()));
        assert(records.drop_last().push(records.last()) =~= records);
    }
}

} // verus!
