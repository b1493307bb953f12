//! The audit ledger: an append-only log whose entries are chained by hash,
//! so that an entry changed, removed or moved afterwards is found out.

use crate::text::{check_contains, clone_opt, hex_encode, hex_text, lemma_hex_text_injective, opt_text, str_eq, to_chars, contains};
use crate::Actor;
use sha2::Digest;
use vstd::prelude::*;
use vstd::string::*;

verus! {

/// What was done to the vault.
#[derive(Debug, Clone, Copy, PartialEq, Eq, Structural)]
pub enum Action {
    Read,
    Write,
    Delete,
    Export,
    Unlock,
    Lock,
    Init,
}

impl Action {
    /// The name under which an action is stored and hashed.
    pub open spec fn name(self) -> Seq<char> {
        match self {
            Action::Read => "read"@,
            Action::Write => "write"@,
            Action::Delete => "delete"@,
            Action::Export => "export"@,
            Action::Unlock => "unlock"@,
            Action::Lock => "lock"@,
            Action::Init => "init"@,
        }
    }

    /// The action stored under `text`, if it is the name of one.
    pub open spec fn named(text: Seq<char>) -> Option<Action> {
        if text == "read"@ {
            Some(Action::Read)
        } else if text == "write"@ {
            Some(Action::Write)
        } else if text == "delete"@ {
            Some(Action::Delete)
        } else if text == "export"@ {
            Some(Action::Export)
        } else if text == "unlock"@ {
            Some(Action::Unlock)
        } else if text == "lock"@ {
            Some(Action::Lock)
        } else if text == "init"@ {
            Some(Action::Init)
        } else {
            None
        }
    }

    /// The name under which the action is stored and hashed.
    pub fn as_str(&self) -> (s: &'static str)
        ensures
            s@ == self.name(),
    {
        match self {
            Action::Read => "read",
            Action::Write => "write",
            Action::Delete => "delete",
            Action::Export => "export",
            Action::Unlock => "unlock",
            Action::Lock => "lock",
            Action::Init => "init",
        }
    }

    /// The action of a stored name, or `None` for any other text.
    pub fn from_str(s: &str) -> (r: Option<Action>)
        ensures
            r == Action::named(s@),
    {
        if str_eq(s, "read") {
            Some(Action::Read)
        } else if str_eq(s, "write") {
            Some(Action::Write)
        } else if str_eq(s, "delete") {
            Some(Action::Delete)
        } else if str_eq(s, "export") {
            Some(Action::Export)
        } else if str_eq(s, "unlock") {
            Some(Action::Unlock)
        } else if str_eq(s, "lock") {
            Some(Action::Lock)
        } else if str_eq(s, "init") {
            Some(Action::Init)
        } else {
            None
        }
    }

    /// Every action is read back from its own name.
    pub proof fn lemma_name_round_trip(action: Action)
        ensures
            Action::named(action.name()) == Some(action),
    {
        reveal_strlit("read");
        reveal_strlit("write");
        reveal_strlit("delete");
        reveal_strlit("export");
        reveal_strlit("unlock");
        reveal_strlit("lock");
        reveal_strlit("init");
        assert("read"@[0] == 'r');
        assert("write"@[0] == 'w');
        assert("delete"@[0] == 'd');
        assert("export"@[0] == 'e');
        assert("unlock"@[0] == 'u');
        assert("lock"@[0] == 'l');
        assert("init"@[0] == 'i');
    }
}

/// Where a request came from.
#[derive(Debug, Clone)]
pub enum Source {
    CLI { pwd: String },
    App,
    API,
}

/// What a `Source` says.
pub enum SourceView {
    CLI { pwd: Seq<char> },
    App,
    API,
}

impl View for Source {
    type V = SourceView;

    open spec fn view(&self) -> SourceView {
        match self {
            Source::CLI { pwd } => SourceView::CLI { pwd: pwd@ },
            Source::App => SourceView::App,
            Source::API => SourceView::API,
        }
    }
}

impl Source {
    /// A copy that says the same.
    pub fn duplicate(&self) -> (copy: Source)
        ensures
            copy@ == self@,
    {
        match self {
            Source::CLI { pwd } => Source::CLI { pwd: pwd.clone() },
            Source::App => Source::App,
            Source::API => Source::API,
        }
    }
}

/// The kind of an actor and the name it goes by.
#[derive(Debug, Clone)]
pub struct ActorInfo {
    pub actor_type: String,
    pub identifier: String,
}

/// What an `ActorInfo` says.
pub struct ActorInfoView {
    pub actor_type: Seq<char>,
    pub identifier: Seq<char>,
}

impl View for ActorInfo {
    type V = ActorInfoView;

    open spec fn view(&self) -> ActorInfoView {
        ActorInfoView { actor_type: self.actor_type@, identifier: self.identifier@ }
    }
}

/// What `ActorInfo::from_actor` records of an actor.
pub open spec fn actor_info_of(actor: Actor) -> ActorInfoView {
    match actor {
        Actor::Human { device } => ActorInfoView { actor_type: "human"@, identifier: device@ },
        Actor::AI { agent } => ActorInfoView { actor_type: "ai"@, identifier: agent@ },
        Actor::App { name } => ActorInfoView { actor_type: "app"@, identifier: name@ },
    }
}

/// Calls `whoami::username`. The name depends on the machine and the
/// session, so nothing is claimed of it.
#[verifier::external_body]
fn current_username() -> String {
    whoami::username()
}

impl ActorInfo {
    /// The human at the keyboard, under the name of the logged-in user.
    pub fn human() -> (info: ActorInfo)
        ensures
            info@.actor_type == "human"@,
    {
        ActorInfo::human_named(current_username())
    }

    /// A human of the given name.
    pub fn human_named(name: String) -> (info: ActorInfo)
        ensures
            info@ == (ActorInfoView { actor_type: "human"@, identifier: name@ }),
    {
        ActorInfo { actor_type: String::from_str("human"), identifier: name }
    }

    /// An AI agent of the given name.
    pub fn ai(agent: &str) -> (info: ActorInfo)
        ensures
            info@ == (ActorInfoView { actor_type: "ai"@, identifier: agent@ }),
    {
        ActorInfo { actor_type: String::from_str("ai"), identifier: String::from_str(agent) }
    }

    /// The record of an actor: its kind in words, and its name.
    pub fn from_actor(actor: &Actor) -> (info: ActorInfo)
        ensures
            info@ == actor_info_of(*actor),
    {
        match actor {
            Actor::Human { device } => ActorInfo {
                actor_type: String::from_str("human"),
                identifier: device.clone(),
            },
            Actor::AI { agent } => ActorInfo {
                actor_type: String::from_str("ai"),
                identifier: agent.clone(),
            },
            Actor::App { name } => ActorInfo {
                actor_type: String::from_str("app"),
                identifier: name.clone(),
            },
        }
    }

    /// A copy that says the same.
    pub fn duplicate(&self) -> (copy: ActorInfo)
        ensures
            copy@ == self@,
    {
        ActorInfo { actor_type: self.actor_type.clone(), identifier: self.identifier.clone() }
    }
}

impl Default for ActorInfo {
    fn default() -> (info: ActorInfo)
        ensures
            info@ == (ActorInfoView { actor_type: Seq::empty(), identifier: Seq::empty() }),
    {
        ActorInfo { actor_type: String::new(), identifier: String::new() }
    }
}

/// The SHA-256 digest of `data`: what `sha2::Sha256::digest` returns.
pub uninterp spec fn sha256(data: Seq<u8>) -> Seq<u8>;

/// The RFC 3339 text of the instant `secs` seconds after the Unix epoch, in
/// UTC: what `chrono::DateTime::to_rfc3339` returns for it, or `None` where
/// `chrono::DateTime::from_timestamp` finds the instant out of range.
pub uninterp spec fn rfc3339_utc(secs: i64) -> Option<Seq<char>>;

/// Calls `sha2::Sha256::digest` (the `Digest` trait). Trusted: the digest
/// depends on the data alone and is 32 bytes long.
#[verifier::external_body]
fn sha256_digest(data: &[u8]) -> (digest: Vec<u8>)
    ensures
        digest@ == sha256(data@),
        digest@.len() == 32,
{
    sha2::Sha256::digest(data).to_vec()
}

/// Calls `chrono::DateTime::from_timestamp` with no nanoseconds and, where
/// that gives an instant, `chrono::DateTime::to_rfc3339` on it. Trusted: the
/// outcome depends on the number of seconds alone.
#[verifier::external_body]
fn rfc3339(secs: i64) -> (r: Option<String>)
    ensures
        match r {
            Some(text) => rfc3339_utc(secs) == Some(text@),
            None => rfc3339_utc(secs) is None,
        },
{
    chrono::DateTime::from_timestamp(secs, 0).map(|instant| instant.to_rfc3339())
}

/// Calls `uuid::Uuid::new_v4` and writes the identifier out. It is random,
/// so nothing is claimed of it.
#[verifier::external_body]
pub(crate) fn fresh_id() -> String {
    uuid::Uuid::new_v4().to_string()
}

/// Calls `chrono::Utc::now` and takes its whole seconds since the Unix
/// epoch. It is the time of day, so nothing is claimed of it.
#[verifier::external_body]
pub(crate) fn unix_now() -> i64 {
    chrono::Utc::now().timestamp()
}

/// The text under which a timestamp is hashed: its RFC 3339 form, and that of
/// the epoch for an instant out of range.
pub open spec fn timestamp_text(secs: i64) -> Seq<char> {
    match rfc3339_utc(secs) {
        Some(text) => text,
        None => match rfc3339_utc(0) {
            Some(text) => text,
            None => Seq::empty(),
        },
    }
}

/// The text under which a timestamp is hashed.
pub fn format_timestamp(secs: i64) -> (text: String)
    ensures
        text@ == timestamp_text(secs),
{
    match rfc3339(secs) {
        Some(text) => text,
        None => match rfc3339(0) {
            Some(text) => text,
            None => String::new(),
        },
    }
}

/// One line of the ledger.
#[derive(Debug, Clone)]
pub struct AuditEntry {
    pub id: String,
    /// Whole seconds since the Unix epoch.
    pub timestamp: i64,
    pub actor: ActorInfo,
    pub action: Action,
    pub key_path: String,
    pub success: bool,
    pub error_message: Option<String>,
    pub source: Source,
    /// The digest over this entry and the hash before it, once logged.
    pub hash: Option<String>,
    /// The hash of the entry logged before this one, once logged.
    pub prev_hash: Option<String>,
}

/// What an `AuditEntry` says.
pub struct AuditEntryView {
    pub id: Seq<char>,
    pub timestamp: i64,
    pub actor: ActorInfoView,
    pub action: Action,
    pub key_path: Seq<char>,
    pub success: bool,
    pub error_message: Option<Seq<char>>,
    pub source: SourceView,
    pub hash: Option<Seq<char>>,
    pub prev_hash: Option<Seq<char>>,
}

impl View for AuditEntry {
    type V = AuditEntryView;

    open spec fn view(&self) -> AuditEntryView {
        AuditEntryView {
            id: self.id@,
            timestamp: self.timestamp,
            actor: self.actor@,
            action: self.action,
            key_path: self.key_path@,
            success: self.success,
            error_message: opt_text(self.error_message),
            source: self.source@,
            hash: opt_text(self.hash),
            prev_hash: opt_text(self.prev_hash),
        }
    }
}

/// The UTF-8 bytes of a text.
pub open spec fn utf8(text: Seq<char>) -> Seq<u8> {
    vstd::utf8::encode_utf8(text)
}

/// The byte that stands for the outcome in the hashed bytes: the digit 1 for
/// success, 0 for failure.
pub open spec fn success_mark(success: bool) -> u8 {
    if success {
        0x31u8
    } else {
        0x30u8
    }
}

/// The bytes of an entry from the identifier up to the key path.
pub open spec fn preimage_head(e: AuditEntryView) -> Seq<u8> {
    utf8(e.id) + utf8(timestamp_text(e.timestamp)) + utf8(e.actor.actor_type) + utf8(
        e.action.name(),
    ) + utf8(e.key_path)
}

/// The bytes of the hash before, or none for the first entry.
pub open spec fn preimage_tail(prev_hash: Option<Seq<char>>) -> Seq<u8> {
    match prev_hash {
        Some(hash) => utf8(hash),
        None => Seq::empty(),
    }
}

/// The bytes that are hashed for an entry: identifier, timestamp, kind of
/// actor, action, key path and outcome, followed by the hash before it.
pub open spec fn hash_preimage(e: AuditEntryView, prev_hash: Option<Seq<char>>) -> Seq<u8> {
    preimage_head(e).push(success_mark(e.success)) + preimage_tail(prev_hash)
}

/// The hash of an entry that follows `prev_hash`: the SHA-256 digest of its
/// bytes, in hexadecimal.
pub open spec fn entry_hash(e: AuditEntryView, prev_hash: Option<Seq<char>>) -> Seq<char> {
    hex_text(sha256(hash_preimage(e, prev_hash)))
}

/// The entry as the ledger stores it after `prev_hash`: with its hash, and
/// with the hash before it.
pub open spec fn linked(e: AuditEntryView, prev_hash: Option<Seq<char>>) -> AuditEntryView {
    AuditEntryView { hash: Some(entry_hash(e, prev_hash)), prev_hash: prev_hash, ..e }
}

impl AuditEntry {
    /// A new entry for what has just been done, with a fresh identifier and
    /// the time now. It names no actor yet, comes from the command line with
    /// no working directory, and is not yet linked.
    pub fn new(action: Action, key_path: &str, success: bool) -> (entry: AuditEntry)
        ensures
            entry@.action == action,
            entry@.key_path == key_path@,
            entry@.success == success,
            entry@.error_message is None,
            entry@.actor == (ActorInfoView { actor_type: Seq::empty(), identifier: Seq::empty() }),
            entry@.source == (SourceView::CLI { pwd: Seq::empty() }),
            entry@.hash is None,
            entry@.prev_hash is None,
    {
        AuditEntry::stamped(fresh_id(), unix_now(), action, key_path, success)
    }

    /// A new entry of the given identifier and instant. It names no actor
    /// yet, comes from the command line with no working directory, and is not
    /// yet linked.
    pub fn stamped(id: String, timestamp: i64, action: Action, key_path: &str, success: bool) -> (entry:
        AuditEntry)
        ensures
            entry@ == (AuditEntryView {
                id: id@,
                timestamp,
                actor: ActorInfoView { actor_type: Seq::empty(), identifier: Seq::empty() },
                action,
                key_path: key_path@,
                success,
                error_message: None,
                source: SourceView::CLI { pwd: Seq::empty() },
                hash: None,
                prev_hash: None,
            }),
    {
        AuditEntry {
            id,
            timestamp,
            actor: ActorInfo::default(),
            action,
            key_path: String::from_str(key_path),
            success,
            error_message: None,
            source: Source::CLI { pwd: String::new() },
            hash: None,
            prev_hash: None,
        }
    }

    /// The entry with an error message.
    pub fn with_error(self, msg: &str) -> (entry: AuditEntry)
        ensures
            entry@ == (AuditEntryView { error_message: Some(msg@), ..self@ }),
    {
        let mut entry = self;
        entry.error_message = Some(String::from_str(msg));
        entry
    }

    /// The entry with an actor.
    pub fn with_actor(self, actor: ActorInfo) -> (entry: AuditEntry)
        ensures
            entry@ == (AuditEntryView { actor: actor@, ..self@ }),
    {
        let mut entry = self;
        entry.actor = actor;
        entry
    }

    /// The entry with the place the request came from.
    pub fn with_source(self, source: Source) -> (entry: AuditEntry)
        ensures
            entry@ == (AuditEntryView { source: source@, ..self@ }),
    {
        let mut entry = self;
        entry.source = source;
        entry
    }

    /// A copy that says the same.
    pub fn duplicate(&self) -> (copy: AuditEntry)
        ensures
            copy@ == self@,
    {
        AuditEntry {
            id: self.id.clone(),
            timestamp: self.timestamp,
            actor: self.actor.duplicate(),
            action: self.action,
            key_path: self.key_path.clone(),
            success: self.success,
            error_message: clone_opt(&self.error_message),
            source: self.source.duplicate(),
            hash: clone_opt(&self.hash),
            prev_hash: clone_opt(&self.prev_hash),
        }
    }

    /// The bytes that are hashed for the entry after `prev_hash`.
    pub fn preimage(&self, prev_hash: Option<&str>) -> (bytes: Vec<u8>)
        ensures
            bytes@ == hash_preimage(
                self@,
                match prev_hash {
                    Some(hash) => Some(hash@),
                    None => None,
                },
            ),
    {
        let mut bytes: Vec<u8> = Vec::new();
        bytes.extend_from_slice(self.id.as_str().as_bytes());
        let stamp = format_timestamp(self.timestamp);
        bytes.extend_from_slice(stamp.as_str().as_bytes());
        bytes.extend_from_slice(self.actor.actor_type.as_str().as_bytes());
        bytes.extend_from_slice(self.action.as_str().as_bytes());
        bytes.extend_from_slice(self.key_path.as_str().as_bytes());
        if self.success {
            bytes.push(0x31u8);
        } else {
            bytes.push(0x30u8);
        }
        match prev_hash {
            Some(hash) => {
                bytes.extend_from_slice(hash.as_bytes());
            },
            None => {
                assert(bytes@ + Seq::<u8>::empty() =~= bytes@);
            },
        }
        bytes
    }

    /// Whether the entry carries the hash that its fields give after
    /// `prev_hash`.
    pub fn carries_hash_after(&self, prev_hash: &Option<String>) -> (r: bool)
        ensures
            r == (self@.hash == Some(entry_hash(self@, opt_text(*prev_hash)))),
    {
        let computed = match prev_hash {
            Some(p) => self.compute_hash(Some(p.as_str())),
            None => self.compute_hash(None),
        };
        match &self.hash {
            Some(stored) => str_eq(stored.as_str(), computed.as_str()),
            None => false,
        }
    }

    /// The hexadecimal text of a digest of the entry's bytes: two
    /// characters for each byte.
    pub fn hash_of_digest(digest: &[u8]) -> (hash: String)
        ensures
            hash@ == hex_text(digest@),
            hash@.len() == 2 * digest@.len(),
    {
        hex_encode(digest)
    }

    /// The hash of the entry after `prev_hash`: the SHA-256 digest of its
    /// bytes, in hexadecimal, 64 characters long. The fields `hash` and
    /// `prev_hash` of the entry itself play no part in it.
    pub fn compute_hash(&self, prev_hash: Option<&str>) -> (hash: String)
        ensures
            hash@ == entry_hash(
                self@,
                match prev_hash {
                    Some(hash) => Some(hash@),
                    None => None,
                },
            ),
            hash@.len() == 64,
    {
        let bytes = self.preimage(prev_hash);
        let digest = sha256_digest(bytes.as_slice());
        AuditEntry::hash_of_digest(digest.as_slice())
    }
}

/// Which entries a query asks for. A field left `None` excludes nothing.
#[derive(Debug)]
pub struct AuditFilter {
    /// The key path holds this text.
    pub key_path: Option<String>,
    /// Not before this instant, in seconds since the Unix epoch.
    pub since: Option<i64>,
    /// Not after this instant.
    pub until: Option<i64>,
    /// The actor is of this kind.
    pub actor_type: Option<String>,
    /// The action is this one.
    pub action: Option<Action>,
    /// At most this many entries, the most recent ones.
    pub limit: Option<usize>,
}

/// What an `AuditFilter` asks for.
pub struct AuditFilterView {
    pub key_path: Option<Seq<char>>,
    pub since: Option<i64>,
    pub until: Option<i64>,
    pub actor_type: Option<Seq<char>>,
    pub action: Option<Action>,
    pub limit: Option<usize>,
}

impl View for AuditFilter {
    type V = AuditFilterView;

    open spec fn view(&self) -> AuditFilterView {
        AuditFilterView {
            key_path: opt_text(self.key_path),
            since: self.since,
            until: self.until,
            actor_type: opt_text(self.actor_type),
            action: self.action,
            limit: self.limit,
        }
    }
}

impl Default for AuditFilter {
    fn default() -> (filter: AuditFilter)
        ensures
            filter@ == (AuditFilterView {
                key_path: None,
                since: None,
                until: None,
                actor_type: None,
                action: None,
                limit: None,
            }),
    {
        AuditFilter {
            key_path: None,
            since: None,
            until: None,
            actor_type: None,
            action: None,
            limit: None,
        }
    }
}

/// Whether an entry is one that the filter asks for, the limit aside.
pub open spec fn passes(e: AuditEntryView, f: AuditFilterView) -> bool {
    &&& f.key_path matches Some(part) ==> contains(e.key_path, part)
    &&& f.since matches Some(since) ==> e.timestamp >= since
    &&& f.until matches Some(until) ==> e.timestamp <= until
    &&& f.actor_type matches Some(kind) ==> e.actor.actor_type == kind
    &&& f.action matches Some(action) ==> e.action == action
}

/// What a query returns from a ledger: the entries that pass the filter, the
/// most recent first, cut off at the limit.
pub open spec fn query_result(entries: Seq<AuditEntryView>, f: AuditFilterView) -> Seq<
    AuditEntryView,
> {
    let found = entries.reverse().filter(|e: AuditEntryView| passes(e, f));
    match f.limit {
        Some(limit) => if limit < found.len() {
            found.take(limit as int)
        } else {
            found
        },
        None => found,
    }
}

/// The hash that the next entry is to follow: that of the entry logged last,
/// or none in an empty ledger.
pub open spec fn last_hash(entries: Seq<AuditEntryView>) -> Option<Seq<char>> {
    if entries.len() == 0 {
        None
    } else {
        entries.last().hash
    }
}

/// The hash that the entry at `i` must carry: that of its own fields after
/// the hash stored in the entry before it.
pub open spec fn expected_hash(entries: Seq<AuditEntryView>, i: int) -> Seq<char> {
    entry_hash(
        entries[i],
        if i == 0 {
            None
        } else {
            entries[i - 1].hash
        },
    )
}

/// The entry at `i` carries the hash that its fields and the entry before it
/// give.
pub open spec fn link_intact(entries: Seq<AuditEntryView>, i: int) -> bool {
    entries[i].hash == Some(expected_hash(entries, i))
}

/// Every entry carries the hash that its fields and the entry before it give.
pub open spec fn chain_intact(entries: Seq<AuditEntryView>) -> bool {
    forall|i: int| 0 <= i < entries.len() ==> #[trigger] link_intact(entries, i)
}

/// The ledger after `added` have been logged one by one onto `entries`.
pub open spec fn logged(entries: Seq<AuditEntryView>, added: Seq<AuditEntryView>) -> Seq<
    AuditEntryView,
>
    decreases added.len(),
{
    if added.len() == 0 {
        entries
    } else {
        logged(entries, added.drop_last()).push(
            linked(added.last(), last_hash(logged(entries, added.drop_last()))),
        )
    }
}

/// Whether an entry is one that the filter asks for, the limit aside.
pub fn check_passes(entry: &AuditEntry, filter: &AuditFilter) -> (r: bool)
    ensures
        r == passes(entry@, filter@),
{
    if let Some(part) = &filter.key_path {
        let hay = to_chars(entry.key_path.as_str());
        let needle = to_chars(part.as_str());
        if !check_contains(hay.as_slice(), needle.as_slice()) {
            return false;
        }
    }
    if let Some(since) = filter.since {
        if entry.timestamp < since {
            return false;
        }
    }
    if let Some(until) = filter.until {
        if entry.timestamp > until {
            return false;
        }
    }
    if let Some(kind) = &filter.actor_type {
        if !str_eq(entry.actor.actor_type.as_str(), kind.as_str()) {
            return false;
        }
    }
    if let Some(action) = filter.action {
        if entry.action != action {
            return false;
        }
    }
    true
}

/// The ledger: the entries in the order in which they were logged.
pub struct AuditLogger {
    entries: Vec<AuditEntry>,
}

/// What a list of entries says, one by one.
pub open spec fn entry_views(entries: Seq<AuditEntry>) -> Seq<AuditEntryView> {
    entries.map_values(|e: AuditEntry| e@)
}

impl View for AuditLogger {
    type V = Seq<AuditEntryView>;

    closed spec fn view(&self) -> Seq<AuditEntryView> {
        entry_views(self.entries@)
    }
}

impl AuditLogger {
    /// An empty ledger.
    pub fn new() -> (logger: AuditLogger)
        ensures
            logger@ == Seq::<AuditEntryView>::empty(),
    {
        let logger = AuditLogger { entries: Vec::new() };
        assert(logger@ =~= Seq::<AuditEntryView>::empty());
        logger
    }

    /// A ledger over entries that were stored before, oldest first.
    pub fn from_entries(entries: Vec<AuditEntry>) -> (logger: AuditLogger)
        ensures
            logger@ == entry_views(entries@),
    {
        AuditLogger { entries }
    }

    /// The entries, oldest first, as they are to be stored.
    pub fn entries(&self) -> (entries: &Vec<AuditEntry>)
        ensures
            entry_views(entries@) == self@,
    {
        &self.entries
    }

    /// How many entries have been logged.
    pub fn len(&self) -> (n: usize)
        ensures
            n == self@.len(),
    {
        self.entries.len()
    }

    /// The hash of the entry logged last, or `None` in an empty ledger.
    pub fn get_last_hash(&self) -> (hash: Option<String>)
        ensures
            opt_text(hash) == last_hash(self@),
    {
        let n = self.entries.len();
        if n == 0 {
            None
        } else {
            clone_opt(&self.entries[n - 1].hash)
        }
    }

    /// Appends an entry: it is given the hash of the entry logged last as
    /// its `prev_hash`, and its own hash over its fields and that one. The
    /// entries logged before stay as they are.
    pub fn log(&mut self, entry: AuditEntry)
        ensures
            final(self)@ == old(self)@.push(linked(entry@, last_hash(old(self)@))),
            chain_intact(old(self)@) ==> chain_intact(final(self)@),
    {
        let prev = self.get_last_hash();
        let hash = match &prev {
            Some(p) => entry.compute_hash(Some(p.as_str())),
            None => entry.compute_hash(None),
        };
        let mut entry = entry;
        let ghost before = entry@;
        entry.prev_hash = prev;
        entry.hash = Some(hash);
        assert(entry@ == linked(before, last_hash(self@)));
        self.entries.push(entry);
        assert(self@ =~= old(self)@.push(linked(before, last_hash(old(self)@))));
        proof {
            if chain_intact(old(self)@) {
                lemma_log_keeps_chain(old(self)@, before);
            }
        }
    }

    /// The entries that pass the filter, the most recent first, and no more
    /// of them than the limit allows.
    pub fn query(&self, filter: &AuditFilter) -> (found: Vec<AuditEntry>)
        ensures
            entry_views(found@) == query_result(self@, filter@),
    {
        let ghost all = self@.reverse();
        let ghost pred = |e: AuditEntryView| passes(e, filter@);
        let n = self.entries.len();
        let mut found: Vec<AuditEntry> = Vec::new();
        let mut done: usize = 0;
        proof {
            reveal(Seq::filter);
            assert(all.take(0) =~= Seq::<AuditEntryView>::empty());
            assert(entry_views(found@) =~= all.take(0).filter(pred));
        }
        while done < n
            invariant
                done <= n,
                n == self.entries@.len(),
                all == self@.reverse(),
                all.len() == n,
                pred == (|e: AuditEntryView| passes(e, filter@)),
                entry_views(found@) == all.take(done as int).filter(pred),
                filter@.limit matches Some(limit) ==> found@.len() <= limit,
            decreases n - done,
        {
            if let Some(limit) = filter.limit {
                if found.len() >= limit {
                    proof {
                        lemma_filter_prefix(all, pred, done as int);
                        assert(all.filter(pred).take(limit as int) =~= entry_views(found@));
                    }
                    return found;
                }
            }
            let entry = &self.entries[n - 1 - done];
            proof {
                reveal(Seq::filter);
                let upto = all.take(done + 1);
                assert(all[done as int] == entry@);
                assert(upto.drop_last() =~= all.take(done as int));
                assert(upto.last() == entry@);
                assert(upto.filter(pred) == if pred(entry@) {
                    all.take(done as int).filter(pred).push(entry@)
                } else {
                    all.take(done as int).filter(pred)
                });
            }
            if check_passes(entry, filter) {
                let copy = entry.duplicate();
                found.push(copy);
                assert(entry_views(found@) =~= all.take(done as int).filter(pred).push(entry@));
            }
            done += 1;
        }
        proof {
            assert(all.take(n as int) =~= all);
            if let Some(limit) = filter@.limit {
                if limit == found@.len() {
                    assert(all.filter(pred).take(limit as int) =~= all.filter(pred));
                }
            }
        }
        found
    }

    /// Whether every entry, from the oldest on, carries the hash that its
    /// own fields and the stored hash of the entry before it give.
    pub fn verify_integrity(&self) -> (intact: bool)
        ensures
            intact == chain_intact(self@),
    {
        let ghost views = self@;
        let n = self.entries.len();
        let mut prev: Option<String> = None;
        let mut i: usize = 0;
        while i < n
            invariant
                i <= n,
                n == self.entries@.len(),
                views == self@,
                views.len() == n,
                opt_text(prev) == (if i == 0 {
                    None
                } else {
                    views[i - 1].hash
                }),
                forall|k: int| 0 <= k < i ==> #[trigger] link_intact(views, k),
            decreases n - i,
        {
            let entry = &self.entries[i];
            assert(entry@ == views[i as int]);
            if !entry.carries_hash_after(&prev) {
                assert(!link_intact(views, i as int));
                return false;
            }
            assert(link_intact(views, i as int));
            prev = clone_opt(&entry.hash);
            i += 1;
        }
        true
    }
}

/// The entries that pass among the first `k` are the first of those that
/// pass among all.
pub proof fn lemma_filter_prefix<A>(all: Seq<A>, pred: spec_fn(A) -> bool, k: int)
    requires
        0 <= k <= all.len(),
    ensures
        all.take(k).filter(pred).len() <= all.filter(pred).len(),
        all.filter(pred).take(all.take(k).filter(pred).len() as int) == all.take(k).filter(pred),
{
    assert(all =~= all.take(k) + all.skip(k));
    Seq::filter_distributes_over_add(all.take(k), all.skip(k), pred);
    let head = all.take(k).filter(pred);
    let tail = all.skip(k).filter(pred);
    assert((head + tail).take(head.len() as int) =~= head);
}

/// Logging onto an intact chain leaves an intact chain.
pub proof fn lemma_log_keeps_chain(entries: Seq<AuditEntryView>, e: AuditEntryView)
    requires
        chain_intact(entries),
    ensures
        chain_intact(entries.push(linked(e, last_hash(entries)))),
{
    let prev = last_hash(entries);
    let after = entries.push(linked(e, prev));
    assert forall|i: int| 0 <= i < after.len() implies #[trigger] link_intact(after, i) by {
        if i < entries.len() {
            assert(after[i] == entries[i]);
            assert(link_intact(entries, i));
            if i > 0 {
                assert(after[i - 1] == entries[i - 1]);
            }
        } else {
            assert(hash_preimage(linked(e, prev), prev) == hash_preimage(e, prev));
            if i > 0 {
                assert(after[i - 1] == entries.last());
            }
        }
    }
}

/// After any number of entries has been logged, one after the other, onto
/// an intact ledger (an empty one is intact), the chain is intact: the
/// integrity check answers `true`.
pub proof fn lemma_logged_chain_intact(entries: Seq<AuditEntryView>, added: Seq<AuditEntryView>)
    requires
        chain_intact(entries),
    ensures
        chain_intact(logged(entries, added)),
        logged(entries, added).len() == entries.len() + added.len(),
    decreases added.len(),
{
    if added.len() > 0 {
        lemma_logged_chain_intact(entries, added.drop_last());
        lemma_log_keeps_chain(logged(entries, added.drop_last()), added.last());
    }
}

/// Two different byte strings with the same SHA-256 digest.
pub open spec fn sha256_collision(a: Seq<u8>, b: Seq<u8>) -> bool {
    a != b && sha256(a) == sha256(b)
}

/// An entry of an intact chain whose outcome is turned round afterwards,
/// with nothing else changed, breaks the chain: the integrity check answers
/// `false`. Only a collision of SHA-256 between the entry's bytes before and
/// after the change could hide it.
pub proof fn lemma_flipped_success_breaks_chain(entries: Seq<AuditEntryView>, i: int)
    requires
        chain_intact(entries),
        0 <= i < entries.len(),
        !sha256_collision(
            hash_preimage(
                entries[i],
                if i == 0 {
                    None
                } else {
                    entries[i - 1].hash
                },
            ),
            hash_preimage(
                AuditEntryView { success: !entries[i].success, ..entries[i] },
                if i == 0 {
                    None
                } else {
                    entries[i - 1].hash
                },
            ),
        ),
    ensures
        !chain_intact(
            entries.update(i, AuditEntryView { success: !entries[i].success, ..entries[i] }),
        ),
{
    let before = entries[i];
    let changed = AuditEntryView { success: !before.success, ..before };
    let prev = if i == 0 {
        None
    } else {
        entries[i - 1].hash
    };
    let tampered = entries.update(i, changed);
    let a = hash_preimage(before, prev);
    let b = hash_preimage(changed, prev);
    let at = preimage_head(before).len() as int;
    assert(preimage_head(changed) == preimage_head(before));
    assert(a[at] == success_mark(before.success));
    assert(b[at] == success_mark(changed.success));
    assert(a != b);
    assert(sha256(a) != sha256(b));
    if hex_text(sha256(a)) == hex_text(sha256(b)) {
        lemma_hex_text_injective(sha256(a), sha256(b));
    }
    assert(link_intact(entries, i));
    assert(tampered[i] == changed);
    if i > 0 {
        assert(tampered[i - 1] == entries[i - 1]);
    }
    assert(expected_hash(tampered, i) == entry_hash(changed, prev));
    assert(!link_intact(tampered, i));
}

/// A query that excludes nothing hands out every entry, the most recent
/// first.
pub proof fn lemma_query_all(entries: Seq<AuditEntryView>)
    ensures
        query_result(
            entries,
            AuditFilterView {
                key_path: None,
                since: None,
                until: None,
                actor_type: None,
                action: None,
                limit: None,
            },
        ) == entries.reverse(),
{
    let f = AuditFilterView {
        key_path: None,
        since: None,
        until: None,
        actor_type: None,
        action: None,
        limit: None,
    };
    lemma_all_pass(entries.reverse(), f);
}

/// Where every entry passes, the filter keeps them all.
proof fn lemma_all_pass(entries: Seq<AuditEntryView>, f: AuditFilterView)
    requires
        forall|i: int| 0 <= i < entries.len() ==> passes(#[trigger] entries[i], f),
    ensures
        entries.filter(|e: AuditEntryView| passes(e, f)) == entries,
    decreases entries.len(),
{
    reveal(Seq::filter);
    if entries.len() > 0 {
        lemma_all_pass(entries.drop_last(), f);
        assert(passes(entries.last(), f));
        assert(entries.drop_last().push(entries.last()) =~= entries);
    }
}

/// A query hands out only entries that pass its filter: with a key path in
/// the filter, only entries whose key path holds that text.
pub proof fn lemma_query_only_passing(entries: Seq<AuditEntryView>, f: AuditFilterView, k: int)
    requires
        0 <= k < query_result(entries, f).len(),
    ensures
        passes(query_result(entries, f)[k], f),
        entries.contains(query_result(entries, f)[k]),
        f.key_path matches Some(part) ==> contains(query_result(entries, f)[k].key_path, part),
{
    let pred = |e: AuditEntryView| passes(e, f);
    let found = entries.reverse().filter(pred);
    entries.reverse().lemma_filter_pred(pred, k);
    assert(query_result(entries, f)[k] == found[k]);
    assert(pred(found[k]));
    assert(found.contains(found[k]));
    entries.reverse().lemma_filter_contains_rev(pred, found[k]);
    let j = choose|j: int| 0 <= j < entries.reverse().len() && entries.reverse()[j] == found[k];
    assert(entries[entries.len() - 1 - j] == found[k]);
}

} // verus!
