//! A local, encrypted vault of named secrets, with an audit ledger whose
//! entries are chained by hash, and whole-vault synchronisation by version.
//!
//! The library reads and writes no file. A vault lives in memory: its store
//! and its ledger are handed in when it is opened and handed out to be kept,
//! and synchronisation works on the bytes of the files of both sides.
//! Keeping them on a disk is the caller's part.
//!
//! - `crypto`: key derivation and the sealed envelope
//! - `audit`: the ledger and its chain of hashes
//! - `storage`: the store of metadata and sealed secrets
//! - `vault`: the vault, locked or unlocked, over store and ledger
//! - `icloud`, `sync`: synchronisation with a copy on a shared drive
//! - `transfer`: the text forms in which secrets are exported and imported
//! - `status`: the outcomes as status codes
//! - `text`: strings as sequences of characters

pub mod audit;
pub mod crypto;
pub mod error;
pub mod icloud;
pub mod status;
pub mod storage;
pub mod sync;
pub mod text;
pub mod transfer;
pub mod vault;

pub use error::Error;
pub use vault::ClawBox;

use text::{clone_opt, lowercased, opt_text};
use vstd::prelude::*;

verus! {

/// How freely a secret may be handed out, in rising order of care. The vault
/// stores and reports the level; enforcing it is the caller's policy.
#[derive(Debug, Clone, Copy, PartialEq, Eq, Structural)]
pub enum AccessLevel {
    /// Anyone may read it.
    Public,
    /// The vault must be unlocked.
    Normal,
    /// Reading asks for approval.
    Sensitive,
    /// For humans only.
    Critical,
}

impl AccessLevel {
    /// The place of a level in the order `Public < Normal < Sensitive < Critical`,
    /// which is also the number it is stored as.
    pub open spec fn rank(self) -> int {
        match self {
            AccessLevel::Public => 0,
            AccessLevel::Normal => 1,
            AccessLevel::Sensitive => 2,
            AccessLevel::Critical => 3,
        }
    }

    /// The level stored as `code`; a number that names no level reads as `Normal`.
    pub open spec fn of_code(code: int) -> AccessLevel {
        if code == 0 {
            AccessLevel::Public
        } else if code == 2 {
            AccessLevel::Sensitive
        } else if code == 3 {
            AccessLevel::Critical
        } else {
            AccessLevel::Normal
        }
    }

    /// The number a level is stored as.
    pub fn code(&self) -> (c: i32)
        ensures
            c == self.rank(),
    {
        match self {
            AccessLevel::Public => 0,
            AccessLevel::Normal => 1,
            AccessLevel::Sensitive => 2,
            AccessLevel::Critical => 3,
        }
    }

    /// The level that a stored number stands for.
    pub fn from_code(code: i32) -> (level: AccessLevel)
        ensures
            level == AccessLevel::of_code(code as int),
    {
        match code {
            0 => AccessLevel::Public,
            1 => AccessLevel::Normal,
            2 => AccessLevel::Sensitive,
            3 => AccessLevel::Critical,
            _ => AccessLevel::Normal,
        }
    }

    /// Whether `self` asks for at most as much care as `other`.
    pub fn at_most(&self, other: &AccessLevel) -> (r: bool)
        ensures
            r == (self.rank() <= other.rank()),
    {
        self.code() <= other.code()
    }

    /// A stored number read back gives the level it was written for.
    pub proof fn lemma_code_round_trip(level: AccessLevel)
        ensures
            AccessLevel::of_code(level.rank()) == level,
    {
    }
}

/// The level of a name written in lower case; any other text reads as
/// `Normal`.
pub open spec fn level_named(name: Seq<char>) -> AccessLevel {
    if name == "public"@ {
        AccessLevel::Public
    } else if name == "sensitive"@ {
        AccessLevel::Sensitive
    } else if name == "critical"@ {
        AccessLevel::Critical
    } else {
        AccessLevel::Normal
    }
}

/// The level of a name written in lower case: `public`, `normal`,
/// `sensitive` or `critical`. Any other text reads as `Normal`.
pub fn level_of_name(name: &str) -> (level: AccessLevel)
    ensures
        level == level_named(name@),
{
    if text::str_eq(name, "public") {
        AccessLevel::Public
    } else if text::str_eq(name, "sensitive") {
        AccessLevel::Sensitive
    } else if text::str_eq(name, "critical") {
        AccessLevel::Critical
    } else {
        AccessLevel::Normal
    }
}

/// The level of a name, whatever its case. Any other text reads as `Normal`.
pub fn parse_access_level(s: &str) -> (level: AccessLevel)
    ensures
        level == level_named(lowercased(s@)),
{
    let lower = s.to_lowercase();
    level_of_name(lower.as_str())
}

impl Default for AccessLevel {
    fn default() -> (level: AccessLevel)
        ensures
            level == AccessLevel::Normal,
    {
        AccessLevel::Normal
    }
}

/// Who acts on the vault.
#[derive(Debug, Clone)]
pub enum Actor {
    Human { device: String },
    AI { agent: String },
    App { name: String },
}

/// What a list of strings says, one by one.
pub open spec fn texts(items: Seq<String>) -> Seq<Seq<char>> {
    items.map_values(|s: String| s@)
}

/// A copy of a list of strings.
pub fn clone_texts(items: &Vec<String>) -> (copy: Vec<String>)
    ensures
        texts(copy@) == texts(items@),
{
    let mut copy: Vec<String> = Vec::new();
    let mut i: usize = 0;
    while i < items.len()
        invariant
            i <= items@.len(),
            copy@.len() == i,
            texts(copy@) == texts(items@).take(i as int),
        decreases items@.len() - i,
    {
        let ghost before = copy@;
        let item = items[i].clone();
        copy.push(item);
        i += 1;
        assert forall|k: int| 0 <= k < i implies texts(copy@)[k] == texts(items@).take(
            i as int,
        )[k] by {
            if k < i - 1 {
                assert(texts(before)[k] == texts(items@).take(i - 1)[k]);
            }
        }
        assert(texts(copy@) =~= texts(items@).take(i as int));
    }
    assert(texts(items@).take(i as int) =~= texts(items@));
    copy
}

/// What goes with a secret when it is set.
#[derive(Debug)]
pub struct SetOptions {
    pub access: AccessLevel,
    /// How long the secret is meant to live. It is carried, not enforced.
    pub ttl: Option<std::time::Duration>,
    pub tags: Vec<String>,
    pub note: Option<String>,
}

impl Default for SetOptions {
    fn default() -> (opts: SetOptions)
        ensures
            opts.access == AccessLevel::Normal,
            opts.ttl is None,
            opts.tags@ == Seq::<String>::empty(),
            opts.note is None,
    {
        SetOptions { access: AccessLevel::Normal, ttl: None, tags: Vec::new(), note: None }
    }
}

/// What is known of a secret apart from its value.
#[derive(Debug, Clone)]
pub struct SecretInfo {
    pub path: String,
    pub access: AccessLevel,
    pub tags: Vec<String>,
    pub note: Option<String>,
    /// When the secret was first set, in seconds since the Unix epoch.
    pub created_at: i64,
    /// When the secret was last set.
    pub updated_at: i64,
}

/// What a `SecretInfo` says.
pub struct SecretInfoView {
    pub path: Seq<char>,
    pub access: AccessLevel,
    pub tags: Seq<Seq<char>>,
    pub note: Option<Seq<char>>,
    pub created_at: i64,
    pub updated_at: i64,
}

impl View for SecretInfo {
    type V = SecretInfoView;

    open spec fn view(&self) -> SecretInfoView {
        SecretInfoView {
            path: self.path@,
            access: self.access,
            tags: texts(self.tags@),
            note: opt_text(self.note),
            created_at: self.created_at,
            updated_at: self.updated_at,
        }
    }
}

impl SecretInfo {
    /// A copy that says the same.
    pub fn duplicate(&self) -> (copy: SecretInfo)
        ensures
            copy@ == self@,
    {
        SecretInfo {
            path: self.path.clone(),
            access: self.access,
            tags: clone_texts(&self.tags),
            note: clone_opt(&self.note),
            created_at: self.created_at,
            updated_at: self.updated_at,
        }
    }
}

} // verus!
