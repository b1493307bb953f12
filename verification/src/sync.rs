//! Synchronisation through a backend of the caller's choice: the state that
//! is kept of it, the shape of what is exchanged, and the backend's interface.

use crate::audit::unix_now;
use crate::error::Error;
use vstd::prelude::*;
use vstd::string::*;

verus! {

/// What is known of a vault's synchronisation.
#[derive(Debug, Clone)]
pub struct SyncState {
    /// When the vault was last synchronised, in seconds since the Unix epoch.
    pub last_sync: Option<i64>,
    pub local_version: u64,
    pub remote_version: u64,
    pub sync_enabled: bool,
    pub conflict_count: usize,
}

impl Default for SyncState {
    fn default() -> (state: SyncState)
        ensures
            state.last_sync is None,
            state.local_version == 0,
            state.remote_version == 0,
            !state.sync_enabled,
            state.conflict_count == 0,
    {
        SyncState {
            last_sync: None,
            local_version: 0,
            remote_version: 0,
            sync_enabled: false,
            conflict_count: 0,
        }
    }
}

/// A secret that was changed on both sides.
#[derive(Debug, Clone)]
pub struct SyncConflict {
    pub path: String,
    pub local_value: String,
    pub remote_value: String,
    /// When the local side was changed, in seconds since the Unix epoch.
    pub local_updated: i64,
    /// When the remote side was changed.
    pub remote_updated: i64,
}

/// What to do with a secret that was changed on both sides.
#[derive(Debug, Clone, Copy, PartialEq, Eq, Structural)]
pub enum ConflictResolution {
    KeepLocal,
    KeepRemote,
    /// Keeps the remote value under the path with `.conflict` behind it.
    KeepBoth,
}

/// Where the copies of a vault are kept. The vault's owner implements it;
/// nothing is promised of what an implementation returns.
pub trait SyncBackend: Send + Sync {
    /// Whether the backend can be reached.
    fn is_connected(&self) -> bool;

    /// The version of the copy that the backend holds.
    fn get_remote_version(&self) -> Result<u64, Error>;

    /// Stores a sealed vault as the given version.
    fn upload(&self, data: &[u8], version: u64) -> Result<(), Error>;

    /// The sealed vault that the backend holds, and its version.
    fn download(&self) -> Result<(Vec<u8>, u64), Error>;
}

/// Turns every `.` of a container's identifier into `~`, as the shared drive
/// names its folders.
pub open spec fn folder_name(container_id: Seq<char>) -> Seq<char> {
    container_id.map_values(
        |c: char|
            if c == '.' {
                '~'
            } else {
                c
            },
    )
}

/// The folder of a container's documents below a home directory.
pub open spec fn documents_path_text(home: Seq<char>, container_id: Seq<char>) -> Seq<char> {
    home + "/Library/Mobile Documents/iCloud~"@ + folder_name(container_id) + "/Documents"@
}

/// A backend on the shared drive of the device.
#[derive(Debug, Clone)]
pub struct ICloudBackend {
    container_id: String,
    vault_file: String,
}

impl ICloudBackend {
    /// The backend of a container. The sealed vault lies in `vault.encrypted`.
    pub fn new(container_id: &str) -> (backend: ICloudBackend)
        ensures
            backend.container_text() == container_id@,
            backend.vault_file_text() == "vault.encrypted"@,
    {
        ICloudBackend {
            container_id: String::from_str(container_id),
            vault_file: String::from_str("vault.encrypted"),
        }
    }

    /// The container's identifier.
    pub closed spec fn container_text(&self) -> Seq<char> {
        self.container_id@
    }

    /// The name of the file that holds the sealed vault.
    pub closed spec fn vault_file_text(&self) -> Seq<char> {
        self.vault_file@
    }

    /// The container's identifier.
    pub fn container_id(&self) -> (id: &str)
        ensures
            id@ == self.container_text(),
    {
        self.container_id.as_str()
    }

    /// The name of the file that holds the sealed vault.
    pub fn vault_file(&self) -> (name: &str)
        ensures
            name@ == self.vault_file_text(),
    {
        self.vault_file.as_str()
    }

    /// The folder of the container's documents below a home directory.
    pub fn icloud_path(&self, home: &str) -> (path: String)
        ensures
            path@ == documents_path_text(home@, self.container_text()),
    {
        let mut path = String::from_str(home);
        path.append("/Library/Mobile Documents/iCloud~");
        let ghost head = path@;
        let chars = crate::text::to_chars(self.container_id.as_str());
        let mut i: usize = 0;
        while i < chars.len()
            invariant
                i <= chars@.len(),
                chars@ == self.container_id@,
                path@ == head + folder_name(chars@).take(i as int),
            decreases chars@.len() - i,
        {
            let c = chars[i];
            if c == '.' {
                path.push('~');
            } else {
                path.push(c);
            }
            i += 1;
            assert(path@ =~= head + folder_name(chars@).take(i as int));
        }
        assert(folder_name(chars@).take(i as int) =~= folder_name(chars@));
        path.append("/Documents");
        path
    }
}

/// A whole vault as it is exchanged.
#[derive(Debug)]
pub struct SyncBundle {
    pub version: u64,
    /// When the bundle was made, in seconds since the Unix epoch.
    pub timestamp: i64,
    pub secrets: Vec<SyncSecret>,
    /// The hash of the last entry of the ledger.
    pub audit_hash: String,
}

/// One secret of a bundle.
#[derive(Debug)]
pub struct SyncSecret {
    pub path: String,
    pub encrypted_value: Vec<u8>,
    pub nonce: Vec<u8>,
    pub access_level: u8,
    pub tags: Vec<String>,
    pub note: Option<String>,
    pub created_at: i64,
    pub updated_at: i64,
}

/// Keeps the state of a vault's synchronisation.
pub struct SyncManager {
    state: SyncState,
}

impl View for SyncManager {
    type V = SyncState;

    closed spec fn view(&self) -> SyncState {
        self.state
    }
}

impl SyncManager {
    /// A manager with synchronisation switched off and nothing synchronised.
    pub fn new() -> (manager: SyncManager)
        ensures
            manager@.last_sync is None,
            manager@.local_version == 0,
            manager@.remote_version == 0,
            !manager@.sync_enabled,
            manager@.conflict_count == 0,
    {
        SyncManager { state: SyncState::default() }
    }

    /// The state.
    pub fn state(&self) -> (state: &SyncState)
        ensures
            *state == self@,
    {
        &self.state
    }

    /// Switches synchronisation on.
    pub fn enable(&mut self)
        ensures
            final(self)@ == (SyncState { sync_enabled: true, ..old(self)@ }),
    {
        self.state.sync_enabled = true;
    }

    /// Switches synchronisation off.
    pub fn disable(&mut self)
        ensures
            final(self)@ == (SyncState { sync_enabled: false, ..old(self)@ }),
    {
        self.state.sync_enabled = false;
    }

    /// Notes that the vault has been synchronised now. With synchronisation
    /// switched off this is an error, and the state stays as it is. The
    /// backend is not asked for anything.
    pub fn sync<B: SyncBackend>(&mut self, _backend: &B) -> (r: Result<(), Error>)
        ensures
            match r {
                Ok(()) => {
                    &&& old(self)@.sync_enabled
                    &&& final(self)@.last_sync is Some
                    &&& final(self)@ == (SyncState {
                        last_sync: final(self)@.last_sync,
                        ..old(self)@
                    })
                },
                Err(e) => e is Other && !old(self)@.sync_enabled && final(self)@ == old(self)@,
            },
    {
        if !self.state.sync_enabled {
            return Err(Error::Other(String::from_str("Sync not enabled")));
        }
        self.state.last_sync = Some(unix_now());
        Ok(())
    }
}

impl Default for SyncManager {
    fn default() -> (manager: SyncManager)
        ensures
            manager@.last_sync is None,
            manager@.local_version == 0,
            manager@.remote_version == 0,
            !manager@.sync_enabled,
            manager@.conflict_count == 0,
    {
        SyncManager::new()
    }
}

} // verus!
