//! Cloud saves: named files under a byte quota, with conflict records,
//! kept in memory.
use vstd::prelude::*;
use vstd::string::StringSliceAdditionalSpecFns;

use crate::clock::unix_now_secs;
use crate::keyed::{first_index, index_from, lemma_found, lemma_push_first, lemma_same_index, lemma_update_first};

verus! {

/// Longest file name, in bytes.
pub const MAX_NAME_BYTES: usize = 255;

/// Default quota: 100 MiB.
pub const DEFAULT_QUOTA_BYTES: u64 = 104857600;

/// Quota of the storage.
#[derive(Debug, Clone, Copy)]
pub struct CloudQuota {
    pub total_bytes: u64,
    pub used_bytes: u64,
}

impl CloudQuota {
    /// Bytes left: total minus used, never below zero.
    pub open spec fn spec_available(self) -> u64 {
        if self.total_bytes >= self.used_bytes { (self.total_bytes - self.used_bytes) as u64 } else { 0 }
    }

    /// Bytes left: total minus used, never below zero.
    pub fn available(&self) -> (r: u64)
        ensures
            r == self.spec_available(),
    {
        self.total_bytes.saturating_sub(self.used_bytes)
    }

    /// Whether `bytes` more fit.
    pub fn has_space(&self, bytes: u64) -> (r: bool)
        ensures
            r == (self.spec_available() >= bytes),
    {
        self.available() >= bytes
    }
}

/// What is known of a stored file.
#[derive(Debug, Clone)]
pub struct CloudFileInfo {
    pub name: String,
    pub size: u64,
    pub timestamp: u64,
    pub persisted: bool,
}

/// Outcome of a storage operation.
#[derive(Debug, Clone, Copy, PartialEq, Eq, Structural)]
pub enum CloudResult {
    Done,
    FileNotFound,
    QuotaExceeded,
    CloudDisabled,
    WriteError,
    ReadError,
    InvalidName,
    SyncConflict,
}

/// How a conflict between a local and a remote copy is settled.
#[derive(Debug, Clone, Copy, PartialEq, Eq, Structural)]
pub enum ConflictResolution {
    KeepLocal,
    KeepRemote,
    KeepBoth,
}

/// A file whose local and remote copies differ.
#[derive(Debug, Clone)]
pub struct CloudConflict {
    pub name: String,
    pub local_data: Vec<u8>,
    pub local_timestamp: u64,
    pub remote_data: Vec<u8>,
    pub remote_timestamp: u64,
}

/// One stored file.
#[derive(Debug, Clone)]
pub struct CloudEntry {
    pub info: CloudFileInfo,
    pub data: Vec<u8>,
}

/// Whether an entry holds the file named `n`.
pub open spec fn named(n: Seq<char>) -> spec_fn(CloudEntry) -> bool {
    |e: CloudEntry| e.info.name@ == n
}

/// Whether a conflict is about the file named `n`.
pub open spec fn conflict_named(n: Seq<char>) -> spec_fn(CloudConflict) -> bool {
    |c: CloudConflict| c.name@ == n
}

/// Files under a quota, switchable per account and per app.
pub struct CloudStorage {
    files: Vec<CloudEntry>,
    quota: CloudQuota,
    account_enabled: bool,
    app_enabled: bool,
    conflicts: Vec<CloudConflict>,
}

impl CloudStorage {
    /// The stored files, in first-written order.
    pub closed spec fn files(&self) -> Seq<CloudEntry> {
        self.files@
    }

    /// The quota.
    pub closed spec fn quota(&self) -> CloudQuota {
        self.quota
    }

    /// Enabled for both the account and the app.
    pub closed spec fn enabled(&self) -> bool {
        self.account_enabled && self.app_enabled
    }

    /// Enabled for the account.
    pub closed spec fn account_on(&self) -> bool {
        self.account_enabled
    }

    /// Enabled for the app.
    pub closed spec fn app_on(&self) -> bool {
        self.app_enabled
    }

    /// Pending conflicts, in order.
    pub closed spec fn conflicts(&self) -> Seq<CloudConflict> {
        self.conflicts@
    }

    /// The file named `n`, if stored.
    pub open spec fn file_of(&self, n: Seq<char>) -> Option<CloudEntry> {
        let i = first_index(self.files(), named(n));
        if i < 0 { None } else { Some(self.files()[i]) }
    }

    /// An empty, enabled storage with `total_bytes` of quota.
    pub fn new(total_bytes: u64) -> (r: Self)
        ensures
            r.files().len() == 0,
            r.conflicts().len() == 0,
            r.quota().total_bytes == total_bytes && r.quota().used_bytes == 0,
            r.account_on() && r.app_on() && r.enabled(),
    {
        CloudStorage {
            files: Vec::new(),
            quota: CloudQuota { total_bytes, used_bytes: 0 },
            account_enabled: true,
            app_enabled: true,
            conflicts: Vec::new(),
        }
    }

    /// Enabled for the account.
    pub fn is_cloud_enabled_for_account(&self) -> (r: bool)
        ensures
            r == self.account_on(),
    {
        self.account_enabled
    }

    /// Enabled for the app.
    pub fn is_cloud_enabled_for_app(&self) -> (r: bool)
        ensures
            r == self.app_on(),
    {
        self.app_enabled
    }

    /// Enabled for both.
    pub fn is_enabled(&self) -> (r: bool)
        ensures
            r == self.enabled(),
    {
        self.account_enabled && self.app_enabled
    }

    /// Switches the account setting.
    pub fn set_account_enabled(&mut self, enabled: bool)
        ensures
            final(self).account_on() == enabled,
            final(self).app_on() == old(self).app_on(),
            final(self).enabled() == (enabled && old(self).app_on()),
            final(self).files() == old(self).files(),
            final(self).quota() == old(self).quota(),
            final(self).conflicts() == old(self).conflicts(),
    {
        self.account_enabled = enabled;
    }

    /// Switches the app setting.
    pub fn set_app_enabled(&mut self, enabled: bool)
        ensures
            final(self).app_on() == enabled,
            final(self).account_on() == old(self).account_on(),
            final(self).enabled() == (enabled && old(self).account_on()),
            final(self).files() == old(self).files(),
            final(self).quota() == old(self).quota(),
            final(self).conflicts() == old(self).conflicts(),
    {
        self.app_enabled = enabled;
    }

    /// The quota.
    pub fn get_quota(&self) -> (r: CloudQuota)
        ensures
            r == self.quota(),
    {
        self.quota
    }

    /// Number of stored files.
    pub fn get_file_count(&self) -> (r: usize)
        ensures
            r == self.files().len(),
    {
        self.files.len()
    }

    /// The file at `index` in storage order.
    pub fn get_file_by_index(&self, index: usize) -> (r: Option<&CloudFileInfo>)
        ensures
            index < self.files().len() ==> r == Some(&self.files()[index as int].info),
            index >= self.files().len() ==> r is None,
    {
        if index < self.files.len() {
            Some(&self.files[index].info)
        } else {
            None
        }
    }

    fn find(&self, name: &String) -> (r: Option<usize>)
        ensures
            match r {
                Some(i) => i as int == first_index(self.files(), named(name@)) && i < self.files().len(),
                None => first_index(self.files(), named(name@)) == -1,
            },
    {
        let ghost p = named(name@);
        let mut i: usize = 0;
        while i < self.files.len()
            invariant
                i <= self.files@.len(),
                p == named(name@),
                index_from(self.files@, p, i as int) == first_index(self.files@, p),
            decreases self.files@.len() - i,
        {
            if self.files[i].info.name == *name {
                assert(p(self.files@[i as int]));
                return Some(i);
            }
            assert(!p(self.files@[i as int]));
            i = i + 1;
        }
        None
    }

    /// Whether a file named `name` is stored.
    pub fn file_exists(&self, name: &str) -> (r: bool)
        ensures
            r == self.file_of(name@) is Some,
    {
        self.find(&name.to_owned()).is_some()
    }

    /// Size of file `name`.
    pub fn get_file_size(&self, name: &str) -> (r: Option<u64>)
        ensures
            r == match self.file_of(name@) {
                Some(e) => Some(e.info.size),
                None => None,
            },
    {
        match self.find(&name.to_owned()) {
            Some(i) => Some(self.files[i].info.size),
            None => None,
        }
    }

    /// Time file `name` was last written.
    pub fn get_file_timestamp(&self, name: &str) -> (r: Option<u64>)
        ensures
            r == match self.file_of(name@) {
                Some(e) => Some(e.info.timestamp),
                None => None,
            },
    {
        match self.find(&name.to_owned()) {
            Some(i) => Some(self.files[i].info.timestamp),
            None => None,
        }
    }

    /// Writes `data` as file `name`, stamped with the current time.
    pub fn file_write(&mut self, name: &str, data: &[u8]) -> (r: Result<(), CloudResult>)
        ensures
            write_outcome(*old(self), *final(self), name@, name.len(), data@, r),
    {
        let now = unix_now_secs();
        self.file_write_at(name, data, now)
    }

    /// Writes `data` as file `name` with timestamp `now`. Refused when the
    /// storage is disabled, when the name is empty or longer than 255
    /// bytes, or when the growth does not fit in the quota; otherwise the
    /// file is stored (replacing one of the same name) and the quota
    /// charged for the difference.
    pub fn file_write_at(&mut self, name: &str, data: &[u8], now: u64) -> (r: Result<(), CloudResult>)
        ensures
            write_outcome(*old(self), *final(self), name@, name.len(), data@, r),
            r is Ok ==> (final(self).file_of(name@) matches Some(e) && e.info.timestamp == now),
    {
        if !self.is_enabled() {
            return Err(CloudResult::CloudDisabled);
        }
        if name.len() == 0 || name.len() > MAX_NAME_BYTES {
            return Err(CloudResult::InvalidName);
        }
        let key = name.to_owned();
        let new_size = data.len() as u64;
        let found = self.find(&key);
        let old_size: u64 = match found {
            Some(i) => self.files[i].data.len() as u64,
            None => 0,
        };
        let size_change = new_size.saturating_sub(old_size);
        if !self.quota.has_space(size_change) {
            return Err(CloudResult::QuotaExceeded);
        }
        self.quota.used_bytes = self.quota.used_bytes.saturating_sub(old_size).saturating_add(new_size);
        let entry = CloudEntry {
            info: CloudFileInfo { name: name.to_owned(), size: new_size, timestamp: now, persisted: true },
            data: crate::bytes_util::copy_range(data, 0, data.len()),
        };
        assert(data@.subrange(0, data@.len() as int) =~= data@);
        let ghost old_f = self.files@;
        match found {
            Some(i) => {
                proof { lemma_found(old_f, named(name@), 0); }
                self.files[i] = entry;
                proof {
                    lemma_update_first(old_f, named(name@), i as int, entry);
                    assert forall|n: Seq<char>| n != name@ implies #[trigger] self.file_of(n) == old(self).file_of(n) by {
                        lemma_same_index(old_f, self.files@, named(n));
                    }
                }
            },
            None => {
                self.files.push(entry);
                proof {
                    lemma_push_first(old_f, named(name@), entry);
                    assert forall|n: Seq<char>| n != name@ implies #[trigger] self.file_of(n) == old(self).file_of(n) by {
                        lemma_same_index(old_f, self.files@, named(n));
                    }
                }
            },
        }
        Ok(())
    }

    /// The contents of file `name`.
    pub fn file_read(&self, name: &str) -> (r: Result<Vec<u8>, CloudResult>)
        ensures
            !self.enabled() ==> r == Err::<Vec<u8>, CloudResult>(CloudResult::CloudDisabled),
            self.enabled() ==> match self.file_of(name@) {
                Some(e) => r matches Ok(d) && d@ == e.data@,
                None => r == Err::<Vec<u8>, CloudResult>(CloudResult::FileNotFound),
            },
    {
        if !self.is_enabled() {
            return Err(CloudResult::CloudDisabled);
        }
        match self.find(&name.to_owned()) {
            Some(i) => Ok(self.files[i].data.clone()),
            None => Err(CloudResult::FileNotFound),
        }
    }

    /// Deletes file `name` and returns its bytes to the quota.
    pub fn file_delete(&mut self, name: &str) -> (r: Result<(), CloudResult>)
        ensures
            !old(self).enabled() ==> r == Err::<(), CloudResult>(CloudResult::CloudDisabled) && *final(self) == *old(self),
            old(self).enabled() && old(self).file_of(name@) is None ==> r == Err::<(), CloudResult>(CloudResult::FileNotFound)
                && *final(self) == *old(self),
            old(self).enabled() && old(self).file_of(name@) is Some ==> r is Ok
                && final(self).files() == old(self).files().remove(first_index(old(self).files(), named(name@)))
                && final(self).quota().used_bytes == sat_sub(old(self).quota().used_bytes, old(self).file_of(name@)->0.data@.len() as u64)
                && final(self).quota().total_bytes == old(self).quota().total_bytes,
            final(self).conflicts() == old(self).conflicts(),
            final(self).account_on() == old(self).account_on(),
            final(self).app_on() == old(self).app_on(),
    {
        if !self.is_enabled() {
            return Err(CloudResult::CloudDisabled);
        }
        match self.find(&name.to_owned()) {
            Some(i) => {
                let ghost old_f = self.files@;
                proof { lemma_found(old_f, named(name@), 0); }
                let e = self.files.remove(i);
                self.quota.used_bytes = self.quota.used_bytes.saturating_sub(e.data.len() as u64);
                Ok(())
            },
            None => Err(CloudResult::FileNotFound),
        }
    }

    /// The stored files' information, in storage order.
    pub fn list_files(&self) -> (r: Vec<&CloudFileInfo>)
        ensures
            r@.len() == self.files().len(),
            forall|k: int| 0 <= k < r@.len() ==> r@[k] == &self.files()[k].info,
    {
        let mut out: Vec<&CloudFileInfo> = Vec::new();
        let mut i: usize = 0;
        while i < self.files.len()
            invariant
                i <= self.files@.len(),
                out@.len() == i,
                forall|k: int| 0 <= k < i ==> out@[k] == &self.files@[k].info,
            decreases self.files@.len() - i,
        {
            out.push(&self.files[i].info);
            i = i + 1;
        }
        out
    }

    /// Records a conflict.
    pub fn add_conflict(&mut self, conflict: CloudConflict)
        ensures
            final(self).conflicts() == old(self).conflicts().push(conflict),
            final(self).files() == old(self).files(),
            final(self).quota() == old(self).quota(),
            final(self).enabled() == old(self).enabled(),
    {
        self.conflicts.push(conflict);
    }

    /// The pending conflicts.
    pub fn get_conflicts(&self) -> (r: &[CloudConflict])
        ensures
            r@ == self.conflicts(),
    {
        self.conflicts.as_slice()
    }

    /// Whether any conflict is pending.
    pub fn has_conflicts(&self) -> (r: bool)
        ensures
            r == (self.conflicts().len() > 0),
    {
        self.conflicts.len() > 0
    }

    /// Settles the first conflict about `name`: it leaves the list, and the
    /// chosen copy is written under `name` (for both copies, the local one
    /// first under `name` + `_local`). No conflict about `name` gives
    /// `FileNotFound`.
    pub fn resolve_conflict(&mut self, name: &str, resolution: ConflictResolution) -> (r: Result<(), CloudResult>)
        ensures
            first_index(old(self).conflicts(), conflict_named(name@)) < 0 ==> r == Err::<(), CloudResult>(CloudResult::FileNotFound)
                && *final(self) == *old(self),
            first_index(old(self).conflicts(), conflict_named(name@)) >= 0 ==> final(self).conflicts()
                == old(self).conflicts().remove(first_index(old(self).conflicts(), conflict_named(name@))),
    {
        let key = name.to_owned();
        let ghost p = conflict_named(name@);
        let mut i: usize = 0;
        while i < self.conflicts.len()
            invariant
                i <= self.conflicts@.len(),
                key@ == name@,
                self.conflicts == old(self).conflicts,
                self.files == old(self).files,
                self.quota == old(self).quota,
                self.account_enabled == old(self).account_enabled,
                self.app_enabled == old(self).app_enabled,
                p == conflict_named(name@),
                index_from(self.conflicts@, p, i as int) == first_index(self.conflicts@, p),
            decreases self.conflicts@.len() - i,
        {
            if self.conflicts[i].name == key {
                assert(p(self.conflicts@[i as int]));
                let c = self.conflicts.remove(i);
                assert(self.conflicts@ == old(self).conflicts@.remove(first_index(old(self).conflicts@, p)));
                return match resolution {
                    ConflictResolution::KeepLocal => self.file_write(c.name.as_str(), c.local_data.as_slice()),
                    ConflictResolution::KeepRemote => self.file_write(c.name.as_str(), c.remote_data.as_slice()),
                    ConflictResolution::KeepBoth => {
                        let mut local_name = c.name.clone();
                        local_name.append("_local");
                        match self.file_write(local_name.as_str(), c.local_data.as_slice()) {
                            Ok(()) => self.file_write(c.name.as_str(), c.remote_data.as_slice()),
                            Err(e) => Err(e),
                        }
                    },
                };
            }
            assert(!p(self.conflicts@[i as int]));
            i = i + 1;
        }
        Err(CloudResult::FileNotFound)
    }
}

impl Default for CloudStorage {
    /// An empty, enabled storage with the default 100 MiB quota.
    fn default() -> (r: Self)
        ensures
            r.files().len() == 0,
            r.quota().total_bytes == DEFAULT_QUOTA_BYTES && r.quota().used_bytes == 0,
            r.enabled(),
    {
        CloudStorage::new(DEFAULT_QUOTA_BYTES)
    }
}

/// `a - b`, or 0 when `b` is larger.
pub open spec fn sat_sub(a: u64, b: u64) -> u64 {
    if a >= b { (a - b) as u64 } else { 0 }
}

/// `a + b`, or the largest value when that overflows.
pub open spec fn sat_add(a: u64, b: u64) -> u64 {
    if a + b <= u64::MAX { (a + b) as u64 } else { u64::MAX }
}

/// What a write of `data` under `name` (`name_bytes` long in UTF-8) does to
/// storage `s`, giving `t` and result `r`.
pub open spec fn write_outcome(s: CloudStorage, t: CloudStorage, name: Seq<char>, name_bytes: usize, data: Seq<u8>, r: Result<(), CloudResult>) -> bool {
    let old_size: u64 = match s.file_of(name) {
        Some(e) => e.data@.len() as u64,
        None => 0,
    };
    let growth = sat_sub(data.len() as u64, old_size);
    &&& t.conflicts() == s.conflicts()
    &&& t.account_on() == s.account_on() && t.app_on() == s.app_on()
    &&& t.quota().total_bytes == s.quota().total_bytes
    &&& if !s.enabled() {
        r == Err::<(), CloudResult>(CloudResult::CloudDisabled) && t.files() == s.files() && t.quota() == s.quota()
    } else if name_bytes == 0 || name_bytes > MAX_NAME_BYTES {
        r == Err::<(), CloudResult>(CloudResult::InvalidName) && t.files() == s.files() && t.quota() == s.quota()
    } else if s.quota().spec_available() < growth {
        r == Err::<(), CloudResult>(CloudResult::QuotaExceeded) && t.files() == s.files() && t.quota() == s.quota()
    } else {
        &&& r is Ok
        &&& t.quota().used_bytes == sat_add(sat_sub(s.quota().used_bytes, old_size), data.len() as u64)
        &&& t.file_of(name) matches Some(e) && e.data@ == data && e.info.name@ == name
            && e.info.size == data.len() && e.info.persisted
        &&& forall|n: Seq<char>| n != name ==> #[trigger] t.file_of(n) == s.file_of(n)
    }
}

} // verus!
