//! Workshop item states and the plain types around subscriptions and
//! downloads.
use vstd::prelude::*;

verus! {

/// A set of item-state flags.
#[derive(Debug, Clone, Copy, PartialEq, Eq, Structural)]
pub struct ItemState {
    bits: u32,
}

impl ItemState {
    /// No state.
    pub const NONE: u32 = 0;
    /// The user is subscribed.
    pub const SUBSCRIBED: u32 = 1;
    /// A legacy item, not managed here.
    pub const LEGACY_ITEM: u32 = 2;
    /// Fully installed.
    pub const INSTALLED: u32 = 4;
    /// An update is needed.
    pub const NEEDS_UPDATE: u32 = 8;
    /// Downloading now.
    pub const DOWNLOADING: u32 = 16;
    /// Waiting to download.
    pub const DOWNLOAD_PENDING: u32 = 32;

    /// The raw flags.
    pub closed spec fn spec_bits(&self) -> u32 {
        self.bits
    }

    /// The set with raw flags `bits`.
    pub fn from_bits(bits: u32) -> (r: Self)
        ensures
            r.spec_bits() == bits,
    {
        ItemState { bits }
    }

    /// The raw flags.
    pub fn bits(&self) -> (r: u32)
        ensures
            r == self.spec_bits(),
    {
        self.bits
    }

    /// Whether any flag of `flag` is set.
    pub fn contains(&self, flag: u32) -> (r: bool)
        ensures
            r == (self.spec_bits() & flag != 0),
    {
        (self.bits & flag) != 0
    }

    /// Sets the flags of `flag`.
    pub fn insert(&mut self, flag: u32)
        ensures
            final(self).spec_bits() == old(self).spec_bits() | flag,
    {
        self.bits = self.bits | flag;
    }

    /// Clears the flags of `flag`.
    pub fn remove(&mut self, flag: u32)
        ensures
            final(self).spec_bits() == old(self).spec_bits() & !flag,
    {
        self.bits = self.bits & !flag;
    }
}

impl Default for ItemState {
    /// No flag set.
    fn default() -> (r: Self)
        ensures
            r.spec_bits() == 0,
    {
        ItemState { bits: 0 }
    }
}

/// Who can see an item.
#[derive(Debug, Clone, Copy, PartialEq, Eq, Structural)]
pub enum ItemVisibility {
    Public,
    FriendsOnly,
    Private,
    Unlisted,
}

impl Default for ItemVisibility {
    /// Public.
    fn default() -> (r: Self)
        ensures
            r == ItemVisibility::Public,
    {
        ItemVisibility::Public
    }
}

/// Kind of item.
#[derive(Debug, Clone, Copy, PartialEq, Eq, Structural)]
pub enum WorkshopFileType {
    Community,
    Microtransaction,
    Collection,
    Art,
    Video,
    Screenshot,
    Guide,
    IntegratedGuide,
    Merch,
}

impl Default for WorkshopFileType {
    /// A community item.
    fn default() -> (r: Self)
        ensures
            r == WorkshopFileType::Community,
    {
        WorkshopFileType::Community
    }
}

/// Where an installed item lies.
#[derive(Debug, Clone)]
pub struct InstallInfo {
    pub folder: String,
    pub size_on_disk: u64,
    pub timestamp: u64,
}

/// Bytes of a download so far and in all.
#[derive(Debug, Clone, Copy)]
pub struct DownloadProgress {
    pub bytes_downloaded: u64,
    pub bytes_total: u64,
}

/// A user's vote on an item.
#[derive(Debug, Clone, Copy, PartialEq, Eq, Structural)]
pub enum UserVote {
    VotedUp,
    VotedDown,
    NotVoted,
}

/// Outcome of a workshop operation.
#[derive(Debug, Clone, Copy, PartialEq, Eq, Structural)]
pub enum WorkshopResult {
    Done,
    Fail,
    InvalidParam,
    FileNotFound,
    NotSubscribed,
    AlreadySubscribed,
    AccessDenied,
    Timeout,
    Banned,
    NotLoggedIn,
    InsufficientPrivilege,
    LimitExceeded,
}

} // verus!
