//! Authentication tickets, auth sessions and a cheat-ban cache, kept in
//! memory.
use std::time::{Duration, Instant};
use vstd::prelude::*;

use crate::keyed::{first_index, lemma_found, lemma_push_first, lemma_same_index, lemma_update_first};
use crate::steam_id::SteamId;

verus! {

#[verifier::external_type_specification]
#[verifier::external_body]
pub struct ExInstant(std::time::Instant);

/// Relies on `Instant::now`: a reading of the monotonic clock; nothing is
/// assumed of its value.
pub assume_specification[ std::time::Instant::now ]() -> std::time::Instant;

/// Relies on `Instant::elapsed`: the time since the reading; nothing is
/// assumed of its value.
pub assume_specification[ std::time::Instant::elapsed ](i: &std::time::Instant) -> core::time::Duration;

/// Relies on `Instant`'s `Clone`: `Instant` is `Copy`, so a clone is the same reading.
pub assume_specification[ <std::time::Instant as Clone>::clone ](i: &std::time::Instant) -> (r: std::time::Instant)
    ensures
        r == *i,
;

/// Largest ticket, in bytes.
pub const MAX_AUTH_TICKET_SIZE: usize = 1024;

/// Outcome of validating a ticket.
#[derive(Debug, Clone, Copy, PartialEq, Eq, Hash, Structural)]
pub enum AuthSessionResponse {
    Accepted,
    UserNotConnectedToSteam,
    NoLicenseOrExpired,
    VACBanned,
    LoggedInElsewhere,
    VACCheckTimedOut,
    AuthTicketCanceled,
    AuthTicketInvalidAlreadyUsed,
    AuthTicketInvalid,
    PublisherIssuedBan,
}

impl AuthSessionResponse {
    /// The response's number.
    pub open spec fn spec_code(self) -> u8 {
        match self {
            AuthSessionResponse::Accepted => 0,
            AuthSessionResponse::UserNotConnectedToSteam => 1,
            AuthSessionResponse::NoLicenseOrExpired => 2,
            AuthSessionResponse::VACBanned => 3,
            AuthSessionResponse::LoggedInElsewhere => 4,
            AuthSessionResponse::VACCheckTimedOut => 5,
            AuthSessionResponse::AuthTicketCanceled => 6,
            AuthSessionResponse::AuthTicketInvalidAlreadyUsed => 7,
            AuthSessionResponse::AuthTicketInvalid => 8,
            AuthSessionResponse::PublisherIssuedBan => 9,
        }
    }

    /// The response with number `v`, if there is one.
    pub fn from_u8(v: u8) -> (r: Option<Self>)
        ensures
            v <= 9 ==> (r matches Some(x) && x.spec_code() == v),
            v > 9 ==> r is None,
    {
        match v {
            0 => Some(AuthSessionResponse::Accepted),
            1 => Some(AuthSessionResponse::UserNotConnectedToSteam),
            2 => Some(AuthSessionResponse::NoLicenseOrExpired),
            3 => Some(AuthSessionResponse::VACBanned),
            4 => Some(AuthSessionResponse::LoggedInElsewhere),
            5 => Some(AuthSessionResponse::VACCheckTimedOut),
            6 => Some(AuthSessionResponse::AuthTicketCanceled),
            7 => Some(AuthSessionResponse::AuthTicketInvalidAlreadyUsed),
            8 => Some(AuthSessionResponse::AuthTicketInvalid),
            9 => Some(AuthSessionResponse::PublisherIssuedBan),
            _ => None,
        }
    }

    /// Whether the ticket was accepted.
    pub fn is_success(&self) -> (r: bool)
        ensures
            r == (*self == AuthSessionResponse::Accepted),
    {
        *self == AuthSessionResponse::Accepted
    }

    /// A ban: retrying will not help.
    pub fn is_permanent_rejection(&self) -> (r: bool)
        ensures
            r == (*self == AuthSessionResponse::VACBanned || *self == AuthSessionResponse::PublisherIssuedBan),
    {
        *self == AuthSessionResponse::VACBanned || *self == AuthSessionResponse::PublisherIssuedBan
    }

    /// A transient failure worth retrying.
    pub open spec fn spec_is_recoverable(self) -> bool {
        self == AuthSessionResponse::UserNotConnectedToSteam || self == AuthSessionResponse::VACCheckTimedOut
            || self == AuthSessionResponse::LoggedInElsewhere
    }

    /// A transient failure worth retrying.
    pub fn is_recoverable(&self) -> (r: bool)
        ensures
            r == self.spec_is_recoverable(),
    {
        *self == AuthSessionResponse::UserNotConnectedToSteam || *self == AuthSessionResponse::VACCheckTimedOut
            || *self == AuthSessionResponse::LoggedInElsewhere
    }

    /// A human-readable description; never empty.
    pub fn message(&self) -> (r: &'static str)
        ensures
            r@.len() > 0,
    {
        let m = match self {
            AuthSessionResponse::Accepted => "Authentication successful",
            AuthSessionResponse::UserNotConnectedToSteam => "Not connected to Steam",
            AuthSessionResponse::NoLicenseOrExpired => "No game license or license expired",
            AuthSessionResponse::VACBanned => "VAC banned from secure servers",
            AuthSessionResponse::LoggedInElsewhere => "Account logged in elsewhere",
            AuthSessionResponse::VACCheckTimedOut => "VAC check timed out, try again",
            AuthSessionResponse::AuthTicketCanceled => "Authentication ticket was cancelled",
            AuthSessionResponse::AuthTicketInvalidAlreadyUsed => "Ticket already used",
            AuthSessionResponse::AuthTicketInvalid => "Invalid authentication ticket",
            AuthSessionResponse::PublisherIssuedBan => "Banned by game publisher",
        };
        proof {
            reveal_strlit("Authentication successful");
            reveal_strlit("Not connected to Steam");
            reveal_strlit("No game license or license expired");
            reveal_strlit("VAC banned from secure servers");
            reveal_strlit("Account logged in elsewhere");
            reveal_strlit("VAC check timed out, try again");
            reveal_strlit("Authentication ticket was cancelled");
            reveal_strlit("Ticket already used");
            reveal_strlit("Invalid authentication ticket");
            reveal_strlit("Banned by game publisher");
        }
        m
    }
}

/// Handle of an issued ticket; 0 is never a valid handle.
#[derive(Debug, Clone, Copy, PartialEq, Eq, Hash, Structural)]
pub struct AuthTicketHandle(pub u32);

impl AuthTicketHandle {
    /// The invalid handle.
    pub fn invalid() -> (r: Self)
        ensures
            r.0 == 0,
    {
        AuthTicketHandle(0)
    }

    /// The handle with number `handle`.
    pub fn new(handle: u32) -> (r: Self)
        ensures
            r.0 == handle,
    {
        AuthTicketHandle(handle)
    }

    /// Non-zero.
    pub fn is_valid(&self) -> (r: bool)
        ensures
            r == (self.0 != 0),
    {
        self.0 != 0
    }

    /// The handle's number.
    pub fn as_u32(&self) -> (r: u32)
        ensures
            r == self.0,
    {
        self.0
    }
}

/// An issued ticket.
#[derive(Clone)]
pub struct AuthTicket {
    pub handle: AuthTicketHandle,
    pub data: Vec<u8>,
    pub owner: SteamId,
    pub created_at: Instant,
    pub app_id: u32,
}

impl AuthTicket {
    /// A ticket created now.
    pub fn new(handle: AuthTicketHandle, data: Vec<u8>, owner: SteamId, app_id: u32) -> (r: Self)
        ensures
            r.handle == handle && r.data == data && r.owner == owner && r.app_id == app_id,
    {
        AuthTicket { handle, data, owner, created_at: Instant::now(), app_id }
    }

    /// Non-empty and at most `MAX_AUTH_TICKET_SIZE` bytes.
    pub fn is_valid_size(&self) -> (r: bool)
        ensures
            r == (self.data@.len() > 0 && self.data@.len() <= MAX_AUTH_TICKET_SIZE),
    {
        self.data.len() > 0 && self.data.len() <= MAX_AUTH_TICKET_SIZE
    }

    /// Time since the ticket was created.
    pub fn age(&self) -> Duration {
        self.created_at.elapsed()
    }
}

/// Phase of an auth session.
#[derive(Debug, Clone, Copy, PartialEq, Eq, Structural)]
pub enum AuthSessionState {
    NotStarted,
    Pending,
    Validated,
    Failed,
    Cancelled,
}

/// Validation attempts after which a session is no longer retried.
pub const MAX_VALIDATION_ATTEMPTS: u32 = 3;

/// Validation of one user's ticket.
#[derive(Debug, Clone)]
pub struct AuthSession {
    pub steam_id: SteamId,
    pub state: AuthSessionState,
    pub started_at: Instant,
    pub last_response: Option<AuthSessionResponse>,
    pub validation_attempts: u32,
}

impl AuthSession {
    /// A session that has not started validating.
    pub fn new(steam_id: SteamId) -> (r: Self)
        ensures
            r.steam_id == steam_id,
            r.state == AuthSessionState::NotStarted,
            r.last_response is None,
            r.validation_attempts == 0,
    {
        AuthSession {
            steam_id,
            state: AuthSessionState::NotStarted,
            started_at: Instant::now(),
            last_response: None,
            validation_attempts: 0,
        }
    }

    /// A validation attempt starts (the count saturates).
    pub fn begin_validation(&mut self)
        ensures
            final(self).state == AuthSessionState::Pending,
            final(self).validation_attempts == if old(self).validation_attempts < u32::MAX {
                (old(self).validation_attempts + 1) as u32
            } else {
                u32::MAX
            },
            final(self).last_response == old(self).last_response,
            final(self).steam_id == old(self).steam_id,
    {
        self.state = AuthSessionState::Pending;
        self.validation_attempts = self.validation_attempts.saturating_add(1);
    }

    /// Records the outcome of an attempt: validated on success, failed
    /// otherwise.
    pub fn on_validation_response(&mut self, response: AuthSessionResponse)
        ensures
            final(self).last_response == Some(response),
            final(self).state == if response == AuthSessionResponse::Accepted {
                AuthSessionState::Validated
            } else {
                AuthSessionState::Failed
            },
            final(self).validation_attempts == old(self).validation_attempts,
            final(self).steam_id == old(self).steam_id,
    {
        self.last_response = Some(response);
        self.state = if response.is_success() {
            AuthSessionState::Validated
        } else {
            AuthSessionState::Failed
        };
    }

    /// Cancels the session.
    pub fn cancel(&mut self)
        ensures
            final(self).state == AuthSessionState::Cancelled,
            final(self).last_response == old(self).last_response,
            final(self).validation_attempts == old(self).validation_attempts,
            final(self).steam_id == old(self).steam_id,
    {
        self.state = AuthSessionState::Cancelled;
    }

    /// Validated.
    pub fn is_valid(&self) -> (r: bool)
        ensures
            r == (self.state == AuthSessionState::Validated),
    {
        self.state == AuthSessionState::Validated
    }

    /// The last outcome was transient and fewer than three attempts were made.
    pub fn should_retry(&self) -> (r: bool)
        ensures
            r == match self.last_response {
                Some(x) => x.spec_is_recoverable() && self.validation_attempts < MAX_VALIDATION_ATTEMPTS,
                None => false,
            },
    {
        match self.last_response {
            Some(x) => x.is_recoverable() && self.validation_attempts < MAX_VALIDATION_ATTEMPTS,
            None => false,
        }
    }
}

/// Ban state of a user.
#[derive(Debug, Clone, Copy, PartialEq, Eq, Hash, Structural)]
pub enum VacBanStatus {
    Clean,
    Banned,
    Pending,
    TimedOut,
}

/// Outcome of checking a player against the ban cache.
#[derive(Debug, Clone, Copy)]
pub struct VacValidationResult {
    pub allowed: bool,
    pub response: AuthSessionResponse,
    pub ban_status: VacBanStatus,
}

/// Index of the first entry for `id` at or after `i`, or -1.
pub open spec fn ban_at(s: Seq<(SteamId, VacBanStatus)>, id: SteamId, i: int) -> int
    decreases s.len() - i,
{
    if i < 0 || i >= s.len() {
        -1
    } else if s[i].0 == id {
        i
    } else {
        ban_at(s, id, i + 1)
    }
}

/// The ban cache, and whether secure mode is on.
pub struct VacModule {
    enabled: bool,
    initialized: bool,
    ban_cache: Vec<(SteamId, VacBanStatus)>,
}

impl VacModule {
    /// Whether bans are enforced.
    pub closed spec fn spec_enabled(&self) -> bool {
        self.enabled
    }

    /// Whether the module is set up.
    pub closed spec fn spec_initialized(&self) -> bool {
        self.initialized
    }

    /// The cached ban state of `id`; clean when unknown.
    pub closed spec fn status_of(&self, id: SteamId) -> VacBanStatus {
        let i = ban_at(self.ban_cache@, id, 0);
        if i < 0 { VacBanStatus::Clean } else { self.ban_cache@[i].1 }
    }

    /// A module with an empty cache.
    pub fn new(enabled: bool) -> (r: Self)
        ensures
            r.spec_enabled() == enabled,
            r.spec_initialized(),
            forall|id: SteamId| r.status_of(id) == VacBanStatus::Clean,
    {
        VacModule { enabled, initialized: true, ban_cache: Vec::new() }
    }

    /// Whether bans are enforced.
    pub fn is_enabled(&self) -> (r: bool)
        ensures
            r == self.spec_enabled(),
    {
        self.enabled
    }

    /// Whether the module is set up (always, once made).
    pub fn is_initialized(&self) -> (r: bool)
        ensures
            r == self.spec_initialized(),
    {
        self.initialized
    }

    /// Enabled and set up.
    pub fn is_secure_server(&self) -> (r: bool)
        ensures
            r == (self.spec_enabled() && self.spec_initialized()),
    {
        self.enabled && self.initialized
    }

    fn find(&self, id: SteamId) -> (r: Option<usize>)
        ensures
            match r {
                Some(i) => i as int == ban_at(self.ban_cache@, id, 0) && i < self.ban_cache@.len(),
                None => ban_at(self.ban_cache@, id, 0) == -1,
            },
    {
        let mut i: usize = 0;
        while i < self.ban_cache.len()
            invariant
                i <= self.ban_cache@.len(),
                ban_at(self.ban_cache@, id, i as int) == ban_at(self.ban_cache@, id, 0),
            decreases self.ban_cache@.len() - i,
        {
            if self.ban_cache[i].0 == id {
                return Some(i);
            }
            i = i + 1;
        }
        None
    }

    /// The cached ban state of `steam_id`; clean when unknown.
    pub fn get_ban_status(&self, steam_id: SteamId) -> (r: VacBanStatus)
        ensures
            r == self.status_of(steam_id),
    {
        match self.find(steam_id) {
            Some(i) => self.ban_cache[i].1,
            None => VacBanStatus::Clean,
        }
    }

    /// Records `status` for `steam_id`, replacing an earlier entry.
    pub fn add_ban(&mut self, steam_id: SteamId, status: VacBanStatus)
        ensures
            final(self).status_of(steam_id) == status,
            forall|other: SteamId| other != steam_id ==> final(self).status_of(other) == old(self).status_of(other),
            final(self).spec_enabled() == old(self).spec_enabled(),
    {
        match self.find(steam_id) {
            Some(i) => {
                self.ban_cache[i] = (steam_id, status);
                proof {
                    lemma_ban_update(old(self).ban_cache@, steam_id, status, i as int);
                }
            },
            None => {
                self.ban_cache.push((steam_id, status));
                proof {
                    lemma_ban_push(old(self).ban_cache@, steam_id, status);
                }
            },
        }
    }

    /// Whether `steam_id` may join. With enforcement off everyone may;
    /// otherwise banned and timed-out users are refused.
    pub fn validate_player(&self, steam_id: SteamId) -> (r: VacValidationResult)
        ensures
            r.ban_status == self.status_of(steam_id),
            r.allowed == (!self.spec_enabled() || r.ban_status == VacBanStatus::Clean || r.ban_status
                == VacBanStatus::Pending),
            r.response == if !self.spec_enabled() || r.allowed {
                AuthSessionResponse::Accepted
            } else if r.ban_status == VacBanStatus::Banned {
                AuthSessionResponse::VACBanned
            } else {
                AuthSessionResponse::VACCheckTimedOut
            },
    {
        let ban_status = self.get_ban_status(steam_id);
        if !self.enabled {
            return VacValidationResult { allowed: true, response: AuthSessionResponse::Accepted, ban_status };
        }
        match ban_status {
            VacBanStatus::Clean => VacValidationResult { allowed: true, response: AuthSessionResponse::Accepted, ban_status },
            VacBanStatus::Banned => VacValidationResult { allowed: false, response: AuthSessionResponse::VACBanned, ban_status },
            VacBanStatus::Pending => VacValidationResult { allowed: true, response: AuthSessionResponse::Accepted, ban_status },
            VacBanStatus::TimedOut => VacValidationResult {
                allowed: false,
                response: AuthSessionResponse::VACCheckTimedOut,
                ban_status,
            },
        }
    }

    /// Forgets every cached ban.
    pub fn clear_cache(&mut self)
        ensures
            forall|id: SteamId| final(self).status_of(id) == VacBanStatus::Clean,
            final(self).spec_enabled() == old(self).spec_enabled(),
    {
        self.ban_cache.clear();
    }
}

/// Little-endian bytes of a `u32`.
pub open spec fn le32(v: u32) -> Seq<u8> {
    seq![v as u8, (v >> 8u32) as u8, (v >> 16u32) as u8, (v >> 24u32) as u8]
}

/// Little-endian bytes of a `u64`.
pub open spec fn le64(v: u64) -> Seq<u8> {
    seq![
        v as u8,
        (v >> 8u64) as u8,
        (v >> 16u64) as u8,
        (v >> 24u64) as u8,
        (v >> 32u64) as u8,
        (v >> 40u64) as u8,
        (v >> 48u64) as u8,
        (v >> 56u64) as u8,
    ]
}

/// Whether a ticket entry is for handle `h`.
pub open spec fn has_handle(h: u32) -> spec_fn((u32, bool)) -> bool {
    |e: (u32, bool)| e.0 == h
}

/// Size of the tickets the provider issues.
pub const ISSUED_TICKET_SIZE: usize = 64;

/// The body of an issued ticket: app id, owner and handle in little-endian
/// order, padded with zeros to 64 bytes.
pub open spec fn ticket_body(app_id: u32, owner: u64, handle: u32) -> Seq<u8> {
    le32(app_id) + le64(owner) + le32(handle) + Seq::new(48, |i: int| 0u8)
}

/// Issues and checks tickets for one app.
pub struct MockAuthProvider {
    next_handle: u32,
    app_id: u32,
    active_tickets: Vec<(u32, bool)>,
}

impl MockAuthProvider {
    /// The handle the next ticket gets.
    pub closed spec fn spec_next_handle(&self) -> u32 {
        self.next_handle
    }

    /// The app the provider issues tickets for.
    pub closed spec fn spec_app_id(&self) -> u32 {
        self.app_id
    }

    /// Whether ticket `h` was issued, and if so whether it is still active.
    pub closed spec fn ticket_state(&self, h: u32) -> Option<bool> {
        let i = first_index(self.active_tickets@, has_handle(h));
        if i < 0 { None } else { Some(self.active_tickets@[i].1) }
    }

    /// Every issued handle is non-zero and below the next one.
    pub closed spec fn wf(&self) -> bool {
        &&& self.next_handle >= 1
        &&& forall|k: int| 0 <= k < self.active_tickets@.len() ==> 1 <= (#[trigger] self.active_tickets@[k]).0 < self.next_handle
    }

    /// A provider that has issued nothing.
    pub fn new(app_id: u32) -> (r: Self)
        ensures
            r.wf(),
            r.spec_app_id() == app_id,
            r.spec_next_handle() == 1,
            forall|h: u32| r.ticket_state(h) is None,
    {
        MockAuthProvider { next_handle: 1, app_id, active_tickets: Vec::new() }
    }

    fn find(&self, h: u32) -> (r: Option<usize>)
        ensures
            match r {
                Some(i) => i as int == first_index(self.active_tickets@, has_handle(h)) && i < self.active_tickets@.len(),
                None => first_index(self.active_tickets@, has_handle(h)) == -1,
            },
    {
        let ghost p = has_handle(h);
        let mut i: usize = 0;
        while i < self.active_tickets.len()
            invariant
                i <= self.active_tickets@.len(),
                p == has_handle(h),
                crate::keyed::index_from(self.active_tickets@, p, i as int) == first_index(self.active_tickets@, p),
            decreases self.active_tickets@.len() - i,
        {
            if self.active_tickets[i].0 == h {
                assert(p(self.active_tickets@[i as int]));
                return Some(i);
            }
            assert(!p(self.active_tickets@[i as int]));
            i = i + 1;
        }
        None
    }

    /// Issues a ticket for `owner`: the next handle, active from now on,
    /// with the body `ticket_body`.
    pub fn get_auth_ticket(&mut self, owner: SteamId) -> (r: AuthTicket)
        requires
            old(self).wf(),
            old(self).spec_next_handle() < u32::MAX,
        ensures
            final(self).wf(),
            r.handle.0 == old(self).spec_next_handle(),
            r.owner == owner,
            r.app_id == old(self).spec_app_id(),
            r.data@ == ticket_body(old(self).spec_app_id(), owner.0, r.handle.0),
            final(self).spec_next_handle() == old(self).spec_next_handle() + 1,
            final(self).spec_app_id() == old(self).spec_app_id(),
            final(self).ticket_state(r.handle.0) == Some(true),
            forall|h: u32| h != r.handle.0 ==> final(self).ticket_state(h) == old(self).ticket_state(h),
    {
        let handle = AuthTicketHandle::new(self.next_handle);
        let ghost old_t = self.active_tickets@;
        proof {
            let p = has_handle(handle.0);
            lemma_found(old_t, p, 0);
        }
        self.next_handle = self.next_handle + 1;
        self.active_tickets.push((handle.as_u32(), true));
        proof {
            let p = has_handle(handle.0);
            lemma_push_first(old_t, p, (handle.0, true));
            assert forall|h: u32| h != handle.0 implies self.ticket_state(h) == old(self).ticket_state(h) by {
                lemma_same_index(old_t, self.active_tickets@, has_handle(h));
            }
        }
        let mut data: Vec<u8> = Vec::new();
        push_le32(&mut data, self.app_id);
        push_le64(&mut data, owner.as_u64());
        push_le32(&mut data, handle.as_u32());
        while data.len() < ISSUED_TICKET_SIZE
            invariant
                16 <= data@.len() <= ISSUED_TICKET_SIZE,
                data@.subrange(0, 16) == le32(old(self).app_id) + le64(owner.0) + le32(handle.0),
                forall|k: int| 16 <= k < data@.len() ==> data@[k] == 0u8,
            decreases ISSUED_TICKET_SIZE - data@.len(),
        {
            data.push(0u8);
        }
        assert(data@ =~= ticket_body(old(self).app_id, owner.0, handle.0)) by {
            assert(data@.subrange(0, 16) =~= le32(old(self).app_id) + le64(owner.0) + le32(handle.0));
        }
        AuthTicket::new(handle, data, owner, self.app_id)
    }

    /// Marks ticket `handle` cancelled; nothing for an unknown handle.
    pub fn cancel_ticket(&mut self, handle: AuthTicketHandle)
        requires
            old(self).wf(),
        ensures
            final(self).wf(),
            old(self).ticket_state(handle.0) is Some ==> final(self).ticket_state(handle.0) == Some(false),
            old(self).ticket_state(handle.0) is None ==> final(self).ticket_state(handle.0) is None,
            forall|h: u32| h != handle.0 ==> final(self).ticket_state(h) == old(self).ticket_state(h),
            final(self).spec_next_handle() == old(self).spec_next_handle(),
            final(self).spec_app_id() == old(self).spec_app_id(),
    {
        if let Some(i) = self.find(handle.0) {
            let ghost old_t = self.active_tickets@;
            proof {
                lemma_found(old_t, has_handle(handle.0), 0);
                assert(has_handle(handle.0)(old_t[i as int]));
            }
            self.active_tickets[i] = (handle.0, false);
            proof {
                lemma_update_first(old_t, has_handle(handle.0), i as int, (handle.0, false));
                assert forall|h: u32| h != handle.0 implies self.ticket_state(h) == old(self).ticket_state(h) by {
                    lemma_same_index(old_t, self.active_tickets@, has_handle(h));
                }
                assert forall|k: int| 0 <= k < self.active_tickets@.len() implies 1 <= (#[trigger] self.active_tickets@[k]).0 < self.next_handle by {
                    assert(self.active_tickets@[k].0 == old_t[k].0);
                }
            }
        }
    }

    /// Whether ticket `handle` was issued and is still active.
    pub fn is_ticket_valid(&self, handle: AuthTicketHandle) -> (r: bool)
        ensures
            r == (self.ticket_state(handle.0) == Some(true)),
    {
        match self.find(handle.0) {
            Some(i) => self.active_tickets[i].1,
            None => false,
        }
    }

    /// Validates by handle alone: handle 0 and unknown handles are invalid,
    /// cancelled tickets are reported as such.
    pub fn validate_ticket_by_handle(&self, handle: AuthTicketHandle) -> (r: AuthSessionResponse)
        ensures
            r == if handle.0 == 0 {
                AuthSessionResponse::AuthTicketInvalid
            } else {
                match self.ticket_state(handle.0) {
                    Some(true) => AuthSessionResponse::Accepted,
                    Some(false) => AuthSessionResponse::AuthTicketCanceled,
                    None => AuthSessionResponse::AuthTicketInvalid,
                }
            },
    {
        if !handle.is_valid() {
            return AuthSessionResponse::AuthTicketInvalid;
        }
        match self.find(handle.0) {
            Some(i) => if self.active_tickets[i].1 {
                AuthSessionResponse::Accepted
            } else {
                AuthSessionResponse::AuthTicketCanceled
            },
            None => AuthSessionResponse::AuthTicketInvalid,
        }
    }

    /// Validates a presented ticket for `expected_owner`, checking in turn
    /// its size, its handle, that it is active, its owner and its app.
    pub fn validate_ticket(&self, ticket: &AuthTicket, expected_owner: SteamId) -> (r: AuthSessionResponse)
        ensures
            r == if !(ticket.data@.len() > 0 && ticket.data@.len() <= MAX_AUTH_TICKET_SIZE) || ticket.handle.0 == 0 {
                AuthSessionResponse::AuthTicketInvalid
            } else if self.ticket_state(ticket.handle.0) != Some(true) {
                AuthSessionResponse::AuthTicketCanceled
            } else if ticket.owner != expected_owner {
                AuthSessionResponse::AuthTicketInvalid
            } else if ticket.app_id != self.spec_app_id() {
                AuthSessionResponse::NoLicenseOrExpired
            } else {
                AuthSessionResponse::Accepted
            },
    {
        if !ticket.is_valid_size() {
            return AuthSessionResponse::AuthTicketInvalid;
        }
        if !ticket.handle.is_valid() {
            return AuthSessionResponse::AuthTicketInvalid;
        }
        if !self.is_ticket_valid(ticket.handle) {
            return AuthSessionResponse::AuthTicketCanceled;
        }
        if ticket.owner != expected_owner {
            return AuthSessionResponse::AuthTicketInvalid;
        }
        if ticket.app_id != self.app_id {
            return AuthSessionResponse::NoLicenseOrExpired;
        }
        AuthSessionResponse::Accepted
    }
}

fn push_le32(v: &mut Vec<u8>, x: u32)
    ensures
        final(v)@ == old(v)@ + le32(x),
{
    v.push(x as u8);
    v.push((x >> 8u32) as u8);
    v.push((x >> 16u32) as u8);
    v.push((x >> 24u32) as u8);
    assert(v@ =~= old(v)@ + le32(x));
}

fn push_le64(v: &mut Vec<u8>, x: u64)
    ensures
        final(v)@ == old(v)@ + le64(x),
{
    v.push(x as u8);
    v.push((x >> 8u64) as u8);
    v.push((x >> 16u64) as u8);
    v.push((x >> 24u64) as u8);
    v.push((x >> 32u64) as u8);
    v.push((x >> 40u64) as u8);
    v.push((x >> 48u64) as u8);
    v.push((x >> 56u64) as u8);
    assert(v@ =~= old(v)@ + le64(x));
}

proof fn lemma_ban_update(s: Seq<(SteamId, VacBanStatus)>, id: SteamId, st: VacBanStatus, i: int)
    requires
        0 <= i < s.len(),
        ban_at(s, id, 0) == i,
    ensures
        ban_at(s.update(i, (id, st)), id, 0) == i,
        forall|other: SteamId| other != id ==> ban_at(s.update(i, (id, st)), other, 0) == ban_at(s, other, 0)
            && (ban_at(s, other, 0) >= 0 ==> s.update(i, (id, st))[ban_at(s, other, 0)] == s[ban_at(s, other, 0)]),
{
    let t = s.update(i, (id, st));
    lemma_ban_found(s, id, 0);
    lemma_ban_same(t, s, id, i, 0);
    assert forall|other: SteamId| other != id implies ban_at(t, other, 0) == ban_at(s, other, 0) by {
        lemma_ban_other(t, s, other, id, i, 0);
    }
    assert forall|other: SteamId| other != id && ban_at(s, other, 0) >= 0 implies t[ban_at(s, other, 0)] == s[ban_at(s, other, 0)] by {
        lemma_ban_found(s, other, 0);
        assert(ban_at(s, other, 0) != i);
    }
}

proof fn lemma_ban_found(s: Seq<(SteamId, VacBanStatus)>, id: SteamId, m: int)
    requires
        0 <= m,
        ban_at(s, id, m) >= 0,
    ensures
        m <= ban_at(s, id, m) < s.len(),
        s[ban_at(s, id, m)].0 == id,
    decreases s.len() - m,
{
    if m < s.len() && s[m].0 != id {
        lemma_ban_found(s, id, m + 1);
    }
}

proof fn lemma_ban_same(t: Seq<(SteamId, VacBanStatus)>, s: Seq<(SteamId, VacBanStatus)>, id: SteamId, i: int, m: int)
    requires
        t.len() == s.len(),
        0 <= m <= i < s.len(),
        ban_at(s, id, m) == i,
        t[i].0 == id,
        forall|q: int| 0 <= q < s.len() && q != i ==> t[q] == s[q],
    ensures
        ban_at(t, id, m) == i,
    decreases i - m,
{
    if m < i {
        lemma_ban_same(t, s, id, i, m + 1);
    }
}

proof fn lemma_ban_other(
    t: Seq<(SteamId, VacBanStatus)>,
    s: Seq<(SteamId, VacBanStatus)>,
    other: SteamId,
    id: SteamId,
    i: int,
    m: int,
)
    requires
        t.len() == s.len(),
        0 <= i < s.len(),
        0 <= m,
        other != id,
        t[i].0 == id,
        s[i].0 == id,
        forall|q: int| 0 <= q < s.len() && q != i ==> t[q] == s[q],
    ensures
        ban_at(t, other, m) == ban_at(s, other, m),
    decreases s.len() - m,
{
    if m < s.len() {
        lemma_ban_other(t, s, other, id, i, m + 1);
    }
}

proof fn lemma_ban_push(s: Seq<(SteamId, VacBanStatus)>, id: SteamId, st: VacBanStatus)
    requires
        ban_at(s, id, 0) == -1,
    ensures
        ban_at(s.push((id, st)), id, 0) == s.len(),
        forall|other: SteamId| other != id ==> ban_at(s.push((id, st)), other, 0) == ban_at(s, other, 0)
            && (ban_at(s, other, 0) >= 0 ==> s.push((id, st))[ban_at(s, other, 0)] == s[ban_at(s, other, 0)]),
{
    let t = s.push((id, st));
    lemma_ban_push_scan(s, id, st, 0);
    assert forall|other: SteamId| other != id implies ban_at(t, other, 0) == ban_at(s, other, 0) by {
        lemma_ban_push_other(s, id, st, other, 0);
    }
    assert forall|other: SteamId| other != id && ban_at(s, other, 0) >= 0 implies t[ban_at(s, other, 0)] == s[ban_at(s, other, 0)] by {
        lemma_ban_found(s, other, 0);
    }
}

proof fn lemma_ban_push_scan(s: Seq<(SteamId, VacBanStatus)>, id: SteamId, st: VacBanStatus, m: int)
    requires
        0 <= m <= s.len(),
        ban_at(s, id, m) == -1,
    ensures
        ban_at(s.push((id, st)), id, m) == s.len(),
    decreases s.len() - m,
{
    if m < s.len() {
        lemma_ban_push_scan(s, id, st, m + 1);
    }
}

proof fn lemma_ban_push_other(s: Seq<(SteamId, VacBanStatus)>, id: SteamId, st: VacBanStatus, other: SteamId, m: int)
    requires
        0 <= m <= s.len(),
        other != id,
    ensures
        ban_at(s.push((id, st)), other, m) == ban_at(s, other, m),
    decreases s.len() - m,
{
    if m < s.len() {
        lemma_ban_push_other(s, id, st, other, m + 1);
    } else {
        assert(ban_at(s.push((id, st)), other, m + 1) == -1);
    }
}

} // verus!
