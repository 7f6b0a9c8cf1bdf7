//! Ownership of the base app and its downloadable content: licenses,
//! installs, family sharing, free weekends and game bans, kept in memory.
use std::time::{Duration, Instant};
use vstd::prelude::*;

use crate::keyed::{contains_u32, find_key, lookup, set_insert, set_key, set_remove};
use crate::steam_id::SteamId;

verus! {

/// An application id.
pub type AppId = u32;

/// What is known of one piece of downloadable content.
#[derive(Debug, Clone)]
pub struct DlcInfo {
    pub app_id: AppId,
    pub name: String,
    pub available: bool,
    pub installed: bool,
}

/// Kind of license held for an app.
#[derive(Debug, Clone, Copy, PartialEq, Eq, Structural)]
pub enum LicenseType {
    Permanent,
    Temporary,
    FamilySharing,
    FreeToPlay,
    Unlicensed,
}

/// State of a free weekend.
#[derive(Debug, Clone)]
pub struct FreeWeekendInfo {
    pub active: bool,
    pub ends_at: Option<Instant>,
    pub time_remaining: Option<Duration>,
}

/// A ban from an app.
#[derive(Debug, Clone)]
pub struct GameBan {
    pub app_id: AppId,
    pub issued_at: u64,
    pub permanent: bool,
    pub reason: Option<String>,
}

/// Licenses and content of one base app.
pub struct EntitlementManager {
    base_app_id: AppId,
    owned_dlc: Vec<AppId>,
    installed_dlc: Vec<AppId>,
    dlc_info: Vec<(AppId, DlcInfo)>,
    licenses: Vec<(AppId, LicenseType)>,
    family_sharing_lender: Option<SteamId>,
    free_weekend_active: bool,
    game_bans: Vec<GameBan>,
    install_dirs: Vec<(AppId, String)>,
}

impl EntitlementManager {
    /// The base app.
    pub closed spec fn base(&self) -> AppId {
        self.base_app_id
    }

    /// Owned content.
    pub closed spec fn owned(&self) -> Seq<AppId> {
        self.owned_dlc@
    }

    /// Installed content.
    pub closed spec fn installed(&self) -> Seq<AppId> {
        self.installed_dlc@
    }

    /// Known content, keyed by app id.
    pub closed spec fn infos(&self) -> Seq<(AppId, DlcInfo)> {
        self.dlc_info@
    }

    /// Licenses, keyed by app id.
    pub closed spec fn licenses(&self) -> Seq<(AppId, LicenseType)> {
        self.licenses@
    }

    /// The lending account, if the base app is borrowed.
    pub closed spec fn lender(&self) -> Option<SteamId> {
        self.family_sharing_lender
    }

    /// Free weekend on.
    pub closed spec fn free_weekend(&self) -> bool {
        self.free_weekend_active
    }

    /// Bans, in the order they were added.
    pub closed spec fn bans(&self) -> Seq<GameBan> {
        self.game_bans@
    }

    /// Install directories, keyed by app id.
    pub closed spec fn dirs(&self) -> Seq<(AppId, String)> {
        self.install_dirs@
    }

    /// The license of `app_id`, `Unlicensed` when none is recorded.
    pub open spec fn license_of(&self, app_id: AppId) -> LicenseType {
        match lookup(self.licenses(), app_id) {
            Some(l) => l,
            None => LicenseType::Unlicensed,
        }
    }

    /// Nothing owned, licensed, installed or banned.
    pub fn new(base_app_id: AppId) -> (r: Self)
        ensures
            r.base() == base_app_id,
            r.owned().len() == 0 && r.installed().len() == 0 && r.infos().len() == 0,
            r.licenses().len() == 0 && r.bans().len() == 0 && r.dirs().len() == 0,
            r.lender() is None && !r.free_weekend(),
    {
        EntitlementManager {
            base_app_id,
            owned_dlc: Vec::new(),
            installed_dlc: Vec::new(),
            dlc_info: Vec::new(),
            licenses: Vec::new(),
            family_sharing_lender: None,
            free_weekend_active: false,
            game_bans: Vec::new(),
            install_dirs: Vec::new(),
        }
    }

    /// Whether `dlc_app_id` is installed.
    pub fn is_dlc_installed(&self, dlc_app_id: AppId) -> (r: bool)
        ensures
            r == self.installed().contains(dlc_app_id),
    {
        contains_u32(&self.installed_dlc, dlc_app_id)
    }

    /// Number of known content items.
    pub fn get_dlc_count(&self) -> (r: usize)
        ensures
            r == self.infos().len(),
    {
        self.dlc_info.len()
    }

    /// The content item at `index`.
    pub fn get_dlc_data_by_index(&self, index: usize) -> (r: Option<&DlcInfo>)
        ensures
            index < self.infos().len() ==> r == Some(&self.infos()[index as int].1),
            index >= self.infos().len() ==> r is None,
    {
        if index < self.dlc_info.len() {
            Some(&self.dlc_info[index].1)
        } else {
            None
        }
    }

    /// What is known of `dlc_app_id`.
    pub fn get_dlc_info(&self, dlc_app_id: AppId) -> (r: Option<&DlcInfo>)
        ensures
            match lookup(self.infos(), dlc_app_id) {
                Some(d) => r == Some(&d),
                None => r is None,
            },
    {
        match find_key(&self.dlc_info, dlc_app_id) {
            Some(i) => Some(&self.dlc_info[i].1),
            None => None,
        }
    }

    fn mark_installed(&mut self, dlc_app_id: AppId, installed: bool)
        ensures
            match lookup(old(self).infos(), dlc_app_id) {
                Some(d) => lookup(final(self).infos(), dlc_app_id) matches Some(e) && e.installed == installed
                    && e.app_id == d.app_id && e.name == d.name && e.available == d.available,
                None => final(self).infos() == old(self).infos(),
            },
            forall|k: AppId| k != dlc_app_id ==> #[trigger] lookup(final(self).infos(), k) == lookup(old(self).infos(), k),
            final(self).owned() == old(self).owned(),
            final(self).installed() == old(self).installed(),
            final(self).licenses() == old(self).licenses(),
            final(self).base() == old(self).base(),
    {
        if let Some(i) = find_key(&self.dlc_info, dlc_app_id) {
            let (k, mut d) = self.dlc_info.remove(i);
            d.installed = installed;
            self.dlc_info.insert(i, (k, d));
            proof {
                let s = old(self).dlc_info@;
                assert(self.dlc_info@ =~= s.update(i as int, (k, d)));
                crate::keyed::lemma_update_first(s, crate::keyed::key_is::<DlcInfo>(dlc_app_id), i as int, (k, d));
                assert forall|k2: AppId| k2 != dlc_app_id implies #[trigger] lookup(self.dlc_info@, k2) == lookup(s, k2) by {
                    crate::keyed::lemma_same_index(s, self.dlc_info@, crate::keyed::key_is::<DlcInfo>(k2));
                }
            }
        }
    }

    /// Installs owned content; reports whether it was owned.
    pub fn install_dlc(&mut self, dlc_app_id: AppId) -> (r: bool)
        ensures
            r == old(self).owned().contains(dlc_app_id),
            r ==> final(self).installed().contains(dlc_app_id),
            !r ==> final(self).installed() == old(self).installed() && final(self).infos() == old(self).infos(),
            forall|x: AppId| x != dlc_app_id ==> (final(self).installed().contains(x) <==> old(self).installed().contains(x)),
            r ==> (lookup(old(self).infos(), dlc_app_id) is Some ==> (lookup(final(self).infos(), dlc_app_id) matches Some(e)
                && e.installed)),
            final(self).owned() == old(self).owned(),
            final(self).licenses() == old(self).licenses(),
    {
        if !contains_u32(&self.owned_dlc, dlc_app_id) {
            return false;
        }
        set_insert(&mut self.installed_dlc, dlc_app_id);
        self.mark_installed(dlc_app_id, true);
        true
    }

    /// Uninstalls content.
    pub fn uninstall_dlc(&mut self, dlc_app_id: AppId)
        ensures
            !final(self).installed().contains(dlc_app_id),
            forall|x: AppId| x != dlc_app_id ==> (final(self).installed().contains(x) <==> old(self).installed().contains(x)),
            lookup(old(self).infos(), dlc_app_id) is Some ==> (lookup(final(self).infos(), dlc_app_id) matches Some(e) && !e.installed),
            final(self).owned() == old(self).owned(),
            final(self).licenses() == old(self).licenses(),
    {
        set_remove(&mut self.installed_dlc, dlc_app_id);
        self.mark_installed(dlc_app_id, false);
    }

    /// Records content `app_id` named `name`; owned content is available,
    /// and counts as installed if it already was.
    pub fn add_dlc(&mut self, app_id: AppId, name: &str, owned: bool)
        ensures
            lookup(final(self).infos(), app_id) matches Some(d) && d.app_id == app_id && d.name@ == name@
                && d.available == owned && d.installed == (owned && old(self).installed().contains(app_id)),
            owned ==> final(self).owned().contains(app_id),
            !owned ==> final(self).owned() == old(self).owned(),
            forall|x: AppId| x != app_id ==> (final(self).owned().contains(x) <==> old(self).owned().contains(x)),
            final(self).installed() == old(self).installed(),
            final(self).licenses() == old(self).licenses(),
    {
        let installed = owned && contains_u32(&self.installed_dlc, app_id);
        set_key(&mut self.dlc_info, app_id, DlcInfo { app_id, name: name.to_owned(), available: owned, installed });
        if owned {
            set_insert(&mut self.owned_dlc, app_id);
        }
    }

    /// Whether `app_id` is licensed in any way.
    pub fn is_subscribed_app(&self, app_id: AppId) -> (r: bool)
        ensures
            r == (self.license_of(app_id) != LicenseType::Unlicensed),
    {
        match find_key(&self.licenses, app_id) {
            Some(i) => self.licenses[i].1 != LicenseType::Unlicensed,
            None => false,
        }
    }

    /// The license of `app_id`.
    pub fn get_license_type(&self, app_id: AppId) -> (r: LicenseType)
        ensures
            r == self.license_of(app_id),
    {
        match find_key(&self.licenses, app_id) {
            Some(i) => self.licenses[i].1,
            None => LicenseType::Unlicensed,
        }
    }

    /// Records the license of `app_id`.
    pub fn set_license(&mut self, app_id: AppId, license_type: LicenseType)
        ensures
            final(self).license_of(app_id) == license_type,
            forall|k: AppId| k != app_id ==> final(self).license_of(k) == old(self).license_of(k),
            final(self).base() == old(self).base(),
            final(self).free_weekend() == old(self).free_weekend(),
            final(self).lender() == old(self).lender(),
    {
        set_key(&mut self.licenses, app_id, license_type);
    }

    /// The base app is held through an active free weekend.
    pub fn is_subscribed_from_free_weekend(&self) -> (r: bool)
        ensures
            r == (self.free_weekend() && self.license_of(self.base()) == LicenseType::Temporary),
    {
        self.free_weekend_active && self.get_license_type(self.base_app_id) == LicenseType::Temporary
    }

    /// Starts or ends a free weekend; starting grants a temporary license
    /// to the base app.
    pub fn set_free_weekend(&mut self, active: bool)
        ensures
            final(self).free_weekend() == active,
            active ==> final(self).license_of(final(self).base()) == LicenseType::Temporary,
            !active ==> final(self).licenses() == old(self).licenses(),
            final(self).base() == old(self).base(),
            final(self).lender() == old(self).lender(),
    {
        self.free_weekend_active = active;
        if active {
            let base = self.base_app_id;
            self.set_license(base, LicenseType::Temporary);
        }
    }

    /// The base app is borrowed.
    pub fn is_subscribed_from_family_sharing(&self) -> (r: bool)
        ensures
            r == self.lender() is Some,
    {
        self.family_sharing_lender.is_some()
    }

    /// The lending account.
    pub fn get_family_sharing_lender(&self) -> (r: Option<SteamId>)
        ensures
            r == self.lender(),
    {
        self.family_sharing_lender
    }

    /// Sets or clears the lender; a lender grants a family-sharing license
    /// to the base app.
    pub fn set_family_sharing(&mut self, lender: Option<SteamId>)
        ensures
            final(self).lender() == lender,
            lender is Some ==> final(self).license_of(final(self).base()) == LicenseType::FamilySharing,
            lender is None ==> final(self).licenses() == old(self).licenses(),
            final(self).base() == old(self).base(),
            final(self).free_weekend() == old(self).free_weekend(),
    {
        self.family_sharing_lender = lender;
        if lender.is_some() {
            let base = self.base_app_id;
            self.set_license(base, LicenseType::FamilySharing);
        }
    }

    /// The install directory of `app_id`.
    pub fn get_app_install_dir(&self, app_id: AppId) -> (r: Option<&str>)
        ensures
            match lookup(self.dirs(), app_id) {
                Some(d) => r matches Some(s) && s@ == d@,
                None => r is None,
            },
    {
        match find_key(&self.install_dirs, app_id) {
            Some(i) => Some(self.install_dirs[i].1.as_str()),
            None => None,
        }
    }

    /// Records the install directory of `app_id`.
    pub fn set_install_dir(&mut self, app_id: AppId, path: &str)
        ensures
            lookup(final(self).dirs(), app_id) matches Some(d) && d@ == path@,
            forall|k: AppId| k != app_id ==> #[trigger] lookup(final(self).dirs(), k) == lookup(old(self).dirs(), k),
    {
        set_key(&mut self.install_dirs, app_id, path.to_owned());
    }

    /// Whether any ban is recorded.
    pub fn has_game_ban(&self) -> (r: bool)
        ensures
            r == (self.bans().len() > 0),
    {
        self.game_bans.len() > 0
    }

    /// The recorded bans.
    pub fn get_game_bans(&self) -> (r: &[GameBan])
        ensures
            r@ == self.bans(),
    {
        self.game_bans.as_slice()
    }

    /// Records a ban.
    pub fn add_game_ban(&mut self, ban: GameBan)
        ensures
            final(self).bans() == old(self).bans().push(ban),
    {
        self.game_bans.push(ban);
    }

    /// Whether a ban from `app_id` is recorded.
    pub fn is_banned_from_app(&self, app_id: AppId) -> (r: bool)
        ensures
            r == exists|k: int| 0 <= k < self.bans().len() && #[trigger] self.bans()[k].app_id == app_id,
    {
        let mut i: usize = 0;
        while i < self.game_bans.len()
            invariant
                i <= self.game_bans@.len(),
                forall|k: int| 0 <= k < i ==> self.game_bans@[k].app_id != app_id,
            decreases self.game_bans@.len() - i,
        {
            if self.game_bans[i].app_id == app_id {
                return true;
            }
            i = i + 1;
        }
        false
    }
}

} // verus!
