//! Avatar images: requests, a cache keyed by user and size, completion
//! callbacks and generated placeholder images, kept in memory.
use vstd::prelude::*;

use crate::keyed::{first_index, index_from};

verus! {

/// Avatar sizes.
#[derive(Debug, Clone, Copy, PartialEq, Eq, Hash, Structural)]
pub enum AvatarSize {
    Small,
    Medium,
    Large,
}

impl AvatarSize {
    /// Side length in pixels.
    pub open spec fn side(self) -> u32 {
        match self {
            AvatarSize::Small => 32,
            AvatarSize::Medium => 64,
            AvatarSize::Large => 128,
        }
    }

    /// Width and height in pixels: 32, 64 or 128 square.
    pub fn dimensions(&self) -> (r: (u32, u32))
        ensures
            r == (self.side(), self.side()),
    {
        match self {
            AvatarSize::Small => (32, 32),
            AvatarSize::Medium => (64, 64),
            AvatarSize::Large => (128, 128),
        }
    }

    /// Bytes of an RGBA image of this size.
    pub fn byte_size(&self) -> (r: usize)
        ensures
            r == self.side() * self.side() * 4,
    {
        let (w, h) = self.dimensions();
        (w * h * 4) as usize
    }
}

/// Outcome of an avatar request.
#[derive(Debug, Clone, Copy, PartialEq, Eq, Structural)]
pub enum AvatarResult {
    Handle(i32),
    NotCached,
    NoAvatar,
    Error,
}

/// An RGBA image.
#[derive(Debug, Clone)]
pub struct AvatarImage {
    pub handle: i32,
    pub data: Vec<u8>,
    pub width: u32,
    pub height: u32,
}

/// Pixel `j` of an RGBA buffer.
pub open spec fn pixel(d: Seq<u8>, j: int) -> Seq<u8> {
    d.subrange(4 * j, 4 * j + 4)
}

/// `d` is `n` pixels, each the colour `c`.
pub open spec fn filled(d: Seq<u8>, n: int, c: Seq<u8>) -> bool {
    &&& d.len() == 4 * n
    &&& forall|j: int| 0 <= j < n ==> #[trigger] pixel(d, j) == c
}

/// The colour of the generated image for `handle`.
pub open spec fn colour_of(handle: i32) -> Seq<u8> {
    seq![((handle * 17) % 256) as u8, ((handle * 31) % 256) as u8, ((handle * 47) % 256) as u8, 255u8]
}

/// The grey of the default image.
pub open spec fn grey() -> Seq<u8> {
    seq![128u8, 128u8, 128u8, 255u8]
}

fn fill(n: u32, r: u8, g: u8, b: u8) -> (d: Vec<u8>)
    requires
        n <= 16384,
    ensures
        filled(d@, n as int, seq![r, g, b, 255u8]),
{
    let mut d: Vec<u8> = Vec::new();
    let mut i: u32 = 0;
    while i < n
        invariant
            i <= n <= 16384,
            filled(d@, i as int, seq![r, g, b, 255u8]),
        decreases n - i,
    {
        let ghost before = d@;
        d.push(r);
        d.push(g);
        d.push(b);
        d.push(255u8);
        proof {
            assert forall|j: int| 0 <= j < i + 1 implies #[trigger] pixel(d@, j) == seq![r, g, b, 255u8] by {
                if j < i {
                    assert(pixel(d@, j) =~= pixel(before, j));
                } else {
                    assert(pixel(d@, j) =~= seq![r, g, b, 255u8]);
                }
            }
        }
        i = i + 1;
    }
    d
}

impl AvatarImage {
    /// A generated image for `handle`: every pixel has the colour
    /// `(17h, 31h, 47h) mod 256` with full alpha.
    pub fn new(handle: i32, size: AvatarSize) -> (r: Self)
        requires
            0 <= handle <= MAX_AVATAR_HANDLE,
        ensures
            r.handle == handle,
            r.width == size.side() && r.height == size.side(),
            filled(r.data@, size.side() * size.side(), colour_of(handle)),
    {
        let (width, height) = size.dimensions();
        let red = ((handle * 17) % 256) as u8;
        let green = ((handle * 31) % 256) as u8;
        let blue = ((handle * 47) % 256) as u8;
        let data = fill(width * height, red, green, blue);
        AvatarImage { handle, data, width, height }
    }

    /// The grey placeholder image (handle 0).
    pub fn default_avatar(size: AvatarSize) -> (r: Self)
        ensures
            r.handle == 0,
            r.width == size.side() && r.height == size.side(),
            filled(r.data@, size.side() * size.side(), grey()),
    {
        let (width, height) = size.dimensions();
        let data = fill(width * height, 128u8, 128u8, 128u8);
        AvatarImage { handle: 0, data, width, height }
    }
}

/// Notice that an avatar finished loading.
#[derive(Debug, Clone, Copy)]
pub struct AvatarImageLoaded {
    pub steam_id: u64,
    pub image: i32,
    pub wide: i32,
    pub tall: i32,
}

/// Whether a cache entry is for `id` at `size`.
pub open spec fn cache_key(id: u64, size: AvatarSize) -> spec_fn((u64, AvatarSize, AvatarImage)) -> bool {
    |e: (u64, AvatarSize, AvatarImage)| e.0 == id && e.1 == size
}

/// Whether a cache entry holds the image with `h`.
pub open spec fn image_handle(h: i32) -> spec_fn((u64, AvatarSize, AvatarImage)) -> bool {
    |e: (u64, AvatarSize, AvatarImage)| e.2.handle == h
}

/// Largest handle the manager hands out.
pub const MAX_AVATAR_HANDLE: i32 = 45691141;

/// Avatar requests and the image cache.
pub struct AvatarManager {
    cache: Vec<(u64, AvatarSize, AvatarImage)>,
    no_avatar_users: Vec<u64>,
    pending: Vec<(u64, AvatarSize)>,
    callbacks: Vec<AvatarImageLoaded>,
    next_handle: i32,
    local_user: u64,
    cache_hits: usize,
    cache_misses: usize,
}

impl AvatarManager {
    /// The cached images with their user and size.
    pub closed spec fn cache(&self) -> Seq<(u64, AvatarSize, AvatarImage)> {
        self.cache@
    }

    /// Users known to have no avatar.
    pub closed spec fn no_avatar(&self) -> Seq<u64> {
        self.no_avatar_users@
    }

    /// Requests waiting to be loaded, in request order.
    pub closed spec fn pending(&self) -> Seq<(u64, AvatarSize)> {
        self.pending@
    }

    /// Completion notices not yet taken.
    pub closed spec fn callbacks(&self) -> Seq<AvatarImageLoaded> {
        self.callbacks@
    }

    /// Cache hits and misses so far.
    pub closed spec fn stats(&self) -> (usize, usize) {
        (self.cache_hits, self.cache_misses)
    }

    /// The local user.
    pub closed spec fn local(&self) -> u64 {
        self.local_user
    }

    /// The handle the next loaded image gets.
    pub closed spec fn spec_next_handle(&self) -> i32 {
        self.next_handle
    }

    /// Handles stay positive and small enough to colour an image.
    pub closed spec fn wf(&self) -> bool {
        1 <= self.next_handle <= MAX_AVATAR_HANDLE + 1
    }

    /// An empty manager for `local_user`.
    pub fn new(local_user: u64) -> (r: Self)
        ensures
            r.wf(),
            r.local() == local_user,
            r.cache().len() == 0 && r.no_avatar().len() == 0 && r.pending().len() == 0 && r.callbacks().len() == 0,
            r.stats() == (0usize, 0usize),
            r.spec_next_handle() == 1,
    {
        AvatarManager {
            cache: Vec::new(),
            no_avatar_users: Vec::new(),
            pending: Vec::new(),
            callbacks: Vec::new(),
            next_handle: 1,
            local_user,
            cache_hits: 0,
            cache_misses: 0,
        }
    }

    fn find_cached(&self, steam_id: u64, size: AvatarSize) -> (r: Option<usize>)
        ensures
            match r {
                Some(i) => i as int == first_index(self.cache@, cache_key(steam_id, size)) && i < self.cache@.len(),
                None => first_index(self.cache@, cache_key(steam_id, size)) == -1,
            },
    {
        let ghost p = cache_key(steam_id, size);
        let mut i: usize = 0;
        while i < self.cache.len()
            invariant
                i <= self.cache@.len(),
                p == cache_key(steam_id, size),
                index_from(self.cache@, p, i as int) == first_index(self.cache@, p),
            decreases self.cache@.len() - i,
        {
            if self.cache[i].0 == steam_id && self.cache[i].1 == size {
                assert(p(self.cache@[i as int]));
                return Some(i);
            }
            assert(!p(self.cache@[i as int]));
            i = i + 1;
        }
        None
    }

    /// Whether an image for `steam_id` at `size` is cached.
    pub open spec fn spec_is_cached(&self, steam_id: u64, size: AvatarSize) -> bool {
        first_index(self.cache(), cache_key(steam_id, size)) >= 0
    }

    /// Requests the avatar of `steam_id` at `size`: `NoAvatar` for a user
    /// known to have none, the cached handle on a hit, otherwise
    /// `NotCached`, queuing the request once.
    pub fn get_avatar(&mut self, steam_id: u64, size: AvatarSize) -> (r: AvatarResult)
        requires
            old(self).wf(),
            old(self).stats().0 < usize::MAX && old(self).stats().1 < usize::MAX,
        ensures
            final(self).wf(),
            final(self).cache() == old(self).cache(),
            final(self).no_avatar() == old(self).no_avatar(),
            final(self).callbacks() == old(self).callbacks(),
            final(self).local() == old(self).local(),
            final(self).spec_next_handle() == old(self).spec_next_handle(),
            old(self).no_avatar().contains(steam_id) ==> r == AvatarResult::NoAvatar && final(self).pending() == old(self).pending()
                && final(self).stats() == old(self).stats(),
            !old(self).no_avatar().contains(steam_id) && old(self).spec_is_cached(steam_id, size) ==> r == AvatarResult::Handle(
                old(self).cache()[first_index(old(self).cache(), cache_key(steam_id, size))].2.handle)
                && final(self).stats() == ((old(self).stats().0 + 1) as usize, old(self).stats().1)
                && final(self).pending() == old(self).pending(),
            !old(self).no_avatar().contains(steam_id) && !old(self).spec_is_cached(steam_id, size) ==> r == AvatarResult::NotCached
                && final(self).stats() == (old(self).stats().0, (old(self).stats().1 + 1) as usize)
                && final(self).pending() == if old(self).pending().contains((steam_id, size)) {
                    old(self).pending()
                } else {
                    old(self).pending().push((steam_id, size))
                },
    {
        if contains_u64(&self.no_avatar_users, steam_id) {
            return AvatarResult::NoAvatar;
        }
        if let Some(i) = self.find_cached(steam_id, size) {
            self.cache_hits = self.cache_hits + 1;
            return AvatarResult::Handle(self.cache[i].2.handle);
        }
        self.cache_misses = self.cache_misses + 1;
        if !contains_request(&self.pending, steam_id, size) {
            self.pending.push((steam_id, size));
        }
        AvatarResult::NotCached
    }

    /// Small avatar of `steam_id`.
    pub fn get_small_friend_avatar(&mut self, steam_id: u64) -> (r: AvatarResult)
        requires
            old(self).wf(),
            old(self).stats().0 < usize::MAX && old(self).stats().1 < usize::MAX,
        ensures
            final(self).wf(),
            old(self).no_avatar().contains(steam_id) ==> r == AvatarResult::NoAvatar,
            !old(self).no_avatar().contains(steam_id) && !old(self).spec_is_cached(steam_id, AvatarSize::Small) ==> r == AvatarResult::NotCached,
            !old(self).no_avatar().contains(steam_id) && old(self).spec_is_cached(steam_id, AvatarSize::Small) ==> r is Handle,
    {
        self.get_avatar(steam_id, AvatarSize::Small)
    }

    /// Medium avatar of `steam_id`.
    pub fn get_medium_friend_avatar(&mut self, steam_id: u64) -> (r: AvatarResult)
        requires
            old(self).wf(),
            old(self).stats().0 < usize::MAX && old(self).stats().1 < usize::MAX,
        ensures
            final(self).wf(),
            old(self).no_avatar().contains(steam_id) ==> r == AvatarResult::NoAvatar,
            !old(self).no_avatar().contains(steam_id) && !old(self).spec_is_cached(steam_id, AvatarSize::Medium) ==> r == AvatarResult::NotCached,
            !old(self).no_avatar().contains(steam_id) && old(self).spec_is_cached(steam_id, AvatarSize::Medium) ==> r is Handle,
    {
        self.get_avatar(steam_id, AvatarSize::Medium)
    }

    /// Large avatar of `steam_id`.
    pub fn get_large_friend_avatar(&mut self, steam_id: u64) -> (r: AvatarResult)
        requires
            old(self).wf(),
            old(self).stats().0 < usize::MAX && old(self).stats().1 < usize::MAX,
        ensures
            final(self).wf(),
            old(self).no_avatar().contains(steam_id) ==> r == AvatarResult::NoAvatar,
            !old(self).no_avatar().contains(steam_id) && !old(self).spec_is_cached(steam_id, AvatarSize::Large) ==> r == AvatarResult::NotCached,
            !old(self).no_avatar().contains(steam_id) && old(self).spec_is_cached(steam_id, AvatarSize::Large) ==> r is Handle,
    {
        self.get_avatar(steam_id, AvatarSize::Large)
    }

    /// The local user's avatar at `size`.
    pub fn get_my_avatar(&mut self, size: AvatarSize) -> (r: AvatarResult)
        requires
            old(self).wf(),
            old(self).stats().0 < usize::MAX && old(self).stats().1 < usize::MAX,
        ensures
            final(self).wf(),
            old(self).no_avatar().contains(old(self).local()) ==> r == AvatarResult::NoAvatar,
            !old(self).no_avatar().contains(old(self).local()) && !old(self).spec_is_cached(old(self).local(), size)
                ==> r == AvatarResult::NotCached,
            !old(self).no_avatar().contains(old(self).local()) && old(self).spec_is_cached(old(self).local(), size)
                ==> r is Handle,
    {
        let me = self.local_user;
        self.get_avatar(me, size)
    }

    /// Loads every queued request, in order: each gets the next handle and
    /// a generated image, is cached, and leaves a completion notice.
    pub fn process_pending(&mut self)
        requires
            old(self).wf(),
            old(self).spec_next_handle() + old(self).pending().len() <= MAX_AVATAR_HANDLE + 1,
        ensures
            final(self).wf(),
            final(self).no_avatar() == old(self).no_avatar(),
            final(self).stats() == old(self).stats(),
            final(self).local() == old(self).local(),
            final(self).callbacks().len() - old(self).callbacks().len() == old(self).pending().len() - final(self).pending().len(),
            final(self).cache().len() >= old(self).cache().len(),
            final(self).pending().len() == 0,
            final(self).spec_next_handle() == old(self).spec_next_handle() + old(self).pending().len(),
    {
        let mut queue: Vec<(u64, AvatarSize)> = Vec::new();
        std::mem::swap(&mut queue, &mut self.pending);
        let ghost q = queue@;
        let mut i: usize = 0;
        while i < queue.len()
            invariant
                i <= queue@.len(),
                queue@ == q,
                q == old(self).pending@,
                self.pending@.len() == 0,
                1 <= self.next_handle <= MAX_AVATAR_HANDLE + 1,
                self.next_handle == old(self).next_handle + i,
                self.no_avatar_users == old(self).no_avatar_users,
                self.cache_hits == old(self).cache_hits,
                self.cache_misses == old(self).cache_misses,
                self.local_user == old(self).local_user,
                self.callbacks@.len() == old(self).callbacks@.len() + i,
                self.cache@.len() >= old(self).cache@.len(),
                old(self).next_handle + q.len() <= MAX_AVATAR_HANDLE + 1,
            decreases queue@.len() - i,
        {
            let (steam_id, size) = queue[i];
            let handle = self.next_handle;
            self.next_handle = self.next_handle + 1;
            let image = AvatarImage::new(handle, size);
            let (wide, tall) = size.dimensions();
            match self.find_cached(steam_id, size) {
                Some(j) => {
                    self.cache[j] = (steam_id, size, image);
                },
                None => {
                    self.cache.push((steam_id, size, image));
                },
            }
            self.callbacks.push(AvatarImageLoaded { steam_id, image: handle, wide: wide as i32, tall: tall as i32 });
            i = i + 1;
        }
    }

    /// Takes the most recent completion notice.
    pub fn pop_callback(&mut self) -> (r: Option<AvatarImageLoaded>)
        ensures
            old(self).callbacks().len() == 0 ==> r is None && final(self).callbacks() == old(self).callbacks(),
            old(self).callbacks().len() > 0 ==> r == Some(old(self).callbacks().last())
                && final(self).callbacks() == old(self).callbacks().drop_last(),
            final(self).cache() == old(self).cache(),
            final(self).pending() == old(self).pending(),
    {
        self.callbacks.pop()
    }

    fn find_handle(&self, handle: i32) -> (r: Option<usize>)
        ensures
            match r {
                Some(i) => i as int == first_index(self.cache@, image_handle(handle)) && i < self.cache@.len(),
                None => first_index(self.cache@, image_handle(handle)) == -1,
            },
    {
        let ghost p = image_handle(handle);
        let mut i: usize = 0;
        while i < self.cache.len()
            invariant
                i <= self.cache@.len(),
                p == image_handle(handle),
                index_from(self.cache@, p, i as int) == first_index(self.cache@, p),
            decreases self.cache@.len() - i,
        {
            if self.cache[i].2.handle == handle {
                assert(p(self.cache@[i as int]));
                return Some(i);
            }
            assert(!p(self.cache@[i as int]));
            i = i + 1;
        }
        None
    }

    /// Width and height of the cached image with `handle`.
    pub fn get_image_size(&self, handle: i32) -> (r: Option<(u32, u32)>)
        ensures
            ({
                let k = first_index(self.cache(), image_handle(handle));
                &&& k < 0 ==> r is None
                &&& k >= 0 ==> r == Some((self.cache()[k].2.width, self.cache()[k].2.height))
            }),
    {
        match self.find_handle(handle) {
            Some(i) => Some((self.cache[i].2.width, self.cache[i].2.height)),
            None => None,
        }
    }

    /// Pixels of the cached image with `handle`.
    pub fn get_image_rgba(&self, handle: i32) -> (r: Option<&[u8]>)
        ensures
            ({
                let k = first_index(self.cache(), image_handle(handle));
                &&& k < 0 ==> r is None
                &&& k >= 0 ==> (r matches Some(d) && d@ == self.cache()[k].2.data@)
            }),
    {
        match self.find_handle(handle) {
            Some(i) => Some(self.cache[i].2.data.as_slice()),
            None => None,
        }
    }

    /// The cached image of `steam_id` at `size`.
    pub fn get_cached_avatar(&self, steam_id: u64, size: AvatarSize) -> (r: Option<&AvatarImage>)
        ensures
            r is None <==> !self.spec_is_cached(steam_id, size),
            r matches Some(img) ==> *img == self.cache()[first_index(self.cache(), cache_key(steam_id, size))].2,
    {
        match self.find_cached(steam_id, size) {
            Some(i) => Some(&self.cache[i].2),
            None => None,
        }
    }

    /// Whether an image of `steam_id` at `size` is cached.
    pub fn is_cached(&self, steam_id: u64, size: AvatarSize) -> (r: bool)
        ensures
            r == self.spec_is_cached(steam_id, size),
    {
        match self.find_cached(steam_id, size) {
            Some(i) => true,
            None => false,
        }
    }

    /// Marks `steam_id` as having no avatar.
    pub fn set_no_avatar(&mut self, steam_id: u64)
        ensures
            final(self).no_avatar().contains(steam_id),
            forall|x: u64| x != steam_id ==> (final(self).no_avatar().contains(x) == old(self).no_avatar().contains(x)),
            final(self).cache() == old(self).cache(),
            final(self).pending() == old(self).pending(),
            final(self).stats() == old(self).stats(),
            final(self).spec_next_handle() == old(self).spec_next_handle(),
            final(self).local() == old(self).local(),
    {
        if !contains_u64(&self.no_avatar_users, steam_id) {
            self.no_avatar_users.push(steam_id);
            assert(self.no_avatar_users@[self.no_avatar_users@.len() - 1] == steam_id);
            assert forall|x: u64| x != steam_id implies (self.no_avatar_users@.contains(x) == old(self).no_avatar_users@.contains(x)) by {
                if self.no_avatar_users@.contains(x) {
                    let k = choose|k: int| 0 <= k < self.no_avatar_users@.len() && self.no_avatar_users@[k] == x;
                    assert(old(self).no_avatar_users@[k] == x);
                }
                if old(self).no_avatar_users@.contains(x) {
                    let k = choose|k: int| 0 <= k < old(self).no_avatar_users@.len() && old(self).no_avatar_users@[k] == x;
                    assert(self.no_avatar_users@[k] == x);
                }
            }
        }
    }

    /// Forgets that `steam_id` has no avatar.
    pub fn clear_no_avatar(&mut self, steam_id: u64)
        ensures
            final(self).no_avatar() == without(old(self).no_avatar(), steam_id),
            final(self).cache() == old(self).cache(),
            final(self).pending() == old(self).pending(),
            final(self).stats() == old(self).stats(),
            final(self).spec_next_handle() == old(self).spec_next_handle(),
            final(self).local() == old(self).local(),
    {
        let mut kept: Vec<u64> = Vec::new();
        let mut i: usize = 0;
        while i < self.no_avatar_users.len()
            invariant
                i <= self.no_avatar_users@.len(),
                self.no_avatar_users == old(self).no_avatar_users,
                kept@ == without(self.no_avatar_users@.take(i as int), steam_id),
            decreases self.no_avatar_users@.len() - i,
        {
            let x = self.no_avatar_users[i];
            if x != steam_id {
                kept.push(x);
            }
            assert(self.no_avatar_users@.take(i as int + 1).drop_last() =~= self.no_avatar_users@.take(i as int));
            i = i + 1;
        }
        assert(self.no_avatar_users@.take(self.no_avatar_users@.len() as int) =~= self.no_avatar_users@);
        self.no_avatar_users = kept;
    }

    /// The grey placeholder image at `size`.
    pub fn get_default_avatar(&self, size: AvatarSize) -> (r: AvatarImage)
        ensures
            r.handle == 0,
            r.width == size.side() && r.height == size.side(),
            filled(r.data@, size.side() * size.side(), grey()),
    {
        AvatarImage::default_avatar(size)
    }

    /// Cache hits and misses so far.
    pub fn get_cache_stats(&self) -> (r: (usize, usize))
        ensures
            r == self.stats(),
    {
        (self.cache_hits, self.cache_misses)
    }

    /// Drops every cached image of `steam_id`; other entries stay in order.
    pub fn invalidate_cache(&mut self, steam_id: u64)
        ensures
            final(self).cache() == drop_user(old(self).cache(), steam_id),
            final(self).pending() == old(self).pending(),
            final(self).no_avatar() == old(self).no_avatar(),
            final(self).stats() == old(self).stats(),
            final(self).spec_next_handle() == old(self).spec_next_handle(),
    {
        let mut rest: Vec<(u64, AvatarSize, AvatarImage)> = Vec::new();
        std::mem::swap(&mut rest, &mut self.cache);
        let ghost o = rest@;
        let ghost mut i: int = 0;
        while rest.len() > 0
            invariant
                0 <= i <= o.len(),
                rest@ == o.subrange(i, o.len() as int),
                o == old(self).cache@,
                self.pending == old(self).pending,
                self.no_avatar_users == old(self).no_avatar_users,
                self.cache_hits == old(self).cache_hits,
                self.cache_misses == old(self).cache_misses,
                self.next_handle == old(self).next_handle,
                self.cache@ == drop_user(o.take(i), steam_id),
            decreases rest@.len(),
        {
            let e = rest.remove(0);
            proof { assert(o[i] == e); }
            if e.0 != steam_id {
                self.cache.push(e);
            }
            proof {
                assert(o.take(i + 1).drop_last() =~= o.take(i));
                i = i + 1;
                assert(rest@ =~= o.subrange(i, o.len() as int));
            }
        }
        proof { assert(o.take(o.len() as int) =~= o); }
    }
}

/// `s` without the occurrences of `x`, in order.
pub open spec fn without(s: Seq<u64>, x: u64) -> Seq<u64>
    decreases s.len(),
{
    if s.len() == 0 {
        s
    } else if s.last() == x {
        without(s.drop_last(), x)
    } else {
        without(s.drop_last(), x).push(s.last())
    }
}

/// The cache entries that are not of user `id`, in order.
pub open spec fn drop_user(s: Seq<(u64, AvatarSize, AvatarImage)>, id: u64) -> Seq<(u64, AvatarSize, AvatarImage)>
    decreases s.len(),
{
    if s.len() == 0 {
        s
    } else if s.last().0 == id {
        drop_user(s.drop_last(), id)
    } else {
        drop_user(s.drop_last(), id).push(s.last())
    }
}

/// Whether `v` holds the request `(id, size)`.
pub fn contains_request(v: &Vec<(u64, AvatarSize)>, id: u64, size: AvatarSize) -> (r: bool)
    ensures
        r == v@.contains((id, size)),
{
    let mut i: usize = 0;
    while i < v.len()
        invariant
            i <= v@.len(),
            forall|k: int| 0 <= k < i ==> v@[k] != (id, size),
        decreases v@.len() - i,
    {
        if v[i].0 == id && v[i].1 == size {
            assert(v@[i as int] == (id, size));
            return true;
        }
        i = i + 1;
    }
    false
}

/// Whether `v` holds `x`.
pub fn contains_u64(v: &Vec<u64>, x: u64) -> (r: bool)
    ensures
        r == v@.contains(x),
{
    let mut i: usize = 0;
    while i < v.len()
        invariant
            i <= v@.len(),
            forall|k: int| 0 <= k < i ==> v@[k] != x,
        decreases v@.len() - i,
    {
        if v[i] == x {
            assert(v@[i as int] == x);
            return true;
        }
        i = i + 1;
    }
    false
}

} // verus!
