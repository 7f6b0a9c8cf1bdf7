use engine::avatar::{AvatarManager, AvatarResult, AvatarSize};


// =============================================================================
// AVT-001: Get Small Avatar
// Reference: https://partner.steamgames.com/doc/api/ISteamFriends#GetSmallFriendAvatar
// =============================================================================

#[test]
fn avt_001_get_small_avatar() {
    let mut mgr = AvatarManager::new(12345);

    // First request returns NotCached.
    let result = mgr.get_small_friend_avatar(67890);
    assert_eq!(result, AvatarResult::NotCached);

    // Process pending loads.
    mgr.process_pending();

    // Now should return handle.
    let result = mgr.get_small_friend_avatar(67890);
    match result {
        AvatarResult::Handle(h) => assert!(h > 0),
        _ => panic!("Expected Handle"),
    }
}

#[test]
fn avt_001_small_avatar_dimensions() {
    let mut mgr = AvatarManager::new(12345);

    mgr.get_small_friend_avatar(67890);
    mgr.process_pending();

    let avatar = mgr.get_cached_avatar(67890, AvatarSize::Small).unwrap();
    assert_eq!(avatar.width, 32);
    assert_eq!(avatar.height, 32);
}

// =============================================================================
// AVT-002: Get Medium Avatar
// Reference: https://partner.steamgames.com/doc/api/ISteamFriends#GetMediumFriendAvatar
// =============================================================================

#[test]
fn avt_002_get_medium_avatar() {
    let mut mgr = AvatarManager::new(12345);

    mgr.get_medium_friend_avatar(67890);
    mgr.process_pending();

    let avatar = mgr.get_cached_avatar(67890, AvatarSize::Medium).unwrap();
    assert_eq!(avatar.width, 64);
    assert_eq!(avatar.height, 64);
}

// =============================================================================
// AVT-003: Get Large Avatar
// Reference: https://partner.steamgames.com/doc/api/ISteamFriends#GetLargeFriendAvatar
// =============================================================================

#[test]
fn avt_003_get_large_avatar() {
    let mut mgr = AvatarManager::new(12345);

    mgr.get_large_friend_avatar(67890);
    mgr.process_pending();

    let avatar = mgr.get_cached_avatar(67890, AvatarSize::Large).unwrap();
    assert_eq!(avatar.width, 128);
    assert_eq!(avatar.height, 128);
}

// =============================================================================
// AVT-004: Avatar Image Data
// Reference: https://partner.steamgames.com/doc/api/ISteamUtils#GetImageSize
// Reference: https://partner.steamgames.com/doc/api/ISteamUtils#GetImageRGBA
// =============================================================================

#[test]
fn avt_004_avatar_image_data() {
    let mut mgr = AvatarManager::new(12345);

    mgr.get_small_friend_avatar(67890);
    mgr.process_pending();

    let result = mgr.get_small_friend_avatar(67890);
    let handle = match result {
        AvatarResult::Handle(h) => h,
        _ => panic!("Expected Handle"),
    };

    // Get image size.
    let size = mgr.get_image_size(handle);
    assert_eq!(size, Some((32, 32)));

    // Get RGBA data.
    let rgba = mgr.get_image_rgba(handle);
    assert!(rgba.is_some());
    assert_eq!(rgba.unwrap().len(), 32 * 32 * 4);
}

// =============================================================================
// AVT-005: Avatar Cache
// =============================================================================

#[test]
fn avt_005_avatar_cache() {
    let mut mgr = AvatarManager::new(12345);

    // First request: cache miss.
    mgr.get_small_friend_avatar(67890);
    mgr.process_pending();

    let (hits, misses) = mgr.get_cache_stats();
    assert_eq!(hits, 0);
    assert_eq!(misses, 1);

    // Second request: cache hit.
    mgr.get_small_friend_avatar(67890);

    let (hits, misses) = mgr.get_cache_stats();
    assert_eq!(hits, 1);
    assert_eq!(misses, 1);
}

#[test]
fn avt_005_cache_per_size() {
    let mut mgr = AvatarManager::new(12345);

    mgr.get_small_friend_avatar(67890);
    mgr.get_medium_friend_avatar(67890);
    mgr.get_large_friend_avatar(67890);
    mgr.process_pending();

    assert!(mgr.is_cached(67890, AvatarSize::Small));
    assert!(mgr.is_cached(67890, AvatarSize::Medium));
    assert!(mgr.is_cached(67890, AvatarSize::Large));
}

// =============================================================================
// AVT-006: Avatar Callback
// Reference: AvatarImageLoaded_t callback
// =============================================================================

#[test]
fn avt_006_avatar_callback() {
    let mut mgr = AvatarManager::new(12345);

    mgr.get_small_friend_avatar(67890);
    mgr.process_pending();

    let callback = mgr.pop_callback();
    assert!(callback.is_some());

    let cb = callback.unwrap();
    assert_eq!(cb.steam_id, 67890);
    assert_eq!(cb.wide, 32);
    assert_eq!(cb.tall, 32);
    assert!(cb.image > 0);
}

// =============================================================================
// AVT-007: Missing Avatar
// =============================================================================

#[test]
fn avt_007_missing_avatar() {
    let mut mgr = AvatarManager::new(12345);

    mgr.set_no_avatar(67890);

    let result = mgr.get_small_friend_avatar(67890);
    assert_eq!(result, AvatarResult::NoAvatar);
}

#[test]
fn avt_007_missing_all_sizes() {
    let mut mgr = AvatarManager::new(12345);

    mgr.set_no_avatar(67890);

    assert_eq!(mgr.get_small_friend_avatar(67890), AvatarResult::NoAvatar);
    assert_eq!(mgr.get_medium_friend_avatar(67890), AvatarResult::NoAvatar);
    assert_eq!(mgr.get_large_friend_avatar(67890), AvatarResult::NoAvatar);
}

// =============================================================================
// AVT-008: Avatar Update
// =============================================================================

#[test]
fn avt_008_avatar_update() {
    let mut mgr = AvatarManager::new(12345);

    // Cache avatar.
    mgr.get_small_friend_avatar(67890);
    mgr.process_pending();

    assert!(mgr.is_cached(67890, AvatarSize::Small));

    // Invalidate cache (avatar was updated).
    mgr.invalidate_cache(67890);

    assert!(!mgr.is_cached(67890, AvatarSize::Small));
}

#[test]
fn avt_008_clear_no_avatar() {
    let mut mgr = AvatarManager::new(12345);

    mgr.set_no_avatar(67890);
    assert_eq!(mgr.get_small_friend_avatar(67890), AvatarResult::NoAvatar);

    // User set an avatar.
    mgr.clear_no_avatar(67890);

    // Should now be loadable.
    let result = mgr.get_small_friend_avatar(67890);
    assert_eq!(result, AvatarResult::NotCached);
}

// =============================================================================
// AVT-009: Own Avatar
// =============================================================================

#[test]
fn avt_009_own_avatar() {
    let mut mgr = AvatarManager::new(12345);

    let result = mgr.get_my_avatar(AvatarSize::Medium);
    assert_eq!(result, AvatarResult::NotCached);

    mgr.process_pending();

    let result = mgr.get_my_avatar(AvatarSize::Medium);
    match result {
        AvatarResult::Handle(_) => (),
        _ => panic!("Expected Handle for own avatar"),
    }
}

// =============================================================================
// AVT-010: Avatar Fallback
// =============================================================================

#[test]
fn avt_010_avatar_fallback() {
    let mgr = AvatarManager::new(12345);

    let default = mgr.get_default_avatar(AvatarSize::Medium);
    assert_eq!(default.width, 64);
    assert_eq!(default.height, 64);
    assert_eq!(default.handle, 0);

    // Verify it's a valid gray placeholder.
    assert_eq!(default.data.len(), 64 * 64 * 4);
    assert_eq!(default.data[0], 128); // Gray R
    assert_eq!(default.data[1], 128); // Gray G
    assert_eq!(default.data[2], 128); // Gray B
    assert_eq!(default.data[3], 255); // Full alpha
}

// =============================================================================
// Additional Tests
// =============================================================================

#[test]
fn concurrent_requests_same_user() {
    let mut mgr = AvatarManager::new(12345);

    // Request multiple sizes for same user.
    mgr.get_small_friend_avatar(67890);
    mgr.get_medium_friend_avatar(67890);
    mgr.get_large_friend_avatar(67890);

    mgr.process_pending();

    // Should have 3 callbacks.
    let mut count = 0;
    while mgr.pop_callback().is_some() {
        count += 1;
    }
    assert_eq!(count, 3);
}

#[test]
fn multiple_users_avatars() {
    let mut mgr = AvatarManager::new(12345);

    mgr.get_small_friend_avatar(111);
    mgr.get_small_friend_avatar(222);
    mgr.get_small_friend_avatar(333);

    mgr.process_pending();

    assert!(mgr.is_cached(111, AvatarSize::Small));
    assert!(mgr.is_cached(222, AvatarSize::Small));
    assert!(mgr.is_cached(333, AvatarSize::Small));
}

#[test]
fn avatar_byte_sizes() {
    assert_eq!(AvatarSize::Small.byte_size(), 32 * 32 * 4);
    assert_eq!(AvatarSize::Medium.byte_size(), 64 * 64 * 4);
    assert_eq!(AvatarSize::Large.byte_size(), 128 * 128 * 4);
}
