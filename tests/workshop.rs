use engine::workshop::{ItemState, ItemVisibility, WorkshopFileType};

#[test]
fn item_state_flags() {
    let mut s = ItemState::default();
    assert_eq!(s.bits(), ItemState::NONE);
    s.insert(ItemState::SUBSCRIBED);
    s.insert(ItemState::DOWNLOAD_PENDING);
    assert!(s.contains(ItemState::SUBSCRIBED));
    assert!(s.contains(ItemState::DOWNLOAD_PENDING));
    s.remove(ItemState::DOWNLOAD_PENDING);
    assert!(!s.contains(ItemState::DOWNLOAD_PENDING));
    assert_eq!(s.bits(), 1);
    assert_eq!(ItemState::from_bits(36).bits(), 36);
    assert_eq!(ItemVisibility::default(), ItemVisibility::Public);
    assert_eq!(WorkshopFileType::default(), WorkshopFileType::Community);
}
