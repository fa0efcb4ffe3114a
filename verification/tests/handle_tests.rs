use render::{clear_cache, next_id, ArcHandle, RenderCache};

#[test]
fn handles_get_consecutive_ids() {
    let mut cache = RenderCache::empty();
    let a = ArcHandle::new(&mut cache, 5u32);
    let b = ArcHandle::new(&mut cache, 5u32);
    assert_eq!(a.id(), 0);
    assert_eq!(b.id(), 1);
    assert!(a != b);
    assert_eq!(*a, 5);
    let c = a.clone();
    assert!(c == a);
    assert_eq!(next_id(&mut cache), 2);
    clear_cache(&mut cache);
    assert_eq!(next_id(&mut cache), 3);
}

#[test]
fn a_handle_seen_as_any_keeps_its_id() {
    let mut cache = RenderCache::empty();
    let _first = ArcHandle::new(&mut cache, 1u8);
    let handle = ArcHandle::new(&mut cache, 5u32);
    let any: std::sync::Arc<dyn std::any::Any + Send + Sync> = handle.value.clone();
    let up = handle.with_value(any);
    assert_eq!(up.id(), 1);
    let back = up.value.clone().downcast::<u32>().unwrap();
    let down = up.with_value(back);
    assert_eq!(down.id(), 1);
    assert_eq!(*down, 5);
    assert!(up.value.clone().downcast::<u8>().is_err());
}
