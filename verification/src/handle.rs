use std::sync::Arc;
use vstd::prelude::*;

verus! {

/// Counter that hands out the unique ids of [`ArcHandle`]s.
pub struct RenderCache {
    /// Id given to the next handle
    unique_arc_id: u64,
}

/// One step of the id counter: `id` is handed out by `before`, leaving `after`.
pub open spec fn id_step(before: RenderCache, id: u64, after: RenderCache) -> bool {
    &&& id == before.next_unique_id()
    &&& after.next_unique_id() == id + 1
}

impl RenderCache {
    /// The id that the next handle will get
    pub closed spec fn next_unique_id(&self) -> u64 {
        self.unique_arc_id
    }

    pub fn empty() -> (cache: Self)
        ensures
            cache.next_unique_id() == 0,
    {
        Self { unique_arc_id: 0 }
    }

    /// How many more ids the counter can hand out
    pub fn ids_left(&self) -> (left: u64)
        ensures
            left == u64::MAX - self.next_unique_id(),
    {
        u64::MAX - self.unique_arc_id
    }

    pub fn next_id(&mut self) -> (id: u64)
        requires
            old(self).next_unique_id() < u64::MAX,
        ensures
            id_step(*old(self), id, *final(self)),
    {
        let id = self.unique_arc_id;
        self.unique_arc_id = self.unique_arc_id + 1;
        id
    }
}

/// Clear all caches. The id counter is not a cache: it goes on, so that every handle keeps a
/// unique id.
pub fn clear_cache(cache: &mut RenderCache)
    ensures
        final(cache).next_unique_id() == old(cache).next_unique_id(),
{
}

pub fn next_id(cache: &mut RenderCache) -> (id: u64)
    requires
        old(cache).next_unique_id() < u64::MAX,
    ensures
        id_step(*old(cache), id, *final(cache)),
{
    cache.next_id()
}

/// Two ids handed out one after the other are different, the later one larger.
pub proof fn consecutive_ids_increase(
    c0: RenderCache,
    id1: u64,
    c1: RenderCache,
    id2: u64,
    c2: RenderCache,
)
    requires
        id_step(c0, id1, c1),
        id_step(c1, id2, c2),
    ensures
        id1 < id2,
        id1 != id2,
{
}

/// Clearing the caches between two handles does not give the later one the id of the earlier:
/// an id handed out before a clear is below every id handed out after it.
pub proof fn ids_stay_unique_across_clear(
    c0: RenderCache,
    id1: u64,
    c1: RenderCache,
    cleared: RenderCache,
    id2: u64,
    c2: RenderCache,
)
    requires
        id_step(c0, id1, c1),
        cleared.next_unique_id() == c1.next_unique_id(),
        id_step(cleared, id2, c2),
    ensures
        id1 < id2,
{
}

/// Arc'd handles carry an id that identifies the resource they point to.
pub struct ArcHandle<T: ?Sized> {
    pub value: Arc<T>,
    id: u64,
}

impl<T: ?Sized> ArcHandle<T> {
    /// The id of the handle
    pub closed spec fn handle_id(&self) -> u64 {
        self.id
    }

    pub fn id(&self) -> (id: u64)
        ensures
            id == self.handle_id(),
    {
        self.id
    }

    /// The shared pointer to the resource
    pub closed spec fn shared(&self) -> Arc<T> {
        self.value
    }

    /// A handle to `value` under this handle's id: the same resource, seen through another
    /// type, as when a handle is turned into one to `dyn Any` and back
    pub fn with_value<U: ?Sized>(&self, value: Arc<U>) -> (handle: ArcHandle<U>)
        ensures
            handle.handle_id() == self.handle_id(),
            handle.shared() == value,
    {
        ArcHandle { value, id: self.id }
    }
}

impl<T> ArcHandle<T> {

    /// The value the handle points to
    pub closed spec fn target(&self) -> T {
        *self.value
    }

    pub fn new(arc_runtime: &mut RenderCache, value: T) -> (handle: Self)
        requires
            old(arc_runtime).next_unique_id() < u64::MAX,
        ensures
            id_step(*old(arc_runtime), handle.handle_id(), *final(arc_runtime)),
            handle.target() == value,
    {
        ArcHandle { value: Arc::new(value), id: arc_runtime.next_id() }
    }
}

impl<T: ?Sized> Clone for ArcHandle<T> {
    fn clone(&self) -> (res: Self)
        ensures
            res.handle_id() == self.handle_id(),
            res.shared() == self.shared(),
    {
        ArcHandle { value: Arc::clone(&self.value), id: self.id }
    }
}

impl<T: ?Sized> PartialEq for ArcHandle<T> {
    fn eq(&self, other: &Self) -> (res: bool) {
        self.id == other.id
    }
}

impl<T: ?Sized> vstd::std_specs::cmp::PartialEqSpecImpl for ArcHandle<T> {
    open spec fn obeys_eq_spec() -> bool {
        true
    }

    open spec fn eq_spec(&self, other: &Self) -> bool {
        self.handle_id() == other.handle_id()
    }
}

impl<T: ?Sized> Eq for ArcHandle<T> {
}

impl<T> std::ops::Deref for ArcHandle<T> {
    type Target = T;

    fn deref(&self) -> (r: &T)
        ensures
            *r == self.target(),
    {
        &*self.value
    }
}

impl<T> AsRef<T> for ArcHandle<T> {
    fn as_ref(&self) -> (r: &T)
        ensures
            *r == self.target(),
    {
        &*self.value
    }
}


impl<T: ?Sized> std::hash::Hash for ArcHandle<T> {
    fn hash<H: std::hash::Hasher>(&self, state: &mut H) {
        hash_u64(&self.id, state);
    }
}

/// Feeds `value` into `state` through `<u64 as Hash>::hash`; nothing is stated of
/// the hasher's state afterwards.
#[verifier::external_body]
fn hash_u64<H: std::hash::Hasher>(value: &u64, state: &mut H) {
    std::hash::Hash::hash(value, state)
}

} // verus!
