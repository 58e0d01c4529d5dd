use vstd::prelude::*;

verus! {

/// A value that a publisher can broadcast to its subscribers.
///
/// An event type must be safe to hand to other threads, duplicable, and free
/// of borrowed data.  Its runtime type identity is modelled by a tag: `tag`
/// must answer the same value for every value of the type, and distinct event
/// types must answer distinct tags, so that tag equality means type equality.
pub trait Event: Sized + Send + Sync + Clone + 'static {
    /// The tag that stands for this type's runtime identity.
    spec fn tag_spec() -> u64;

    /// Returns the type's tag; every value of one event type answers alike.
    fn type_tag() -> (t: u64)
        ensures
            t == Self::tag_spec(),
    ;
}

/// The type-erased view of an event.
///
/// All the dispatcher ever reads through this view is the runtime type
/// identity of the value inside; the value itself is only seen again by a
/// handler bound to exactly that type.
pub trait DynEvent {
    /// The runtime type identity of the wrapped value.
    spec fn identity(&self) -> u64;

    /// Returns the runtime type identity of the wrapped value.
    fn get_data(&self) -> (t: u64)
        ensures
            t == self.identity(),
    ;
}

impl<T: Event> DynEvent for T {
    open spec fn identity(&self) -> u64 {
        T::tag_spec()
    }

    fn get_data(&self) -> u64 {
        T::type_tag()
    }
}

} // verus!
