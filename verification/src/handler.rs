use vstd::prelude::*;

use crate::event::Event;

verus! {

/// An object that subscribes to a publisher for events of one type and
/// observes them without mutating itself.  Implementors may be invoked
/// concurrently, so `handle` takes `&self`: an implementor with interior
/// state must synchronize it itself.
pub trait Handle {
    /// The one event type this handler accepts.
    type EventType: Event;

    /// Observe one event.
    fn handle(&self, event: Self::EventType);
}

/// An object that subscribes to a publisher for events of one type and may
/// update its own state when invoked.  The dispatcher guarantees exclusive
/// access for the duration of each call.
pub trait HandleMut {
    /// The one event type this handler accepts.
    type EventType: Event;

    /// Observe one event, possibly updating internal state.
    fn handle_mut(&mut self, event: Self::EventType);
}

/// Wrapper that turns a plain function or closure into a read-only handler
/// for events of type `T`.
pub struct Handler<T: Event, F: Fn(T)> {
    f: F,
    bound: core::marker::PhantomData<T>,
}

impl<T: Event, F: Fn(T)> Handler<T, F> {
    /// The wrapped closure accepts every value of its event type, so the
    /// trampoline may hand it any matched event.
    #[verifier::type_invariant]
    pub closed spec fn wf(&self) -> bool {
        forall|v: T| call_requires(self.f, (v,))
    }

    /// Wrap a function or closure as a handler for events of type `T`.  The
    /// closure must accept every value of `T`: events reach it solely by
    /// their type.
    pub fn new(f: F) -> (h: Self)
        requires
            forall|v: T| call_requires(f, (v,)),
        ensures
            h.bound_tag() == T::tag_spec(),
    {
        Handler { f, bound: core::marker::PhantomData }
    }
}

/// The type-erased face of a read-only handler: it accepts an event of any
/// type and decides at runtime, by comparing type tags, whether to invoke
/// the handler behind it.  Type mismatch is the designed filtering
/// mechanism, not an error.
pub trait DynHandle {
    /// The tag of the one event type the handler behind this face accepts.
    spec fn bound_tag(&self) -> u64;

    /// Returns the tag of the event type the handler is bound to.
    fn erased_tag(&self) -> (t: u64)
        ensures
            t == self.bound_tag(),
    ;

    /// Offer an event of arbitrary type to the handler.  The handler runs
    /// exactly when the event's type matches the bound type; the result
    /// says whether it ran.  An event of a non-matching type is silently
    /// ignored.
    fn dyn_handle<E: Event>(&self, event: &E) -> (delivered: bool)
        ensures
            delivered ==> E::tag_spec() == self.bound_tag(),
    ;
}

/// The type-erased face of a mutating handler, with the same runtime type
/// filtering as [`DynHandle`].  Invocation requires exclusive access.
pub trait DynHandleMut: Sized {
    /// The tag of the one event type the handler behind this face accepts.
    spec fn bound_tag(&self) -> u64;

    /// Returns the tag of the event type the handler is bound to.
    fn erased_tag(&self) -> (t: u64)
        ensures
            t == self.bound_tag(),
    ;

    /// Offer an event of arbitrary type to the handler.  The handler runs
    /// exactly when the event's type matches the bound type; an event of a
    /// non-matching type is silently ignored and the handler's state is
    /// left untouched.
    fn dyn_handle_mut<E: Event>(&mut self, event: &E) -> (delivered: bool)
        ensures
            delivered ==> E::tag_spec() == old(self).bound_tag(),
            !delivered ==> *final(self) == *old(self),
    ;
}

/// Relies on `<dyn core::any::Any>::downcast_ref`: it returns `Some` exactly
/// when the value's dynamic type is the target type.  A successful downcast
/// therefore relates a source and a target of one and the same type, whose
/// tags agree.
#[verifier::external_body]
fn downcast_event<E: Event, T: Event>(event: &E) -> (r: Option<&T>)
    ensures
        r.is_some() ==> E::tag_spec() == T::tag_spec(),
{
    (event as &dyn core::any::Any).downcast_ref::<T>()
}

impl<T: Event, F: Fn(T)> DynHandle for Handler<T, F> {
    open spec fn bound_tag(&self) -> u64 {
        T::tag_spec()
    }

    fn erased_tag(&self) -> u64 {
        T::type_tag()
    }

    fn dyn_handle<E: Event>(&self, event: &E) -> (delivered: bool) {
        match downcast_event::<E, T>(event) {
            Some(data) => {
                proof {
                    use_type_invariant(self);
                }
                (self.f)(data.clone());
                true
            }
            None => false,
        }
    }
}

impl<T: Event, U: Handle<EventType = T> + Send + Sync> DynHandle for U {
    open spec fn bound_tag(&self) -> u64 {
        T::tag_spec()
    }

    fn erased_tag(&self) -> u64 {
        T::type_tag()
    }

    fn dyn_handle<E: Event>(&self, event: &E) -> (delivered: bool) {
        match downcast_event::<E, T>(event) {
            Some(data) => {
                self.handle(data.clone());
                true
            }
            None => false,
        }
    }
}

impl<T: Event, U: HandleMut<EventType = T> + Send + Sync> DynHandleMut for U {
    open spec fn bound_tag(&self) -> u64 {
        T::tag_spec()
    }

    fn erased_tag(&self) -> u64 {
        T::type_tag()
    }

    fn dyn_handle_mut<E: Event>(&mut self, event: &E) -> (delivered: bool) {
        match downcast_event::<E, T>(event) {
            Some(data) => {
                let duplicate = data.clone();
                self.handle_mut(duplicate);
                true
            }
            None => false,
        }
    }
}

} // verus!
