//! An in-process publish/subscribe dispatcher.
//!
//! Producers broadcast typed events without compile-time knowledge of the
//! subscribers; handlers register interest in one event type and receive
//! only events of that type.  Runtime type identity is modelled by a tag:
//! every event type answers a fixed tag, and the dispatcher routes an event
//! to a handler exactly when the event's tag equals the tag the handler is
//! bound to.

mod dispatch;
mod event;
mod handler;
mod publisher;

pub use event::Event;
pub use event::DynEvent;
pub use handler::Handle;
pub use handler::HandleMut;
pub use handler::Handler;
pub use handler::DynHandle;
pub use handler::DynHandleMut;
pub use dispatch::RunReport;
pub use dispatch::FailureRecord;
pub use dispatch::FanOut;
pub use dispatch::collect_failures;
pub use dispatch::failure_records;
pub use dispatch::fault_count;
pub use dispatch::reported_fault;
pub use dispatch::lemma_failure_records_exact;
pub use dispatch::lemma_concurrency_bound;
pub use publisher::Dispatch;
pub use publisher::HandlerKind;
pub use publisher::Publisher;
pub use publisher::Subscription;
pub use publisher::ids_increasing;
pub use publisher::ids_issued;
pub use publisher::matching_ids;
pub use publisher::without_id;
pub use publisher::lemma_matching_ids_membership;
pub use publisher::lemma_without_id_shape;
pub use publisher::lemma_without_id_keeps_order;
pub use publisher::lemma_matching_ids_once;
pub use publisher::lemma_routing_exact;
pub use publisher::lemma_issued_id_fresh;
pub use publisher::lemma_unsubscribed_not_routed;
pub use publisher::lemma_empty_registry_routes_nothing;
