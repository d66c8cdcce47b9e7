//! The component factory: the host-facing object that manufactures shell
//! extension instances, and the instantiation entry point the host reaches
//! it through.
//!
//! Both the factory and every instance it creates count as live objects on
//! the module's live-instance counter, so the host does not unload the
//! module while any of them is outstanding. Construction and destruction are
//! modeled explicitly: a factory or instance is created against the tracker
//! and must be released against it.

use vstd::prelude::*;

use crate::errors::ShellError;
use crate::extension::ExtState;
use crate::extension::ShellExtension;
use crate::ident::COMPONENT_ID;
use crate::ident::IID_CLASS_FACTORY;
use crate::ident::IID_CONTEXT_MENU;
use crate::ident::IID_SHELL_EXT_INIT;
use crate::ident::IID_UNKNOWN;
use crate::lifetime::LifetimeTracker;

verus! {

/// Whether a shell extension instance answers a capability query for `iid`:
/// it implements the base capability, selection capture, and menu handling.
pub open spec fn instance_supports(iid: u128) -> bool {
    iid == IID_UNKNOWN || iid == IID_SHELL_EXT_INIT || iid == IID_CONTEXT_MENU
}

/// Whether the factory itself answers a capability query for `iid`.
pub open spec fn factory_supports(iid: u128) -> bool {
    iid == IID_UNKNOWN || iid == IID_CLASS_FACTORY
}

/// The component factory. It holds no instance state of its own; its
/// construction and destruction move the live-instance counter, which is the
/// reason a bare factory handle already keeps the module loaded.
pub struct ComponentFactory {
    _private: (),
}

impl ComponentFactory {
    /// Constructs a factory, counting it as a live object.
    pub fn new(tracker: &mut LifetimeTracker) -> (r: ComponentFactory)
        requires
            old(tracker).live_count < i64::MAX,
        ensures
            final(tracker).live_count == old(tracker).live_count + 1,
            final(tracker).module_handle == old(tracker).module_handle,
    {
        tracker.acquire();
        ComponentFactory { _private: () }
    }

    /// Releases the factory, uncounting it.
    pub fn release(self, tracker: &mut LifetimeTracker)
        requires
            old(tracker).live_count > i64::MIN,
        ensures
            final(tracker).live_count == old(tracker).live_count - 1,
            final(tracker).module_handle == old(tracker).module_handle,
    {
        tracker.release();
    }

    /// Manufactures one shell extension instance.
    ///
    /// Fails with `AggregationNotSupported` when an outer aggregator is
    /// present — this component refuses to be wrapped — and with
    /// `InvalidArgument` when no capability identifier was supplied. On
    /// success one instance is constructed (counted live) and answers the
    /// capability query for `capability`; when the instance does not support
    /// that capability the query failure is returned and the partially
    /// constructed instance is released again, so the counter is unchanged —
    /// no leak.
    pub fn create_instance(
        &self,
        tracker: &mut LifetimeTracker,
        outer_present: bool,
        capability: Option<&u128>,
    ) -> (r: Result<ShellExtension, ShellError>)
        requires
            old(tracker).live_count < i64::MAX,
        ensures
            final(tracker).module_handle == old(tracker).module_handle,
            outer_present ==> r == Err::<ShellExtension, ShellError>(
                ShellError::AggregationNotSupported,
            ) && *final(tracker) == *old(tracker),
            !outer_present && capability is None ==> r == Err::<ShellExtension, ShellError>(
                ShellError::InvalidArgument,
            ) && *final(tracker) == *old(tracker),
            capability is Some && !outer_present ==> ({
                let iid = *capability.unwrap();
                if instance_supports(iid) {
                    &&& r matches Ok(inst) && inst@.state is Uninitialized
                        && inst@.selection.len() == 0
                    &&& final(tracker).live_count == old(tracker).live_count + 1
                } else {
                    &&& r == Err::<ShellExtension, ShellError>(ShellError::UnsupportedCapability)
                    &&& *final(tracker) == *old(tracker)
                }
            }),
    {
        if outer_present {
            return Err(ShellError::AggregationNotSupported);
        }
        let iid = match capability {
            None => {
                return Err(ShellError::InvalidArgument);
            },
            Some(iid) => *iid,
        };
        let instance = ShellExtension::create(tracker);
        if iid == IID_UNKNOWN || iid == IID_SHELL_EXT_INIT || iid == IID_CONTEXT_MENU {
            Ok(instance)
        } else {
            instance.release(tracker);
            Err(ShellError::UnsupportedCapability)
        }
    }

    /// The keep-alive request: acknowledged unconditionally, with no
    /// external reference taken; it never fails and has no other effect.
    pub fn lock_server(&self, lock: bool) -> (r: Result<(), ShellError>)
        ensures
            r is Ok,
    {
        Ok(())
    }
}

/// The instantiation entry point: yields the factory for the requested
/// component, counted as a live object.
///
/// Fails with `InvalidArgument` when the component identifier, the
/// capability identifier or the output slot is absent, with
/// `ClassNotAvailable` when the component identifier is not this
/// extension's, and with `UnsupportedCapability` when the factory does not
/// answer the requested capability — in that case the partially constructed
/// factory is released again and the counter is unchanged.
pub fn get_class_object(
    tracker: &mut LifetimeTracker,
    component: Option<&u128>,
    capability: Option<&u128>,
    out_slot_present: bool,
) -> (r: Result<ComponentFactory, ShellError>)
    requires
        old(tracker).live_count < i64::MAX,
    ensures
        final(tracker).module_handle == old(tracker).module_handle,
        capability is None || component is None ==> r == Err::<ComponentFactory, ShellError>(
            ShellError::InvalidArgument,
        ) && *final(tracker) == *old(tracker),
        component matches Some(clsid) && capability is Some && *clsid != COMPONENT_ID ==> r
            == Err::<ComponentFactory, ShellError>(ShellError::ClassNotAvailable)
            && *final(tracker) == *old(tracker),
        component matches Some(clsid) && capability is Some && *clsid == COMPONENT_ID
            && !out_slot_present ==> r == Err::<ComponentFactory, ShellError>(
            ShellError::InvalidArgument,
        ) && *final(tracker) == *old(tracker),
        component matches Some(clsid) && capability is Some && out_slot_present && *clsid
            == COMPONENT_ID ==> ({
            let iid = *capability.unwrap();
            if factory_supports(iid) {
                r is Ok && final(tracker).live_count == old(tracker).live_count + 1
            } else {
                r == Err::<ComponentFactory, ShellError>(ShellError::UnsupportedCapability)
                    && *final(tracker) == *old(tracker)
            }
        }),
{
    let iid = match capability {
        None => {
            return Err(ShellError::InvalidArgument);
        },
        Some(iid) => *iid,
    };
    let clsid = match component {
        None => {
            return Err(ShellError::InvalidArgument);
        },
        Some(clsid) => *clsid,
    };
    if clsid != COMPONENT_ID {
        return Err(ShellError::ClassNotAvailable);
    }
    if !out_slot_present {
        return Err(ShellError::InvalidArgument);
    }
    let factory = ComponentFactory::new(tracker);
    if iid == IID_UNKNOWN || iid == IID_CLASS_FACTORY {
        Ok(factory)
    } else {
        factory.release(tracker);
        Err(ShellError::UnsupportedCapability)
    }
}

impl ShellExtension {
    /// Constructs an instance, counting it as a live object.
    pub fn create(tracker: &mut LifetimeTracker) -> (r: ShellExtension)
        requires
            old(tracker).live_count < i64::MAX,
        ensures
            final(tracker).live_count == old(tracker).live_count + 1,
            final(tracker).module_handle == old(tracker).module_handle,
            r@.state is Uninitialized,
            r@.selection.len() == 0,
    {
        tracker.acquire();
        ShellExtension::new()
    }

    /// Releases an instance, uncounting it.
    pub fn release(self, tracker: &mut LifetimeTracker)
        requires
            old(tracker).live_count > i64::MIN,
        ensures
            final(tracker).live_count == old(tracker).live_count - 1,
            final(tracker).module_handle == old(tracker).module_handle,
    {
        tracker.release();
    }
}

} // verus!
