//! The permits that bound how many connections are served at a time.

use std::sync::Arc;
use tokio::sync::{OwnedSemaphorePermit, Semaphore};
use vstd::prelude::*;

verus! {

/// Trusted: the type `tokio::sync::Semaphore`, an opaque store of permits.
#[verifier::external_type_specification]
#[verifier::external_body]
pub struct ExSemaphore(tokio::sync::Semaphore);

/// Trusted: the type `tokio::sync::OwnedSemaphorePermit`, an opaque permit that goes back to
/// its store when it is dropped.
#[verifier::external_type_specification]
#[verifier::external_body]
pub struct ExOwnedSemaphorePermit(tokio::sync::OwnedSemaphorePermit);

/// How many permits a semaphore was made with.
pub uninterp spec fn permits_of(semaphore: Semaphore) -> nat;

/// The semaphore that a permit was taken from, and goes back to.
pub uninterp spec fn store_of(permit: OwnedSemaphorePermit) -> Semaphore;

/// Evidence that a semaphore was asked for a permit and gave none.
pub struct Shortage {
    store: Ghost<Semaphore>,
}

impl Shortage {
    /// The semaphore that was asked.
    pub closed spec fn store(self) -> Semaphore {
        self.store@
    }
}

/// Trusted: `tokio::sync::Semaphore::new` makes a store with that many permits. It panics where
/// there are more than an eighth of the largest `usize`.
pub assume_specification[ Semaphore::new ](permits: usize) -> (semaphore: Semaphore)
    requires
        permits <= usize::MAX / 8,
    ensures
        permits_of(semaphore) == permits,
;

/// The right to ask a semaphore for one permit.
pub struct Asking {
    permits: Arc<Semaphore>,
}

impl Asking {
    /// The semaphore that may be asked.
    pub closed spec fn store(self) -> Semaphore {
        *self.permits
    }
}

/// A semaphore of which is known how often it may have been asked. It can be asked in no other way
/// than by the rights that are given out here.
pub struct Places {
    permits: Arc<Semaphore>,
    asked: Ghost<nat>,
}

impl Places {
    /// The semaphore.
    pub closed spec fn store(self) -> Semaphore {
        *self.permits
    }

    /// How many rights to ask for a permit were given out.
    pub closed spec fn asked(self) -> nat {
        self.asked@
    }

    /// A semaphore with that many permits.
    pub fn new(count: usize) -> (places: Self)
        requires
            count <= usize::MAX / 8,
        ensures
            permits_of(places.store()) == count,
            places.asked() == 0,
    {
        Places { permits: Arc::new(Semaphore::new(count)), asked: Ghost(0) }
    }

    /// Gives out the right to ask for one permit.
    pub fn turn(&mut self) -> (asking: Asking)
        ensures
            asking.store() == old(self).store(),
            final(self).store() == old(self).store(),
            final(self).asked() == old(self).asked() + 1,
    {
        self.asked = Ghost(self.asked@ + 1);
        Asking { permits: self.permits.clone() }
    }
}

/// Trusted: `tokio::sync::Semaphore::try_acquire_owned` takes a permit of the store if one is
/// left. The permit holds the store that it was taken from. Whether one is left depends on which
/// permits have been given back meanwhile, so nothing is claimed of that.
#[verifier::external_body]
pub(crate) fn try_acquire(asking: Asking) -> (result: Result<OwnedSemaphorePermit, Shortage>)
    ensures
        match result {
            Ok(permit) => store_of(permit) == asking.store(),
            Err(shortage) => shortage.store() == asking.store(),
        },
{
    let store: Ghost<Semaphore> = Ghost(asking.store());
    match asking.permits.try_acquire_owned() {
        Ok(permit) => Ok(permit),
        Err(_) => Err(Shortage { store }),
    }
}

} // verus!
