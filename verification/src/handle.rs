//! The handle table: opaque integer handles for native objects and native
//! functions.
//!
//! The dispatch protocol stores references to native entities inside the
//! scripting runtime's own value system.  Rather than smuggling raw pointers
//! through integers, the bridge keeps every such entity in an arena and hands
//! the scripting side the slot's index.  Resolving a handle is O(1), and a
//! handle whose referent was unregistered is a reportable
//! [`HandleError::Dangling`] instead of undefined behaviour.

use vstd::prelude::*;
use vstd::pervasive::VecAdditionalExecFns;

verus! {

/// Why a handle failed to resolve.
#[derive(Clone, Copy, Debug, PartialEq, Eq, Structural)]
pub enum HandleError {
    /// The handle was never issued by this table.
    Unknown,
    /// The handle was issued, but its referent has been unregistered.
    Dangling,
}

/// What a handle resolves to in a slot sequence, or why it does not: the
/// spec-level counterpart of [`HandleTable::resolve`].
pub open spec fn spec_resolve<T>(slots: Seq<Option<T>>, h: u64) -> Result<T, HandleError> {
    if h >= slots.len() {
        Err(HandleError::Unknown)
    } else {
        match slots[h as int] {
            Some(t) => Ok(t),
            None => Err(HandleError::Dangling),
        }
    }
}

/// An arena of slots, addressed by the opaque integer handles it issues.
///
/// A slot is allocated by [`register`](HandleTable::register) and never
/// reused: unregistering leaves the slot empty, so a stale handle keeps
/// reporting [`HandleError::Dangling`] rather than aliasing a later entry.
pub struct HandleTable<T> {
    slots: Vec<Option<T>>,
}

impl<T> View for HandleTable<T> {
    type V = Seq<Option<T>>;

    closed spec fn view(&self) -> Seq<Option<T>> {
        self.slots@
    }
}

impl<T> HandleTable<T> {
    /// Whether `h` currently resolves to a registered entity.
    pub open spec fn contains(self, h: u64) -> bool {
        h < self@.len() && self@[h as int] is Some
    }

    /// The entity `h` resolves to.
    pub open spec fn at(self, h: u64) -> T
        recommends
            self.contains(h),
    {
        self@[h as int]->0
    }

    /// An empty table.
    pub fn new() -> (r: HandleTable<T>)
        ensures
            r@ == Seq::<Option<T>>::empty(),
    {
        HandleTable { slots: Vec::new() }
    }

    /// Registers an entity and returns its fresh handle.
    pub fn register(&mut self, t: T) -> (h: u64)
        ensures
            final(self)@ == old(self)@.push(Some(t)),
            h == old(self)@.len(),
            final(self).contains(h),
            final(self).at(h) == t,
    {
        let h = self.slots.len() as u64;
        self.slots.push(Some(t));
        h
    }

    /// Resolves a handle to a shared reference.
    pub fn resolve(&self, h: u64) -> (r: Result<&T, HandleError>)
        ensures
            match r {
                Ok(t) => self.contains(h) && *t == self.at(h) && spec_resolve(self@, h) == Ok::<
                    T,
                    HandleError,
                >(*t),
                Err(e) => spec_resolve(self@, h) == Err::<T, HandleError>(e),
            },
            match r {
                Ok(t) => true,
                Err(HandleError::Unknown) => h >= self@.len(),
                Err(HandleError::Dangling) => h < self@.len() && self@[h as int] is None,
            },
    {
        if h >= self.slots.len() as u64 {
            return Err(HandleError::Unknown);
        }
        match &self.slots[h as usize] {
            Some(t) => Ok(t),
            None => Err(HandleError::Dangling),
        }
    }

    /// Resolves a handle to an exclusive reference.
    pub fn resolve_mut(&mut self, h: u64) -> (r: Result<&mut T, HandleError>)
        ensures
            match r {
                Ok(t) => {
                    &&& old(self).contains(h)
                    &&& *t == old(self).at(h)
                    &&& spec_resolve(old(self)@, h) == Ok::<T, HandleError>(*t)
                    &&& final(self)@ == old(self)@.update(h as int, Some(*final(t)))
                },
                Err(e) => spec_resolve(old(self)@, h) == Err::<T, HandleError>(e) && final(self)@
                    == old(self)@,
            },
            match r {
                Ok(t) => true,
                Err(HandleError::Unknown) => h >= old(self)@.len(),
                Err(HandleError::Dangling) => h < old(self)@.len() && old(self)@[h as int] is None,
            },
    {
        if h >= self.slots.len() as u64 {
            return Err(HandleError::Unknown);
        }
        if self.slots[h as usize].is_none() {
            return Err(HandleError::Dangling);
        }
        match &mut self.slots[h as usize] {
            Some(t) => Ok(t),
            None => Err(HandleError::Dangling),
        }
    }

    /// Unregisters an entity, emptying its slot; the handle goes stale and
    /// is never reissued.
    pub fn unregister(&mut self, h: u64) -> (r: Result<T, HandleError>)
        ensures
            match r {
                Ok(t) => {
                    &&& old(self).contains(h)
                    &&& t == old(self).at(h)
                    &&& final(self)@ == old(self)@.update(h as int, None)
                },
                Err(HandleError::Unknown) => h >= old(self)@.len() && final(self)@ == old(self)@,
                Err(HandleError::Dangling) => h < old(self)@.len() && old(self)@[h as int] is None
                    && final(self)@ == old(self)@,
            },
    {
        if h >= self.slots.len() as u64 {
            return Err(HandleError::Unknown);
        }
        let mut taken: Option<T> = None;
        self.slots.set_and_swap(h as usize, &mut taken);
        match taken {
            Some(t) => Ok(t),
            None => {
                proof {
                    assert(self.slots@ =~= old(self).slots@);
                }
                Err(HandleError::Dangling)
            },
        }
    }

    /// How many handles have been issued so far (the next fresh handle).
    pub fn issued(&self) -> (r: u64)
        ensures
            r == self@.len(),
    {
        self.slots.len() as u64
    }
}

/// Registration is stable: a fresh registration resolves to exactly the
/// entity that was registered, and every handle that resolved before still
/// resolves to the same entity afterwards.  This is what lets a dispatch
/// hand an object handle across the boundary and recover the very same
/// object state on the native side.
pub proof fn lemma_register_stable<T>(pre: HandleTable<T>, post: HandleTable<T>, t: T, h: u64)
    requires
        post@ == pre@.push(Some(t)),
        h == pre@.len(),
    ensures
        post.contains(h),
        post.at(h) == t,
        forall|g: u64| pre.contains(g) ==> post.contains(g) && post.at(g) == pre.at(g),
{
}

} // verus!
