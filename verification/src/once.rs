use vstd::prelude::*;

verus! {

/// A single-initialization slot. Once a value is installed, installing
/// again is an error, never a silent overwrite.
pub struct OnceSlot<T> {
    pub inner: Option<T>,
}

impl<T> OnceSlot<T> {
    /// An empty slot.
    pub fn empty() -> (r: OnceSlot<T>)
        ensures
            r.inner is None,
    {
        OnceSlot { inner: None }
    }

    /// Installs the value if the slot is empty; hands it back otherwise.
    pub fn set(&mut self, v: T) -> (r: Result<(), T>)
        ensures
            old(self).inner is None ==> final(self).inner == Some(v) && r is Ok,
            old(self).inner is Some ==> *final(self) == *old(self) && r == Err::<(), T>(v),
    {
        match &self.inner {
            None => {
                self.inner = Some(v);
                Ok(())
            },
            Some(_) => Err(v),
        }
    }

    /// The installed value, if any.
    pub fn get(&self) -> (r: Option<&T>)
        ensures
            match r {
                Some(v) => self.inner == Some(*v),
                None => self.inner is None,
            },
    {
        match &self.inner {
            Some(v) => Some(v),
            None => None,
        }
    }
}

} // verus!
