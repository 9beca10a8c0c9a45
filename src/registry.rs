//! The route registry of one state type: entries are added during start-up
//! registration, then the registry is sealed and read for aggregation. No
//! entry can be added after the first read.

use vstd::prelude::*;

verus! {

/// A registered route: its path and the constructor of its sub-router.
pub struct RegistryEntry<F> {
    pub path: String,
    pub router_fn: F,
}

/// Why a registration was refused.
#[derive(Debug, Clone, Copy, PartialEq, Eq, Structural)]
pub enum RegistryError {
    /// The registry was already sealed for aggregation.
    Sealed,
}

pub struct RouteRegistry<F> {
    entries: Vec<RegistryEntry<F>>,
    sealed: bool,
}

impl<F> RouteRegistry<F> {
    /// The registered paths, in registration order.
    pub closed spec fn paths(&self) -> Seq<Seq<char>> {
        self.entries@.map_values(|e: RegistryEntry<F>| e.path@)
    }

    /// The registered constructors, in registration order.
    pub closed spec fn router_fns(&self) -> Seq<F> {
        self.entries@.map_values(|e: RegistryEntry<F>| e.router_fn)
    }

    /// Whether the registry has been sealed for aggregation.
    pub closed spec fn is_sealed(&self) -> bool {
        self.sealed
    }

    /// An empty, open registry.
    pub fn new() -> (r: RouteRegistry<F>)
        ensures
            r.paths() == Seq::<Seq<char>>::empty(),
            r.router_fns() == Seq::<F>::empty(),
            !r.is_sealed(),
    {
        let r = RouteRegistry { entries: Vec::new(), sealed: false };
        assert(r.paths() =~= Seq::<Seq<char>>::empty());
        assert(r.router_fns() =~= Seq::<F>::empty());
        r
    }

    /// Adds a route while the registry is open; a sealed registry is left
    /// unchanged.
    pub fn register(&mut self, path: String, router_fn: F) -> (r: Result<(), RegistryError>)
        ensures
            old(self).is_sealed() ==> r == Err::<(), RegistryError>(RegistryError::Sealed) && final(self).paths() == old(
                self,
            ).paths() && final(self).router_fns() == old(self).router_fns(),
            !old(self).is_sealed() ==> r is Ok && final(self).paths() == old(self).paths().push(path@)
                && final(self).router_fns() == old(self).router_fns().push(router_fn),
            final(self).is_sealed() == old(self).is_sealed(),
    {
        if self.sealed {
            return Err(RegistryError::Sealed);
        }
        let ghost p = path@;
        self.entries.push(RegistryEntry { path, router_fn });
        assert(self.paths() =~= old(self).paths().push(p));
        assert(self.router_fns() =~= old(self).router_fns().push(router_fn));
        Ok(())
    }

    /// Closes the registry to further registration.
    pub fn seal(&mut self)
        ensures
            final(self).is_sealed(),
            final(self).paths() == old(self).paths(),
            final(self).router_fns() == old(self).router_fns(),
    {
        self.sealed = true;
    }

    /// Every registered route, in registration order; only once sealed.
    pub fn entries(&self) -> (r: &Vec<RegistryEntry<F>>)
        requires
            self.is_sealed(),
        ensures
            r@.map_values(|e: RegistryEntry<F>| e.path@) == self.paths(),
            r@.map_values(|e: RegistryEntry<F>| e.router_fn) == self.router_fns(),
    {
        &self.entries
    }
}

} // verus!
