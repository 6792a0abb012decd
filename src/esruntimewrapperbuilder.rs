//! Settings for a new runtime, collected before the worker thread is started.
use vstd::prelude::*;
use std::time::Duration;

verus! {

/// The number of compiled modules a runtime keeps when nothing else is set.
pub const DEFAULT_MODULE_CACHE_SIZE: usize = 50;

/// The settings a runtime is started with, taken out of a builder by `build`. `L` is the
/// host's module loader: it supplies the source text of a module by the name it was imported by.
pub struct RuntimeSettings<L> {
    pub gc_interval: Option<Duration>,
    pub module_code_loader: Option<L>,
    pub module_cache_size: usize,
}

/// Collects the settings of a runtime; it can be built once.
pub struct EsRuntimeWrapperBuilder<L> {
    gc_interval: Option<Duration>,
    module_code_loader: Option<L>,
    module_cache_size: usize,
    built: bool,
}

impl<L> EsRuntimeWrapperBuilder<L> {
    pub closed spec fn spec_gc_interval(&self) -> Option<Duration> {
        self.gc_interval
    }

    pub closed spec fn spec_loader(&self) -> Option<L> {
        self.module_code_loader
    }

    pub closed spec fn spec_module_cache_size(&self) -> usize {
        self.module_cache_size
    }

    pub closed spec fn spec_built(&self) -> bool {
        self.built
    }

    /// A builder with the default settings: no collection thread, no module loader, and a
    /// cache of `DEFAULT_MODULE_CACHE_SIZE` modules.
    pub fn new() -> (r: Self)
        ensures
            r.spec_gc_interval() is None,
            r.spec_loader() is None,
            r.spec_module_cache_size() == DEFAULT_MODULE_CACHE_SIZE,
            !r.spec_built(),
    {
        EsRuntimeWrapperBuilder {
            gc_interval: None,
            module_code_loader: None,
            module_cache_size: DEFAULT_MODULE_CACHE_SIZE,
            built: false,
        }
    }

    /// Asks for a thread that runs the collector every `interval`.
    pub fn gc_interval(&mut self, interval: Duration) -> (r: &mut Self)
        ensures
            r.spec_gc_interval() == Some(interval),
            r.spec_loader() == old(self).spec_loader(),
            r.spec_module_cache_size() == old(self).spec_module_cache_size(),
            r.spec_built() == old(self).spec_built(),
            *final(self) == *final(r),
    {
        self.gc_interval = Some(interval);
        self
    }

    /// Sets the closure that supplies the source text of imported modules.
    pub fn module_code_loader(&mut self, loader: L) -> (r: &mut Self)
        ensures
            r.spec_gc_interval() == old(self).spec_gc_interval(),
            r.spec_loader() == Some(loader),
            r.spec_module_cache_size() == old(self).spec_module_cache_size(),
            r.spec_built() == old(self).spec_built(),
            *final(self) == *final(r),
    {
        self.module_code_loader = Some(loader);
        self
    }

    /// Sets how many compiled modules are kept.
    pub fn module_cache_size(&mut self, size: usize) -> (r: &mut Self)
        ensures
            r.spec_gc_interval() == old(self).spec_gc_interval(),
            r.spec_loader() == old(self).spec_loader(),
            r.spec_module_cache_size() == size,
            r.spec_built() == old(self).spec_built(),
            *final(self) == *final(r),
    {
        self.module_cache_size = size;
        self
    }

    /// Whether `build` has already been called.
    pub fn is_built(&self) -> (r: bool)
        ensures
            r == self.spec_built(),
    {
        self.built
    }

    /// Takes the settings out of the builder; a builder is built once only.
    pub fn build(&mut self) -> (r: RuntimeSettings<L>)
        requires
            !old(self).spec_built(),
        ensures
            r.gc_interval == old(self).spec_gc_interval(),
            r.module_code_loader == old(self).spec_loader(),
            r.module_cache_size == old(self).spec_module_cache_size(),
            final(self).spec_built(),
            final(self).spec_loader() is None,
            final(self).spec_gc_interval() == old(self).spec_gc_interval(),
            final(self).spec_module_cache_size() == old(self).spec_module_cache_size(),
    {
        self.built = true;
        let mut loader = None;
        std::mem::swap(&mut loader, &mut self.module_code_loader);
        RuntimeSettings { gc_interval: self.gc_interval, module_code_loader: loader, module_cache_size: self.module_cache_size }
    }
}

} // verus!
