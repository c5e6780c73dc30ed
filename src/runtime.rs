//! The engine's lifecycle: one engine per process, bound to one execution
//! policy, counting the contexts that run on it, and the typed outcome of
//! each invocation.
use vstd::prelude::*;
use vstd::string::*;

verus! {

/// The engine-wide execution policy.
pub struct RuntimeOptions {
    /// Whether tenant code may generate code from strings at run time.
    pub allow_eval: bool,
}

impl Default for RuntimeOptions {
    /// Secure by default: code generation from strings is off.
    fn default() -> (r: Self)
        ensures
            !r.allow_eval,
    {
        RuntimeOptions { allow_eval: false }
    }
}

/// The engine flag that turns code generation from strings off.
pub const DISALLOW_CODE_GENERATION_FLAG: &'static str = "--disallow-code-generation-from-strings";

/// Failures of the engine's lifecycle.
#[derive(Debug, PartialEq, Eq, Clone, Copy)]
pub enum EngineError {
    /// The process already started its engine.
    AlreadyInitialized,
    /// `dispose` was asked for while contexts still run.
    DisposeOrderViolation,
    /// The engine was disposed: no context can start on it.
    EngineDisposed,
}

pub struct RuntimeView {
    pub ready: bool,
    pub active: nat,
    pub allow_eval: bool,
}

/// The engine: ready until disposed, with the number of live contexts.
pub struct Runtime {
    ready: bool,
    active_contexts: u64,
    allow_eval: bool,
}

impl View for Runtime {
    type V = RuntimeView;

    closed spec fn view(&self) -> RuntimeView {
        RuntimeView {
            ready: self.ready,
            active: self.active_contexts as nat,
            allow_eval: self.allow_eval,
        }
    }
}

impl Runtime {
    /// A ready engine with no context, bound to `options` for its lifetime.
    /// Only the registry makes one, so a process holds at most one.
    pub(crate) fn new(options: RuntimeOptions) -> (r: Runtime)
        ensures
            r@.ready,
            r@.active == 0,
            r@.allow_eval == options.allow_eval,
    {
        Runtime { ready: true, active_contexts: 0, allow_eval: options.allow_eval }
    }

    pub fn is_ready(&self) -> (r: bool)
        ensures
            r == self@.ready,
    {
        self.ready
    }

    pub fn active_contexts(&self) -> (r: u64)
        ensures
            r as nat == self@.active,
    {
        self.active_contexts
    }

    pub fn allow_eval(&self) -> (r: bool)
        ensures
            r == self@.allow_eval,
    {
        self.allow_eval
    }

    /// The flag that the engine is started with, if any: the one that turns
    /// code generation from strings off, exactly when the policy forbids it.
    pub fn engine_flag(&self) -> (r: Option<&'static str>)
        ensures
            r is Some <==> !self@.allow_eval,
            r matches Some(f) ==> f@ == DISALLOW_CODE_GENERATION_FLAG@,
    {
        if self.allow_eval {
            None
        } else {
            Some(DISALLOW_CODE_GENERATION_FLAG)
        }
    }

    /// Counts one more live context; a disposed engine starts none.
    pub fn open_context(&mut self) -> (r: Result<(), EngineError>)
        requires
            old(self)@.active < u64::MAX,
        ensures
            r is Ok <==> old(self)@.ready,
            r is Ok ==> final(self)@ == (RuntimeView { active: old(self)@.active + 1, ..old(self)@ }),
            r is Err ==> r == Err::<(), EngineError>(EngineError::EngineDisposed) && final(self)@
                == old(self)@,
    {
        if !self.ready {
            return Err(EngineError::EngineDisposed);
        }
        self.active_contexts = self.active_contexts + 1;
        Ok(())
    }

    /// Counts one live context fewer, whatever way it ended.
    pub fn close_context(&mut self)
        requires
            old(self)@.active > 0,
        ensures
            final(self)@ == (RuntimeView { active: (old(self)@.active - 1) as nat, ..old(self)@ }),
    {
        self.active_contexts = self.active_contexts - 1;
    }

    /// Tears the engine down once no context runs. `Ok(true)` asks the caller
    /// to release the native platform now; `Ok(false)` says it already was.
    /// With live contexts it fails and changes nothing.
    pub fn dispose(&mut self) -> (r: Result<bool, EngineError>)
        ensures
            r is Ok <==> old(self)@.active == 0,
            r is Ok ==> final(self)@ == (RuntimeView { ready: false, ..old(self)@ }),
            r is Ok ==> final(self)@.active == 0,
            r matches Ok(first) ==> first == old(self)@.ready,
            r is Err ==> r == Err::<bool, EngineError>(EngineError::DisposeOrderViolation)
                && final(self)@ == old(self)@,
    {
        if self.active_contexts > 0 {
            return Err(EngineError::DisposeOrderViolation);
        }
        let first = self.ready;
        self.ready = false;
        Ok(first)
    }
}

/// The registry that lets a process start its engine once.
pub struct EngineRegistry {
    initialized: bool,
}

impl EngineRegistry {
    pub fn new() -> (r: EngineRegistry)
        ensures
            !r.is_initialized_spec(),
    {
        EngineRegistry { initialized: false }
    }

    pub closed spec fn is_initialized_spec(&self) -> bool {
        self.initialized
    }

    pub fn is_initialized(&self) -> (r: bool)
        ensures
            r == self.is_initialized_spec(),
    {
        self.initialized
    }

    /// Starts the engine with `options`, or fails when it was started before.
    pub fn initialize(&mut self, options: RuntimeOptions) -> (r: Result<Runtime, EngineError>)
        ensures
            final(self).is_initialized_spec(),
            r is Ok <==> !old(self).is_initialized_spec(),
            r matches Ok(rt) ==> rt@ == (RuntimeView {
                ready: true,
                active: 0,
                allow_eval: options.allow_eval,
            }),
            r is Err ==> r matches Err(EngineError::AlreadyInitialized),
    {
        if self.initialized {
            return Err(EngineError::AlreadyInitialized);
        }
        self.initialized = true;
        Ok(Runtime::new(options))
    }
}

} // verus!
