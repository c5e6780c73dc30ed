//! What one invocation of a context gives back to its caller.
use vstd::prelude::*;
use vstd::string::*;
use crate::runtime::{Runtime, RuntimeView};

verus! {

/// The response a tenant's handler produced.
pub struct InvocationResponse {
    pub status: u16,
    pub headers: Vec<(String, String)>,
    pub body: String,
}

/// How a context reports the end of one invocation.
pub enum IsolateReport {
    /// The handler returned a response.
    Returned(InvocationResponse),
    /// An exception escaped; it carries the exception's text.
    Threw(String),
    /// The composed text did not compile; it carries the compiler's text.
    SyntaxError(String),
}

/// The typed outcome handed to the caller of one invocation.
pub enum InvocationOutcome {
    Response(InvocationResponse),
    InvocationTimeout,
    InvocationRuntimeError(String),
    SandboxViolation,
    BootstrapSyntaxError(String),
}

/// How the engine's exception text starts when code generation from strings
/// was refused.
pub const CODE_GENERATION_ERROR: &'static str = "EvalError: Code generation from strings disallowed";

pub open spec fn is_code_generation_message(m: Seq<char>) -> bool {
    m.len() >= CODE_GENERATION_ERROR@.len() && m.subrange(0, CODE_GENERATION_ERROR@.len() as int)
        == CODE_GENERATION_ERROR@
}

/// The outcome of an invocation that ended with `report` after `elapsed_ms`,
/// given its deadline and the engine's policy.
pub open spec fn outcome_of(
    allow_eval: bool,
    report: IsolateReport,
    elapsed_ms: u64,
    deadline_ms: u64,
) -> InvocationOutcome {
    if elapsed_ms > deadline_ms {
        InvocationOutcome::InvocationTimeout
    } else {
        match report {
            IsolateReport::Returned(resp) => InvocationOutcome::Response(resp),
            IsolateReport::Threw(msg) => if !allow_eval && is_code_generation_message(msg@) {
                InvocationOutcome::SandboxViolation
            } else {
                InvocationOutcome::InvocationRuntimeError(msg)
            },
            IsolateReport::SyntaxError(msg) => InvocationOutcome::BootstrapSyntaxError(msg),
        }
    }
}

/// Whether an exception's text says that code generation from strings was
/// refused.
pub fn is_code_generation_error(message: &str) -> (r: bool)
    ensures
        r == is_code_generation_message(message@),
{
    let n = CODE_GENERATION_ERROR.unicode_len();
    let m = message.unicode_len();
    if m < n {
        return false;
    }
    let mut i: usize = 0;
    while i < n
        invariant
            n == CODE_GENERATION_ERROR@.len(),
            m == message@.len(),
            n <= m,
            i <= n,
            forall|j: int| 0 <= j < i ==> message@[j] == CODE_GENERATION_ERROR@[j],
        decreases n - i,
    {
        if message.get_char(i) != CODE_GENERATION_ERROR.get_char(i) {
            assert(message@.subrange(0, n as int)[i as int] != CODE_GENERATION_ERROR@[i as int]);
            return false;
        }
        i = i + 1;
    }
    assert(message@.subrange(0, n as int) =~= CODE_GENERATION_ERROR@);
    true
}

impl Runtime {
    /// Ends one invocation: the context is retired whatever happened, and the
    /// caller gets the typed outcome.
    pub fn settle(&mut self, report: IsolateReport, elapsed_ms: u64, deadline_ms: u64) -> (r:
        InvocationOutcome)
        requires
            old(self)@.active > 0,
        ensures
            r == outcome_of(old(self)@.allow_eval, report, elapsed_ms, deadline_ms),
            final(self)@ == (RuntimeView { active: (old(self)@.active - 1) as nat, ..old(self)@ }),
    {
        let allow_eval = self.allow_eval();
        self.close_context();
        if elapsed_ms > deadline_ms {
            return InvocationOutcome::InvocationTimeout;
        }
        match report {
            IsolateReport::Returned(resp) => InvocationOutcome::Response(resp),
            IsolateReport::Threw(msg) => {
                if !allow_eval && is_code_generation_error(msg.as_str()) {
                    InvocationOutcome::SandboxViolation
                } else {
                    InvocationOutcome::InvocationRuntimeError(msg)
                }
            },
            IsolateReport::SyntaxError(msg) => InvocationOutcome::BootstrapSyntaxError(msg),
        }
    }
}

/// Under a policy that forbids code generation from strings, an invocation
/// that the engine stopped for generating code ends as a sandbox violation,
/// never with a response.
pub proof fn lemma_refused_code_generation(message: String, elapsed_ms: u64, deadline_ms: u64)
    requires
        is_code_generation_message(message@),
        elapsed_ms <= deadline_ms,
    ensures
        outcome_of(false, IsolateReport::Threw(message), elapsed_ms, deadline_ms)
            is SandboxViolation,
{
}

/// An invocation that outran its deadline ends as a timeout, whatever the
/// context reported and whatever the policy.
pub proof fn lemma_late_invocation_times_out(
    allow_eval: bool,
    report: IsolateReport,
    elapsed_ms: u64,
    deadline_ms: u64,
)
    requires
        elapsed_ms > deadline_ms,
    ensures
        outcome_of(allow_eval, report, elapsed_ms, deadline_ms) is InvocationTimeout,
{
}

} // verus!
