use lagon::invocation::{is_code_generation_error, InvocationOutcome, InvocationResponse, IsolateReport};
use lagon::runtime::{EngineError, EngineRegistry, Runtime, RuntimeOptions, DISALLOW_CODE_GENERATION_FLAG};

const EVAL_ERROR: &str = "EvalError: Code generation from strings disallowed for this context";

fn ok_response() -> InvocationResponse {
    InvocationResponse { status: 200, headers: vec![], body: "ok".to_string() }
}

fn engine(options: RuntimeOptions) -> Runtime {
    EngineRegistry::new().initialize(options).unwrap()
}

fn running(allow_eval: bool) -> Runtime {
    let mut rt = engine(RuntimeOptions { allow_eval });
    rt.open_context().unwrap();
    rt
}

#[test]
fn policy_is_secure_by_default() {
    assert!(!RuntimeOptions::default().allow_eval);
    let rt = engine(RuntimeOptions::default());
    assert_eq!(rt.engine_flag(), Some(DISALLOW_CODE_GENERATION_FLAG));
    assert_eq!(DISALLOW_CODE_GENERATION_FLAG, "--disallow-code-generation-from-strings");
}

#[test]
fn allowing_eval_sets_no_flag() {
    let rt = engine(RuntimeOptions { allow_eval: true });
    assert_eq!(rt.engine_flag(), None);
    assert!(rt.allow_eval());
}

#[test]
fn second_initialize_fails() {
    let mut reg = EngineRegistry::new();
    assert!(!reg.is_initialized());
    let rt = reg.initialize(RuntimeOptions::default()).unwrap();
    assert!(rt.is_ready());
    assert_eq!(rt.active_contexts(), 0);
    assert!(matches!(reg.initialize(RuntimeOptions::default()), Err(EngineError::AlreadyInitialized)));
    assert!(reg.is_initialized());
}

#[test]
fn dispose_with_live_contexts_fails() {
    let mut rt = running(false);
    assert_eq!(rt.dispose(), Err(EngineError::DisposeOrderViolation));
    assert!(rt.is_ready());
    assert_eq!(rt.active_contexts(), 1);
    rt.close_context();
    assert_eq!(rt.dispose(), Ok(true));
    assert_eq!(rt.active_contexts(), 0);
    assert!(!rt.is_ready());
}

#[test]
fn dispose_is_idempotent() {
    let mut rt = engine(RuntimeOptions::default());
    assert_eq!(rt.dispose(), Ok(true));
    assert_eq!(rt.dispose(), Ok(false));
    assert_eq!(rt.open_context(), Err(EngineError::EngineDisposed));
}

#[test]
fn handler_response_passes_through() {
    let mut rt = running(false);
    match rt.settle(IsolateReport::Returned(ok_response()), 5, 100) {
        InvocationOutcome::Response(r) => {
            assert_eq!(r.status, 200);
            assert_eq!(r.body, "ok");
        }
        _ => panic!("expected a response"),
    }
    assert_eq!(rt.active_contexts(), 0);
}

#[test]
fn refused_code_generation_is_a_sandbox_violation() {
    let mut rt = running(false);
    let out = rt.settle(IsolateReport::Threw(EVAL_ERROR.to_string()), 1, 100);
    assert!(matches!(out, InvocationOutcome::SandboxViolation));
    assert_eq!(rt.active_contexts(), 0);
}

#[test]
fn eval_error_under_permissive_policy_is_a_runtime_error() {
    let mut rt = running(true);
    let out = rt.settle(IsolateReport::Threw(EVAL_ERROR.to_string()), 1, 100);
    assert!(matches!(out, InvocationOutcome::InvocationRuntimeError(m) if m == EVAL_ERROR));
}

#[test]
fn uncaught_exception_is_a_runtime_error() {
    let mut rt = running(false);
    let out = rt.settle(IsolateReport::Threw("TypeError: x is undefined".to_string()), 1, 100);
    assert!(matches!(out, InvocationOutcome::InvocationRuntimeError(m) if m == "TypeError: x is undefined"));
}

#[test]
fn late_invocation_times_out_and_is_reclaimed() {
    let mut rt = running(false);
    rt.open_context().unwrap();
    let out = rt.settle(IsolateReport::Returned(ok_response()), 101, 100);
    assert!(matches!(out, InvocationOutcome::InvocationTimeout));
    assert_eq!(rt.active_contexts(), 1);
    let out = rt.settle(IsolateReport::Threw(EVAL_ERROR.to_string()), 100, 100);
    assert!(matches!(out, InvocationOutcome::SandboxViolation));
    assert_eq!(rt.active_contexts(), 0);
}

#[test]
fn syntax_error_is_reported_as_such() {
    let mut rt = running(false);
    let out = rt.settle(IsolateReport::SyntaxError("Unexpected token".to_string()), 0, 100);
    assert!(matches!(out, InvocationOutcome::BootstrapSyntaxError(m) if m == "Unexpected token"));
}

#[test]
fn code_generation_messages() {
    assert!(is_code_generation_error(EVAL_ERROR));
    assert!(is_code_generation_error("EvalError: Code generation from strings disallowed"));
    assert!(!is_code_generation_error("EvalError: Code generation"));
    assert!(!is_code_generation_error("TypeError: Code generation from strings disallowed"));
    assert!(!is_code_generation_error(""));
}
