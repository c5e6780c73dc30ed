//! Composes the text that a sandboxed context runs: the runtime shim, the
//! environment bindings, the tenant's code and the entry point.
use vstd::prelude::*;
use vstd::string::*;
use crate::order::{
    binding_pairs, canonical_bindings, keys_unique, lemma_canonical_ignores_given_order,
    same_elements, sort_bindings,
};
use crate::literal::{decode_literal, encode_literal, lemma_literal_round_trip, escape_literal, is_identifier, is_valid_identifier};

verus! {

/// What a deployed function version hands to the engine.
pub struct IsolateOptions {
    /// The tenant's module text.
    pub code: String,
    /// Environment bindings as (name, value) pairs; names are unique, and the
    /// order they are given in does not matter.
    pub environment_variables: Option<Vec<(String, String)>>,
    /// Advisory: the engine-wide policy decides.
    pub allow_eval: bool,
}

pub struct IsolateOptionsView {
    pub code: Seq<char>,
    pub env: Seq<(Seq<char>, Seq<char>)>,
    pub allow_eval: bool,
}

/// The bindings as plain sequences; no mapping binds nothing.
pub open spec fn env_view(vars: Option<Vec<(String, String)>>) -> Seq<(Seq<char>, Seq<char>)> {
    match vars {
        Some(v) => binding_pairs(v@),
        None => Seq::empty(),
    }
}

impl View for IsolateOptions {
    type V = IsolateOptionsView;

    open spec fn view(&self) -> IsolateOptionsView {
        IsolateOptionsView {
            code: self.code@,
            env: env_view(self.environment_variables),
            allow_eval: self.allow_eval,
        }
    }
}

/// Why composing the bootstrap text failed.
#[derive(Debug, PartialEq, Eq)]
pub enum AssemblyError {
    /// A binding's name cannot stand as a property name; it carries the name.
    InvalidEnvironmentKey(String),
    /// Two bindings share a name; it carries the name.
    DuplicateEnvironmentKey(String),
}

/// Every binding's name is an identifier.
pub open spec fn all_keys_valid(env: Seq<(Seq<char>, Seq<char>)>) -> bool {
    forall|i: int| 0 <= i < env.len() ==> is_identifier(#[trigger] env[i].0)
}

/// The statement that binds `key` to the value `value`.
pub open spec fn binding_line(key: Seq<char>, value: Seq<char>) -> Seq<char> {
    "    globalThis.process.env."@ + key + " = '"@ + encode_literal(value) + "';\n"@
}

/// The statements that bind every pair of `env`, in order.
pub open spec fn env_block(env: Seq<(Seq<char>, Seq<char>)>) -> Seq<char>
    decreases env.len(),
{
    if env.len() == 0 {
        Seq::empty()
    } else {
        env_block(env.drop_last()) + binding_line(env.last().0, env.last().1)
    }
}

/// The entry point that the host calls: it builds the shim's request from the
/// normalized one and hands it to the tenant's `handler`.
pub open spec fn entry_wrapper() -> Seq<char> {
    "\n\nexport async function masterHandler(request) {\n    const handlerRequest = new Request(request.target, {\n        method: request.method,\n        headers: request.headers,\n        body: request.body,\n    });\n\n    return handler(handlerRequest);\n}\n"@
}

/// The whole bootstrap text, in the order shim, bindings, code, entry point.
pub open spec fn bootstrap_text(
    shim: Seq<char>,
    env: Seq<(Seq<char>, Seq<char>)>,
    code: Seq<char>,
) -> Seq<char> {
    "\n"@ + shim + "\n\n(() => {\n"@ + env_block(env) + "})()\n\n"@ + code + entry_wrapper()
}

/// For any options whose binding names are identifiers, composing succeeds
/// with a text that ends in the one fixed entry point, right after the
/// tenant's code, and whose part before the code does not depend on the code.
pub proof fn lemma_single_entry_point(
    shim: Seq<char>,
    env: Seq<(Seq<char>, Seq<char>)>,
    code: Seq<char>,
    other_code: Seq<char>,
)
    requires
        all_keys_valid(env),
    ensures
        ({
            let t = bootstrap_text(shim, env, code);
            let head_len = t.len() - code.len() - entry_wrapper().len();
            &&& head_len >= 0
            &&& t.subrange(head_len, head_len + code.len()) == code
            &&& t.subrange(head_len + code.len(), t.len() as int) == entry_wrapper()
            &&& t.subrange(0, head_len) == bootstrap_text(shim, env, other_code).subrange(
                0,
                head_len,
            )
        }),
{
    let head = "\n"@ + shim + "\n\n(() => {\n"@ + env_block(env) + "})()\n\n"@;
    let t = bootstrap_text(shim, env, code);
    let u = bootstrap_text(shim, env, other_code);
    assert(t =~= head + code + entry_wrapper());
    assert(u =~= head + other_code + entry_wrapper());
    let head_len = head.len() as int;
    assert(t.subrange(head_len, head_len + code.len()) =~= code);
    assert(t.subrange(head_len + code.len(), t.len() as int) =~= entry_wrapper());
    assert(t.subrange(0, head_len) =~= head);
    assert(u.subrange(0, head_len) =~= head);
}

/// Every binding stands in the binding block as one statement whose quoted
/// literal evaluates to the binding's value exactly.
pub proof fn lemma_bindings_read_back(env: Seq<(Seq<char>, Seq<char>)>, i: int)
    requires
        0 <= i < env.len(),
    ensures
        exists|off: int|
            0 <= off && off + binding_line(env[i].0, env[i].1).len() <= env_block(env).len()
                && #[trigger] env_block(env).subrange(
                off,
                off + binding_line(env[i].0, env[i].1).len(),
            ) == binding_line(env[i].0, env[i].1),
        decode_literal(encode_literal(env[i].1)) == Some(env[i].1),
    decreases env.len(),
{
    lemma_literal_round_trip(env[i].1);
    let line = binding_line(env[i].0, env[i].1);
    let prev = env.drop_last();
    if i == env.len() - 1 {
        let off = env_block(prev).len() as int;
        assert(env_block(env).subrange(off, off + line.len()) =~= line);
    } else {
        lemma_bindings_read_back(prev, i);
        let off = choose|off: int|
            0 <= off && off + line.len() <= env_block(prev).len()
                && #[trigger] env_block(prev).subrange(off, off + line.len()) == line;
        assert(env_block(env).subrange(off, off + line.len()) =~= env_block(prev).subrange(
            off,
            off + line.len(),
        ));
    }
}

/// The same bindings, given in any order, give the same text.
pub proof fn lemma_same_bindings_same_text(
    shim: Seq<char>,
    e1: Seq<(Seq<char>, Seq<char>)>,
    e2: Seq<(Seq<char>, Seq<char>)>,
    code: Seq<char>,
)
    requires
        keys_unique(e1),
        keys_unique(e2),
        same_elements(e1, e2),
    ensures
        bootstrap_text(shim, canonical_bindings(e1), code) == bootstrap_text(
            shim,
            canonical_bindings(e2),
            code,
        ),
{
    lemma_canonical_ignores_given_order(e1, e2);
}

/// Composes the text for `options` around the runtime shim `shim`, binding
/// the variables in canonical order. Fails, and writes nothing, when a
/// binding's name is not an identifier (naming the first such name), or
/// when two bindings share a name.
pub fn get_runtime_code(shim: &str, options: &IsolateOptions) -> (r: Result<String, AssemblyError>)
    ensures
        r is Ok <==> all_keys_valid(options@.env) && keys_unique(options@.env),
        r matches Ok(t) ==> t@ == bootstrap_text(
            shim@,
            canonical_bindings(options@.env),
            options@.code,
        ),
        r matches Err(AssemblyError::InvalidEnvironmentKey(k)) ==> exists|i: int|
            0 <= i < options@.env.len() && k@ == options@.env[i].0 && !is_identifier(k@)
                && forall|j: int| 0 <= j < i ==> is_identifier(#[trigger] options@.env[j].0),
        r matches Err(AssemblyError::DuplicateEnvironmentKey(k)) ==> all_keys_valid(options@.env)
            && exists|i: int, j: int|
            0 <= i < j < options@.env.len() && #[trigger] options@.env[i].0 == k@
                && #[trigger] options@.env[j].0 == k@,
{
    let env = Ghost(options@.env);
    let mut block = String::new();
    match &options.environment_variables {
        Some(vars) => {
            let mut i: usize = 0;
            while i < vars.len()
                invariant
                    env@ == options@.env,
                    env@ == binding_pairs(vars@),
                    i <= vars.len(),
                    forall|j: int| 0 <= j < i ==> is_identifier(#[trigger] env@[j].0),
                decreases vars.len() - i,
            {
                if !is_valid_identifier(vars[i].0.as_str()) {
                    let key = vars[i].0.clone();
                    assert(env@[i as int].0 == key@);
                    assert(!all_keys_valid(env@));
                    return Err(AssemblyError::InvalidEnvironmentKey(key));
                }
                i = i + 1;
            }
            let sorted = match sort_bindings(vars) {
                Ok(s) => s,
                Err(k) => {
                    return Err(AssemblyError::DuplicateEnvironmentKey(k));
                },
            };
            let ghost canon = binding_pairs(sorted@);
            let mut i: usize = 0;
            while i < sorted.len()
                invariant
                    canon == binding_pairs(sorted@),
                    i <= sorted.len(),
                    block@ == env_block(canon.subrange(0, i as int)),
                decreases sorted.len() - i,
            {
                let value = escape_literal(sorted[i].1.as_str());
                block.append("    globalThis.process.env.");
                block.append(sorted[i].0.as_str());
                block.append(" = '");
                block.append(value.as_str());
                block.append("';\n");
                proof {
                    let next = canon.subrange(0, i + 1);
                    assert(next.drop_last() =~= canon.subrange(0, i as int));
                    assert(next.last() == canon[i as int]);
                    assert(block@ =~= env_block(next));
                }
                i = i + 1;
            }
            assert(canon.subrange(0, sorted.len() as int) =~= canon);
        },
        None => {
            assert(canonical_bindings(env@) =~= Seq::<(Seq<char>, Seq<char>)>::empty());
            assert(env_block(canonical_bindings(env@)) =~= Seq::<char>::empty());
        },
    }
    let mut text = String::new();
    text.append("\n");
    text.append(shim);
    text.append("\n\n(() => {\n");
    text.append(block.as_str());
    text.append("})()\n\n");
    text.append(options.code.as_str());
    text.append(
        "\n\nexport async function masterHandler(request) {\n    const handlerRequest = new Request(request.target, {\n        method: request.method,\n        headers: request.headers,\n        body: request.body,\n    });\n\n    return handler(handlerRequest);\n}\n",
    );
    assert(text@ =~= bootstrap_text(shim@, canonical_bindings(env@), options@.code));
    Ok(text)
}

} // verus!
