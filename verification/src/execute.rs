//! The pluggable execution collaborator: code text in, result text out.
//! This kernel delegates to the uiua interpreter.

use vstd::prelude::*;

verus! {

/// Relies on `uiua::Uiua` (`with_safe_sys`, `compile_run` with
/// `Compiler::load_str`, `stack`) and `uiua::Value::show`: compiles and runs
/// the code in a sandboxed runtime.  On success the remaining stack values
/// are rendered one per line; on a compile or run error the error's text
/// comes back in the `Err` arm.  The result depends on what the code itself
/// does, so nothing is promised of its value.
#[verifier::external_body]
pub fn run_wrapped(code: &str) -> (r: Result<String, String>) {
    let mut runtime = uiua::Uiua::with_safe_sys();
    match runtime.compile_run(|compiler| compiler.load_str(code)) {
        Ok(_compiler) => {
            let shown: Vec<String> = runtime.stack().iter().map(|value| value.show()).collect();
            Ok(shown.join("\n"))
        },
        Err(e) => Err(e.to_string()),
    }
}

} // verus!
