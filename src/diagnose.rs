//! The answer to a runtime diagnosis request.
use vstd::prelude::*;

verus! {

#[derive(Debug, Clone)]
pub struct NativeCodexRuntimeDiagnoseMetadata {
    pub feature_enabled: bool,
    pub cached_runtime: bool,
    pub codex_home: Option<String>,
    pub session_source: Option<String>,
    pub auth_mode: Option<String>,
    pub thread_count: Option<usize>,
}

#[derive(Debug, Clone)]
pub struct NativeCodexRuntimeDiagnoseResponse {
    pub ok: bool,
    pub error: Option<String>,
    pub metadata: NativeCodexRuntimeDiagnoseMetadata,
}

/// A diagnosis whose runtime could not be started: the error, and nothing else known.
pub fn init_error_response(error: String) -> (r: NativeCodexRuntimeDiagnoseResponse)
    ensures
        !r.ok,
        r.error == Some(error),
        r.metadata.feature_enabled && !r.metadata.cached_runtime,
        r.metadata.codex_home.is_none() && r.metadata.session_source.is_none()
            && r.metadata.auth_mode.is_none() && r.metadata.thread_count.is_none(),
{
    NativeCodexRuntimeDiagnoseResponse {
        ok: false,
        error: Some(error),
        metadata: NativeCodexRuntimeDiagnoseMetadata {
            feature_enabled: true,
            cached_runtime: false,
            codex_home: None,
            session_source: None,
            auth_mode: None,
            thread_count: None,
        },
    }
}

/// A diagnosis where the native runtime is not part of the build: nothing is wrong, and
/// nothing is known.
pub fn disabled_response() -> (r: NativeCodexRuntimeDiagnoseResponse)
    ensures
        r.ok && r.error.is_none(),
        !r.metadata.feature_enabled && !r.metadata.cached_runtime,
        r.metadata.codex_home.is_none() && r.metadata.session_source.is_none()
            && r.metadata.auth_mode.is_none() && r.metadata.thread_count.is_none(),
{
    NativeCodexRuntimeDiagnoseResponse {
        ok: true,
        error: None,
        metadata: NativeCodexRuntimeDiagnoseMetadata {
            feature_enabled: false,
            cached_runtime: false,
            codex_home: None,
            session_source: None,
            auth_mode: None,
            thread_count: None,
        },
    }
}

} // verus!
