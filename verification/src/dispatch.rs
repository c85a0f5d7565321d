//! The dispatch layer: one seam from a provider id to its transport.
//!
//! Every vendor-specific behavior is reached through this mapping; adding a
//! vendor means one transport implementation and one arm here.

use vstd::prelude::*;

use crate::chars::str_eq;
use crate::errors::SttError;

verus! {

/// The transport a provider id resolves to.
#[derive(Debug, PartialEq, Eq)]
pub enum ProviderRoute {
    /// The single-shot multipart transport.
    OpenAiBatch,
    /// The upload-then-poll transport.
    SonioxAsyncPoll,
}

/// Resolve a provider id to its transport.
///
/// An unrecognized id fails with the unknown-provider error before anything
/// else happens — in particular, before any network request is assembled.
pub fn route(provider_id: &str) -> (r: Result<ProviderRoute, SttError>)
    ensures
        provider_id@ == "openai_stt"@ ==> r == Ok::<ProviderRoute, SttError>(
            ProviderRoute::OpenAiBatch,
        ),
        provider_id@ == "soniox"@ ==> r == Ok::<ProviderRoute, SttError>(
            ProviderRoute::SonioxAsyncPoll,
        ),
        (provider_id@ != "openai_stt"@ && provider_id@ != "soniox"@) ==> (r matches Err(e) && (e
            matches SttError::UnknownProvider { id } && id@ == provider_id@)),
{
    proof {
        reveal_strlit("openai_stt");
        reveal_strlit("soniox");
        assert("openai_stt"@.len() == 10);
        assert("soniox"@.len() == 6);
        assert("openai_stt"@ != "soniox"@);
    }
    if str_eq(provider_id, "openai_stt") {
        Ok(ProviderRoute::OpenAiBatch)
    } else if str_eq(provider_id, "soniox") {
        Ok(ProviderRoute::SonioxAsyncPoll)
    } else {
        Err(SttError::UnknownProvider { id: provider_id.to_owned() })
    }
}

} // verus!
