//! The pub/sub transport: configuration of one topic sink. The event
//! is serialized to its canonical structured form and published to a
//! topic handle resolved once at bootstrap from the credentials.

use vstd::prelude::*;
use crate::retry::Policy;
use crate::writer::ErrorPolicy;

verus! {

/// Configuration of one pub/sub sink instance.
#[derive(Clone, Debug, Default)]
pub struct Config {
    /// Name of the topic published to.
    pub topic: String,
    /// Credentials the client is resolved from at bootstrap.
    pub credentials: String,
    pub error_policy: Option<ErrorPolicy>,
    pub retry_policy: Option<Policy>,
}

} // verus!
