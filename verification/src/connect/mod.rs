//! Building blocks for Connect RPC services.

pub mod code;
pub mod domain_error;
pub mod etag;
pub mod ext;
pub mod page;
pub mod parse;
pub mod precondition_client;
pub mod retry_eligibility;
pub mod scoped;
mod sealed;
pub mod transport;

pub use code::{invalid_field, ConnectCode, ConnectFailure};
pub use domain_error::{domain_failure, domain_to_connect, DomainErrorKind, IntoDomainErrorKind};
pub use ext::ConnectOptionExt;
pub use etag::{check_if_match, etag_from_millis, etag_from_updated_at};
pub use page::{build_offset_page, build_page, OffsetPage, DEFAULT_LIMIT, MAX_LIMIT};
pub use parse::{parse_rfc3339, parse_uuid};
pub use precondition_client::{index_generated_policy, index_policy_fields, Idempotency, PreconditionedTransport};
pub use scoped::{ScopeCall, ScopedClient};
pub use retry_eligibility::{is_connection_write_failure, is_replayable_transport_failure, is_unprompted_retryable};
pub use transport::is_caller_rejection;
