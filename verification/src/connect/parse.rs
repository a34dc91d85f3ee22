//! Parsing request fields, with the field named in the failure.

use vstd::prelude::*;
use crate::common::{chrono_parse_rfc3339, spec_rfc3339_parse, timestamp_of, Timestamp};
use crate::connect::code::{invalid_field, invalid_field_message, ConnectCode, ConnectFailure};
use crate::text::{chars_of, push_chars};
use crate::uuid::{spec_uuid_parse, uuid_text, Uuid};

verus! {

/// The message of a failed [`parse_uuid`]: ``invalid UUID in field `field` ``.
pub open spec fn invalid_uuid_message(field: Seq<char>) -> Seq<char> {
    "invalid UUID in field `"@ + field + "`"@
}

/// Parses a UUID request field; on failure an `InvalidArgument` failure whose
/// message names the field.
pub fn parse_uuid(s: &str, field: &str) -> (r: Result<Uuid, ConnectFailure>)
    ensures
        r is Ok <==> spec_uuid_parse(s@) is Some,
        r matches Ok(u) ==> spec_uuid_parse(s@) == Some(u@),
        forall|v: u128| s@ == uuid_text(v) ==> (r matches Ok(u) && u@ == v),
        r matches Err(e) ==> e.code == ConnectCode::InvalidArgument && e.message is Some
            && e.message->0@ == invalid_uuid_message(field@),
{
    match Uuid::parse_str(s) {
        Some(u) => Ok(u),
        None => {
            let mut m = String::new();
            let a = chars_of("invalid UUID in field `");
            let f = chars_of(field);
            let b = chars_of("`");
            push_chars(&mut m, a.as_slice());
            push_chars(&mut m, f.as_slice());
            push_chars(&mut m, b.as_slice());
            proof {
                assert(m@ =~= invalid_uuid_message(field@));
            }
            Err(ConnectFailure { code: ConnectCode::InvalidArgument, message: Some(m) })
        },
    }
}

/// Parses an RFC 3339 date-time request field, taken to UTC; on failure the
/// `InvalidArgument` failure of [`invalid_field`] naming the field.
pub fn parse_rfc3339(s: &str, field: &str) -> (r: Result<Timestamp, ConnectFailure>)
    ensures
        r is Ok <==> spec_rfc3339_parse(s@) is Some,
        r matches Ok(t) ==> t == timestamp_of(spec_rfc3339_parse(s@)->0),
        r matches Err(e) ==> e.code == ConnectCode::InvalidArgument && e.message is Some
            && e.message->0@ == invalid_field_message(field@),
{
    match chrono_parse_rfc3339(s) {
        Some((secs, nanos)) => Ok(Timestamp { secs, nanos }),
        None => Err(invalid_field(field)),
    }
}

} // verus!
