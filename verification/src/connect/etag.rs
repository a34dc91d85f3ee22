//! `If-Match` enforcement and timestamp-derived entity tags for Connect RPC
//! handlers.

use vstd::prelude::*;
use crate::common::{spec_millis, Timestamp};
use crate::connect::code::{ConnectCode, ConnectFailure};
use crate::etag::{lemma_parse_list_single, spec_etag_text, spec_parse_error_text, spec_parse_list, ETag};
use crate::text::{chars_eq_str, chars_of, fmt_hex, fmt_hex_exec, owned, push_chars, string_from_chars, trim, trim_str};

verus! {

/// Checking `If-Match` (its text, `None` when absent or not text) against the
/// current tag: absent or blank needs a precondition; `*` always passes;
/// otherwise the value must parse as a tag list, one of which must weakly
/// match (same value) the current tag.
pub open spec fn spec_check_if_match(raw: Option<Seq<char>>, current: ETag) -> Result<
    (),
    (ConnectCode, Seq<char>),
> {
    match raw {
        None => Err((ConnectCode::FailedPrecondition, "If-Match header required"@)),
        Some(r) => {
            let t = trim(r);
            if t.len() == 0 {
                Err((ConnectCode::FailedPrecondition, "If-Match header required"@))
            } else if t == "*"@ {
                Ok(())
            } else {
                match spec_parse_list(t) {
                    Err(e) => Err(
                        (
                            ConnectCode::InvalidArgument,
                            "If-Match header is malformed: "@ + spec_parse_error_text(e),
                        ),
                    ),
                    Ok(tags) => if exists|i: int|
                        0 <= i < tags.len() && (#[trigger] tags[i]).1 == current.value@ {
                        Ok(())
                    } else {
                        Err(
                            (
                                ConnectCode::Aborted,
                                "ETag does not match; the resource has been modified"@,
                            ),
                        )
                    },
                }
            }
        },
    }
}

/// The code and message of a failure (an absent message reads as empty).
pub open spec fn failure_view(f: ConnectFailure) -> (ConnectCode, Seq<char>) {
    (f.code, match f.message {
        Some(m) => m@,
        None => Seq::empty(),
    })
}

/// Enforce `If-Match` against `current_etag`; `raw` is the header's text,
/// `None` when the header is absent or not text.
#[verifier::loop_isolation(false)]
pub fn check_if_match(raw: Option<&str>, current_etag: &ETag) -> (r: Result<(), ConnectFailure>)
    ensures
        match r {
            Ok(_) => spec_check_if_match(opt_str(raw), *current_etag) is Ok,
            Err(e) => e.message is Some && spec_check_if_match(opt_str(raw), *current_etag)
                == Err::<(), (ConnectCode, Seq<char>)>(failure_view(e)),
        },
{
    let text = match raw {
        Some(t) => t,
        None => {
            return Err(ConnectFailure::new(ConnectCode::FailedPrecondition, "If-Match header required"));
        },
    };
    let trimmed = trim_str(text);
    let tv = chars_of(trimmed.as_str());
    if tv.len() == 0 {
        return Err(ConnectFailure::new(ConnectCode::FailedPrecondition, "If-Match header required"));
    }
    if chars_eq_str(tv.as_slice(), "*") {
        return Ok(());
    }
    let tags = match ETag::parse_list(trimmed.as_str()) {
        Ok(tags) => tags,
        Err(e) => {
            let mut msg = owned("If-Match header is malformed: ");
            let detail = e.to_string();
            push_chars(&mut msg, chars_of(detail.as_str()).as_slice());
            return Err(ConnectFailure { code: ConnectCode::InvalidArgument, message: Some(msg) });
        },
    };
    let ghost views = tags@.map_values(|e: ETag| crate::etag::etag_view(e));
    let mut i: usize = 0;
    while i < tags.len()
        invariant
            i <= tags@.len(),
            views == tags@.map_values(|e: ETag| crate::etag::etag_view(e)),
            forall|j: int| 0 <= j < i ==> (#[trigger] views[j]).1 != current_etag.value@,
        decreases tags@.len() - i,
    {
        if tags[i].matches_weak(current_etag) {
            assert(views[i as int].1 == current_etag.value@);
            return Ok(());
        }
        i = i + 1;
    }
    Err(ConnectFailure::new(ConnectCode::Aborted, "ETag does not match; the resource has been modified"))
}

/// Sending back the current tag's own wire form always passes, weak or
/// strong: the comparison is weak, so only the value counts. (A value holding
/// `"` has no wire form that parses back, and is left out.)
pub proof fn lemma_current_tag_passes(request_weak: bool, current: ETag)
    requires
        !current.value@.contains('"'),
    ensures
        spec_check_if_match(Some(spec_etag_text(request_weak, current.value@)), current) is Ok,
{
    let v = current.value@;
    let t = spec_etag_text(request_weak, v);
    lemma_parse_list_single(request_weak, v);
    reveal_strlit("W/\"");
    reveal_strlit("\"");
    reveal_strlit("*");
    assert(t.len() >= 2);
    assert(!crate::text::is_ws(t[0]));
    crate::text::lemma_lead_ws(t, 0);
    crate::text::lemma_trail_ws(t, 0);
    assert(crate::text::trim_start(t) =~= t);
    assert(trim(t) =~= t);
    assert(t != "*"@);
    let tags = seq![(request_weak, v)];
    assert(tags[0].1 == v);
}

/// The view of an optional string slice.
pub open spec fn opt_str(o: Option<&str>) -> Option<Seq<char>> {
    match o {
        Some(s) => Some(s@),
        None => None,
    }
}

/// The weak tag of a record updated at `millis` (Unix milliseconds): the
/// number in lower-case hexadecimal, two's complement when negative
/// (`format!("{millis:x}")`).
pub fn etag_from_millis(millis: i64) -> (r: ETag)
    ensures
        r.weak,
        r.value@ == fmt_hex(millis as u64 as nat),
{
    let digits = fmt_hex_exec(millis as u64);
    ETag { value: string_from_chars(digits.as_slice()), weak: true }
}

/// The weak tag of a record last updated at `updated_at`: its Unix
/// milliseconds in lower-case hexadecimal, as [`etag_from_millis`] writes them.
pub fn etag_from_updated_at(updated_at: Timestamp) -> (r: ETag)
    requires
        i64::MIN <= spec_millis(updated_at) <= i64::MAX,
    ensures
        r.weak,
        r.value@ == fmt_hex(spec_millis(updated_at) as i64 as u64 as nat),
{
    etag_from_millis(updated_at.timestamp_millis())
}

} // verus!
