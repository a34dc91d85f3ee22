//! Which Connect failures may be replayed: the transport-shape half of a retry
//! decision (did the call reach the server at all).

use vstd::prelude::*;
use crate::connect::code::{ConnectCode, ConnectFailure};
use crate::text::chars_of;

verus! {

/// The result of `str::to_lowercase` (Unicode lowercase mapping) on `s`.
pub uninterp spec fn spec_to_lowercase(s: Seq<char>) -> Seq<char>;

/// `str::to_lowercase`: the Unicode lowercase of `s`. Its result is named,
/// not spelled out: the mapping is the Unicode tables'.
#[verifier::external_body]
fn str_to_lowercase(s: &str) -> (r: String)
    ensures
        r@ == spec_to_lowercase(s@),
{
    s.to_lowercase()
}

/// The messages, lowercased, that mark a request that failed while being
/// written onto the connection (a socket the peer had already closed).
pub open spec fn write_failure_signatures() -> Seq<Seq<char>> {
    seq![
        "write epipe"@,
        "broken pipe"@,
        "econnreset"@,
        "connection reset"@,
        "socket hang up"@,
        "http2 stream closed"@,
        "received goaway"@,
    ]
}

/// Whether `p` occurs in `s` starting at index `i`.
pub open spec fn occurs_at(s: Seq<char>, p: Seq<char>, i: int) -> bool {
    0 <= i && i + p.len() <= s.len() && s.subrange(i, i + p.len()) == p
}

/// Whether `p` occurs anywhere in `s` (`str::contains`).
pub open spec fn contains_sub(s: Seq<char>, p: Seq<char>) -> bool {
    exists|i: int| occurs_at(s, p, i)
}

/// `p` is contained in `s` exactly when some run of `s`, as long as `p`,
/// equals `p`; in particular the empty text is contained in every text.
pub proof fn lemma_contains_sub_meaning(s: Seq<char>, p: Seq<char>)
    ensures
        contains_sub(s, p) <==> exists|i: int|
            0 <= i && i + p.len() <= s.len() && #[trigger] s.subrange(i, i + p.len()) == p,
        contains_sub(s, Seq::empty()),
{
    if contains_sub(s, p) {
        let i = choose|i: int| occurs_at(s, p, i);
        assert(0 <= i && i + p.len() <= s.len() && s.subrange(i, i + p.len()) == p);
    }
    if exists|i: int| 0 <= i && i + p.len() <= s.len() && #[trigger] s.subrange(i, i + p.len()) == p {
        let i = choose|i: int|
            0 <= i && i + p.len() <= s.len() && #[trigger] s.subrange(i, i + p.len()) == p;
        assert(occurs_at(s, p, i));
    }
    assert(occurs_at(s, Seq::empty(), 0)) by {
        assert(s.subrange(0, 0) =~= Seq::<char>::empty());
    }
}

/// Whether `p` occurs at index `i` of `s`.
fn occurs_at_exec(s: &[char], p: &[char], i: usize) -> (r: bool)
    ensures
        r == occurs_at(s@, p@, i as int),
{
    if i > s.len() || p.len() > s.len() - i {
        return false;
    }
    let mut k: usize = 0;
    while k < p.len()
        invariant
            i + p@.len() <= s@.len() <= usize::MAX,
            k <= p@.len(),
            forall|j: int| 0 <= j < k ==> s@[i + j] == p@[j],
        decreases p@.len() - k,
    {
        if s[i + k] != p[k] {
            proof {
                assert(s@.subrange(i as int, i + p@.len())[k as int] != p@[k as int]);
            }
            return false;
        }
        k = k + 1;
    }
    proof {
        assert(s@.subrange(i as int, i + p@.len()) =~= p@);
    }
    true
}

/// Whether `p` occurs anywhere in `s`.
pub fn contains_sub_exec(s: &[char], p: &[char]) -> (r: bool)
    ensures
        r == contains_sub(s@, p@),
{
    let mut i: usize = 0;
    while i < s.len()
        invariant
            i <= s@.len(),
            forall|j: int| 0 <= j < i ==> !occurs_at(s@, p@, j),
        decreases s@.len() - i,
    {
        if occurs_at_exec(s, p, i) {
            return true;
        }
        i = i + 1;
    }
    if occurs_at_exec(s, p, i) {
        return true;
    }
    proof {
        assert forall|j: int| !occurs_at(s@, p@, j) by {
            if 0 <= j && j + p@.len() <= s@.len() {
                assert(j <= i);
            }
        }
    }
    false
}

/// Whether a code may be retried with no instruction from the server: only
/// `Unavailable`, the one code that means the connection did not carry the
/// call. `Aborted` (re-run the enclosing transaction instead) and
/// `ResourceExhausted` (a quota rejection) are not.
pub fn is_unprompted_retryable(code: ConnectCode) -> (r: bool)
    ensures
        r == (code == ConnectCode::Unavailable),
{
    match code {
        ConnectCode::Unavailable => true,
        _ => false,
    }
}

/// Whether a failure happened before the request reached the server: an
/// `Internal` failure whose lowercased message holds one of the write-failure
/// signatures. A missing message reads as empty.
pub open spec fn spec_is_connection_write_failure(code: ConnectCode, message: Option<Seq<char>>) -> bool {
    let lowered = spec_to_lowercase(
        match message {
            Some(m) => m,
            None => Seq::empty(),
        },
    );
    code == ConnectCode::Internal && exists|k: int|
        0 <= k < write_failure_signatures().len() && contains_sub(
            lowered,
            #[trigger] write_failure_signatures()[k],
        )
}

/// The message of a failure, by its view.
pub open spec fn message_view(error: &ConnectFailure) -> Option<Seq<char>> {
    match error.message {
        Some(m) => Some(m@),
        None => None,
    }
}

/// Whether a failure happened before the request reached the server. Matched
/// on the message because the cause's own code does not survive being
/// wrapped into a Connect failure.
pub fn is_connection_write_failure(error: &ConnectFailure) -> (r: bool)
    ensures
        r == spec_is_connection_write_failure(error.code, message_view(error)),
{
    match error.code {
        ConnectCode::Internal => {},
        _ => return false,
    }
    let lowered = match &error.message {
        Some(m) => str_to_lowercase(m.as_str()),
        None => str_to_lowercase(""),
    };
    proof {
        assert(""@ =~= Seq::<char>::empty()) by {
            reveal_strlit("");
        }
    }
    let low = chars_of(lowered.as_str());
    let ghost text: Seq<char> = match message_view(error) {
        Some(m) => m,
        None => Seq::empty(),
    };
    assert(low@ == spec_to_lowercase(text));
    let sigs: [&str; 7] = [
        "write epipe",
        "broken pipe",
        "econnreset",
        "connection reset",
        "socket hang up",
        "http2 stream closed",
        "received goaway",
    ];
    proof {
        reveal_strlit("write epipe");
        reveal_strlit("broken pipe");
        reveal_strlit("econnreset");
        reveal_strlit("connection reset");
        reveal_strlit("socket hang up");
        reveal_strlit("http2 stream closed");
        reveal_strlit("received goaway");
        assert forall|j: int| 0 <= j < 7 implies (#[trigger] sigs@[j])@ == write_failure_signatures()[j] by {
            if j == 0 {
                assert(sigs@[0]@ == "write epipe"@);
            }
        }
    }
    let mut k: usize = 0;
    while k < 7
        invariant
            k <= 7,
            error.code == ConnectCode::Internal,
            low@ == spec_to_lowercase(text),
            text == (match message_view(error) {
                Some(m) => m,
                None => Seq::empty(),
            }),
            forall|j: int| 0 <= j < 7 ==> (#[trigger] sigs@[j])@ == write_failure_signatures()[j],
            forall|j: int| 0 <= j < k ==> !contains_sub(low@, #[trigger] write_failure_signatures()[j]),
        decreases 7 - k,
    {
        let p = chars_of(sigs[k]);
        if contains_sub_exec(low.as_slice(), p.as_slice()) {
            proof {
                assert(contains_sub(low@, write_failure_signatures()[k as int]));
            }
            return true;
        }
        k = k + 1;
    }
    false
}

/// Whether a failure's shape permits a replay: `Unavailable`, or a write the
/// socket rejected before anything reached the server.
pub fn is_replayable_transport_failure(error: &ConnectFailure) -> (r: bool)
    ensures
        r == (error.code == ConnectCode::Unavailable || spec_is_connection_write_failure(
            error.code,
            message_view(error),
        )),
{
    is_unprompted_retryable(error.code) || is_connection_write_failure(error)
}

/// A failure is a connection write failure exactly when it is `Internal` and
/// its lowercased message (empty when absent) contains one of seven
/// signatures: `write epipe`, `broken pipe`, `econnreset`, `connection
/// reset`, `socket hang up`, `http2 stream closed`, `received goaway`.
pub proof fn lemma_write_failure_signatures(code: ConnectCode, message: Option<Seq<char>>)
    ensures
        ({
            let lowered = spec_to_lowercase(
                match message {
                    Some(m) => m,
                    None => Seq::empty(),
                },
            );
            spec_is_connection_write_failure(code, message) <==> code == ConnectCode::Internal && (
            contains_sub(lowered, "write epipe"@) || contains_sub(lowered, "broken pipe"@)
                || contains_sub(lowered, "econnreset"@) || contains_sub(lowered, "connection reset"@)
                || contains_sub(lowered, "socket hang up"@) || contains_sub(
                lowered,
                "http2 stream closed"@,
            ) || contains_sub(lowered, "received goaway"@))
        }),
{
    let lowered = spec_to_lowercase(
        match message {
            Some(m) => m,
            None => Seq::empty(),
        },
    );
    let sigs = write_failure_signatures();
    assert(sigs[0] == "write epipe"@);
    assert(sigs[1] == "broken pipe"@);
    assert(sigs[2] == "econnreset"@);
    assert(sigs[3] == "connection reset"@);
    assert(sigs[4] == "socket hang up"@);
    assert(sigs[5] == "http2 stream closed"@);
    assert(sigs[6] == "received goaway"@);
    assert(sigs.len() == 7);
}

/// A concurrency conflict (`Aborted`) or a quota rejection
/// (`ResourceExhausted`) is never a replayable transport failure, whatever
/// its message says.
pub proof fn lemma_conflicts_never_replay(code: ConnectCode, message: Option<Seq<char>>)
    requires
        code == ConnectCode::Aborted || code == ConnectCode::ResourceExhausted,
    ensures
        !(code == ConnectCode::Unavailable || spec_is_connection_write_failure(code, message)),
{
}

} // verus!
