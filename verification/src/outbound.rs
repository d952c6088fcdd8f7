//! What an outbound call came to.
use vstd::prelude::*;

use crate::scrub::{byte_len, fitting};
use crate::text::{chars_of, slice_of};

verus! {

/// Bytes of an answer that are kept.
pub const MAX_BODY: usize = 65_536;

/// The answer to an outbound call.
#[derive(Debug)]
pub struct Answer {
    /// Absent where no reply came.
    pub status: Option<u16>,
    /// The reply, or why there was none.
    pub body: String,
}

impl Answer {
    /// Whether the call landed: only a reply from 200 to 299 says so.
    pub fn ok(&self) -> (r: bool)
        ensures
            r == (self.status is Some && 200 <= self.status->0 < 300),
    {
        match self.status {
            Some(s) => 200 <= s && s < 300,
            None => false,
        }
    }
}

/// A reply as it is kept: whole, or as much as fits, with a mark that it was cut.
pub open spec fn kept(s: Seq<char>) -> Seq<char> {
    if byte_len(s) <= MAX_BODY {
        s
    } else {
        s.take(fitting(s, MAX_BODY as nat) as int) + "…(truncated)"@
    }
}

/// A reply as it is kept.
pub fn capped_body(s: String) -> (r: String)
    ensures
        r@ == kept(s@),
{
    match crate::scrub::cut_at(s.as_str(), MAX_BODY) {
        None => s,
        Some(n) => {
            let c = chars_of(s.as_str());
            let mut out = slice_of(c.as_slice(), 0, n);
            assert(out@ =~= s@.take(n as int));
            out.append("…(truncated)");
            out
        },
    }
}

/// What a reply comes to: its status with as much of its text as is kept, or why its text could not be
/// read; and without a reply, why there was none.
pub fn answer_of(reply: Result<(u16, Result<String, String>), String>) -> (r: Answer)
    ensures
        match reply {
            Err(e) => r.status is None && r.body == e,
            Ok((s, Ok(t))) => r.status == Some(s) && r.body@ == kept(t@),
            Ok((s, Err(e))) => r.status == Some(s) && r.body@ == "(unreadable response body: "@ + e@
                + ")"@,
        },
{
    match reply {
        Err(e) => Answer { status: None, body: e },
        Ok((s, Ok(t))) => Answer { status: Some(s), body: capped_body(t) },
        Ok((s, Err(e))) => {
            let mut m = "(unreadable response body: ".to_owned();
            m.append(e.as_str());
            m.append(")");
            Answer { status: Some(s), body: m }
        },
    }
}

/// A call landed exactly where a reply in the two hundreds came; a reply keeps its status, and its text up
/// to sixty-four kibibytes, cut between characters and marked where it is longer; and where no reply came,
/// why is kept.
pub proof fn an_answer_is_what_came_back(
    a: &Answer,
    ok: bool,
    reply: Result<(u16, Result<String, String>), String>,
    r: Answer,
    s: String,
    t: String,
)
    requires
        call_ensures(Answer::ok, (a,), ok),
        call_ensures(answer_of, (reply,), r),
        call_ensures(capped_body, (s,), t),
    ensures
        ok <==> a.status is Some && 200 <= a.status->0 <= 299,
        reply is Err ==> r.status is None && r.body@ == reply->Err_0@,
        reply matches Ok((n, Ok(x))) ==> r.status == Some(n) && (byte_len(x@) <= 65_536 ==> r.body@ == x@),
        reply matches Ok((n, Err(e))) ==> r.status == Some(n) && crate::text::has_within(r.body@, e@),
        byte_len(s@) <= 65_536 ==> t@ == s@,
        byte_len(s@) > 65_536 ==> exists|k: int|
            0 <= k <= s@.len() && t@ == #[trigger] s@.take(k) + "…(truncated)"@ && byte_len(s@.take(k))
                <= 65_536 && (k < s@.len() ==> byte_len(s@.take(k + 1)) > 65_536),
{
    if let Ok((n, Err(e))) = reply {
        crate::text::stands_between("(unreadable response body: "@, e@, ")"@);
    }
    if byte_len(s@) > 65_536 {
        crate::scrub::fitting_is_longest(s@, 65_536);
        let k = fitting(s@, 65_536) as int;
        assert(t@ == s@.take(k) + "…(truncated)"@);
    }
}

} // verus!
