//! Decisions of the WHIP/WHEP signaling exchange.
//!
//! The offer is POSTed to the signaling URL. Any response with a
//! redirection status and a `Location` header causes a repeat POST against
//! the new URL, up to a fixed redirect bound; a `201 Created` response is
//! accepted and its body read as the answer; any other terminal status is
//! a server error carrying the status code. The HTTP transport itself
//! lives outside the library; it performs one POST per decision and hands
//! each response's status and `Location` header back.

use vstd::prelude::*;

verus! {

/// The bound on followed redirects, so that a misbehaving server cannot
/// cause an endless chain of POSTs.
pub const MAX_REDIRECTS: u32 = 16;

/// What to do with one HTTP response of the signaling exchange.
pub enum SignalStep {
    /// Repeat the POST, same headers and body, against this URL.
    Repost(String),
    /// The server created the resource: read the body as the SDP answer.
    Accept,
    /// Give up, with the terminal status code.
    Reject(u16),
}

/// A redirection status: any 3xx response.
pub open spec fn is_redirection(status: u16) -> bool {
    300 <= status < 400
}

/// The status that the exchange requires of the final response.
pub open spec fn created() -> u16 {
    201
}

/// Tracks how many redirects one exchange has followed.
pub struct RedirectTracker {
    followed: u32,
}

impl RedirectTracker {
    /// How many redirects have been followed.
    pub closed spec fn followed(self) -> u32 {
        self.followed
    }

    /// A fresh exchange: no redirect followed yet.
    pub fn new() -> (r: RedirectTracker)
        ensures
            r.followed() == 0,
    {
        RedirectTracker { followed: 0 }
    }

    /// Decide what one response means: a redirection with a `Location`
    /// is followed while the bound allows, `201 Created` is accepted,
    /// and anything else is rejected with its status code. A redirection
    /// without a `Location`, or one past the bound, is rejected too.
    pub fn on_response(&mut self, status: u16, location: Option<String>) -> (r: SignalStep)
        ensures
            is_redirection(status) && location is Some && old(self).followed() < MAX_REDIRECTS
                ==> r == SignalStep::Repost(location->0) && final(self).followed() == old(
                self,
            ).followed() + 1,
            !(is_redirection(status) && location is Some && old(self).followed() < MAX_REDIRECTS)
                ==> final(self).followed() == old(self).followed(),
            !(is_redirection(status) && location is Some) && status == created() ==> r
                == SignalStep::Accept,
            !(is_redirection(status) && location is Some && old(self).followed() < MAX_REDIRECTS)
                && status != created() ==> r == SignalStep::Reject(status),
    {
        if 300 <= status && status < 400 {
            if let Some(url) = location {
                if self.followed < MAX_REDIRECTS {
                    self.followed = self.followed + 1;
                    return SignalStep::Repost(url);
                }
                return SignalStep::Reject(status);
            }
        }
        if status == 201 {
            SignalStep::Accept
        } else {
            SignalStep::Reject(status)
        }
    }
}

/// The character of one decimal digit.
pub open spec fn digit_char(d: int) -> char {
    if d == 0 {
        '0'
    } else if d == 1 {
        '1'
    } else if d == 2 {
        '2'
    } else if d == 3 {
        '3'
    } else if d == 4 {
        '4'
    } else if d == 5 {
        '5'
    } else if d == 6 {
        '6'
    } else if d == 7 {
        '7'
    } else if d == 8 {
        '8'
    } else {
        '9'
    }
}

/// The canonical decimal form of a number: no sign, no leading zero but
/// for the number zero itself.
pub open spec fn dec_digits(n: int) -> Seq<char>
    decreases n,
{
    if n < 10 {
        seq![digit_char(n)]
    } else {
        dec_digits(n / 10).push(digit_char(n % 10))
    }
}

/// Append one decimal digit to a string.
fn push_digit(s: &mut String, d: u8)
    requires
        d < 10,
    ensures
        final(s)@ == old(s)@.push(digit_char(d as int)),
{
    let piece: &str = if d == 0 {
        "0"
    } else if d == 1 {
        "1"
    } else if d == 2 {
        "2"
    } else if d == 3 {
        "3"
    } else if d == 4 {
        "4"
    } else if d == 5 {
        "5"
    } else if d == 6 {
        "6"
    } else if d == 7 {
        "7"
    } else if d == 8 {
        "8"
    } else {
        "9"
    };
    proof {
        reveal_strlit("0");
        reveal_strlit("1");
        reveal_strlit("2");
        reveal_strlit("3");
        reveal_strlit("4");
        reveal_strlit("5");
        reveal_strlit("6");
        reveal_strlit("7");
        reveal_strlit("8");
        reveal_strlit("9");
    }
    assert(piece@ =~= seq![digit_char(d as int)]);
    s.append(piece);
}

/// Append the decimal form of a number to a string.
fn append_decimal(s: &mut String, n: u16)
    ensures
        final(s)@ == old(s)@ + dec_digits(n as int),
    decreases n,
{
    if n < 10 {
        push_digit(s, n as u8);
        assert(old(s)@.push(digit_char(n as int)) =~= old(s)@ + dec_digits(n as int));
    } else {
        append_decimal(s, n / 10);
        push_digit(s, (n % 10) as u8);
        assert((old(s)@ + dec_digits(n as int / 10)).push(digit_char(n as int % 10)) =~= old(s)@
            + dec_digits(n as int));
    }
}

/// The error text for a terminal signaling status that is not `201
/// Created`: the status code in decimal after a fixed prefix.
pub fn reject_status_message(status: u16) -> (r: String)
    ensures
        r@ == "POST failed with status: "@ + dec_digits(status as int),
{
    let mut s = String::from_str("POST failed with status: ");
    append_decimal(&mut s, status);
    s
}

/// The headers of a WHIP/WHEP POST: the bearer authorization when a token
/// is given, then content type, accepted type and user agent.
pub fn whip_headers(token: Option<&str>) -> (r: Vec<(String, String)>)
    ensures
        token is None ==> r@.len() == 3,
        token is Some ==> r@.len() == 4 && r@[0].0@ == "Authorization"@ && r@[0].1@ == "Bearer "@
            + token->0@,
        r@[r@.len() - 3].0@ == "Content-Type"@ && r@[r@.len() - 3].1@ == "application/sdp"@,
        r@[r@.len() - 2].0@ == "Accept"@ && r@[r@.len() - 2].1@ == "application/sdp"@,
        r@[r@.len() - 1].0@ == "User-Agent"@ && r@[r@.len() - 1].1@ == "bitwhip"@,
{
    let mut out: Vec<(String, String)> = Vec::new();
    if let Some(tok) = token {
        let bearer = String::from_str("Bearer ").concat(tok);
        out.push((String::from_str("Authorization"), bearer));
    }
    out.push((String::from_str("Content-Type"), String::from_str("application/sdp")));
    out.push((String::from_str("Accept"), String::from_str("application/sdp")));
    out.push((String::from_str("User-Agent"), String::from_str("bitwhip")));
    out
}

} // verus!
