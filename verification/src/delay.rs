//! A path parameter with an upper bound: the number of seconds that a
//! request asks the server to wait.

use vstd::prelude::*;
use vstd::string::StringExecFns;
use crate::text::{decimal, parse_bounded, parse_unsigned, push_decimal};

verus! {

/// The most seconds that a request may ask for.
pub const MAX_SECONDS: u64 = 5;

/// A number of seconds, at most `MAX_SECONDS`.
#[derive(Debug, Clone, Copy, PartialEq, Eq, Structural)]
pub struct Seconds(pub u64);

/// What a text denotes as seconds: an unsigned decimal number of at most
/// `MAX_SECONDS`.
pub open spec fn seconds_of(src: Seq<char>) -> Option<u64> {
    match parse_unsigned(src, u64::MAX) {
        Some(n) => if n <= MAX_SECONDS {
            Some(n)
        } else {
            None
        },
        None => None,
    }
}

impl Seconds {
    /// Reads a number of seconds; a text that is no number, or a number
    /// over the maximum, is an error.
    pub fn from_str(src: &str) -> (r: Result<Seconds, ()>)
        ensures
            r == (match seconds_of(src@) {
                Some(n) => Ok::<Seconds, ()>(Seconds(n)),
                None => Err::<Seconds, ()>(()),
            }),
    {
        match parse_bounded(src, u64::MAX) {
            Some(num) => {
                if num <= MAX_SECONDS {
                    Ok(Seconds(num))
                } else {
                    Err(())
                }
            },
            None => Err(()),
        }
    }
}

/// Reading a number with a bound is reading it with any larger bound and
/// then testing the bound. So a path parameter of the kind
/// `Unsigned { max: MAX_SECONDS }` accepts exactly the texts that
/// `Seconds::from_str` accepts.
pub proof fn lemma_bound_narrows(src: Seq<char>, small: u64, large: u64)
    requires
        small <= large,
    ensures
        parse_unsigned(src, small) == (match parse_unsigned(src, large) {
            Some(n) => if n <= small {
                Some(n)
            } else {
                None
            },
            None => None,
        }),
        parse_unsigned(src, MAX_SECONDS) == seconds_of(src),
{
}

/// What the server says after it has waited.
pub open spec fn waited_line(seconds: nat) -> Seq<char> {
    "I waited "@ + decimal(seconds) + " seconds!"@
}

/// The reply of a request that the server has waited for.
pub fn waited(seconds: Seconds) -> (line: String)
    ensures
        line@ == waited_line(seconds.0 as nat),
{
    let mut line = "I waited ".to_owned();
    push_decimal(&mut line, seconds.0);
    line.append(" seconds!");
    line
}

} // verus!
