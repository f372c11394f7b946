//! Rejections: why a request did not match, how two of them combine, and the
//! error response that each one becomes.

use vstd::prelude::*;
use crate::text::same_text;

verus! {

/// Why a filter turned a request down.
#[derive(Debug)]
pub enum Rejection {
    /// No route matched.
    NotFound,
    /// The path may match, the method does not.
    MethodNotAllowed,
    /// A query string or a body that could not be read as asked.
    InvalidParameter { detail: String },
    /// The body is larger than the route accepts.
    PayloadTooLarge,
    /// A rejection of the application's own.
    Custom { tag: String, detail: String },
    /// Anything else.
    Unhandled,
}

/// The mathematical value of a [`Rejection`].
pub enum Cause {
    NotFound,
    MethodNotAllowed,
    InvalidParameter { detail: Seq<char> },
    PayloadTooLarge,
    Custom { tag: Seq<char>, detail: Seq<char> },
    Unhandled,
}

impl View for Rejection {
    type V = Cause;

    open spec fn view(&self) -> Cause {
        match self {
            Rejection::NotFound => Cause::NotFound,
            Rejection::MethodNotAllowed => Cause::MethodNotAllowed,
            Rejection::InvalidParameter { detail } => Cause::InvalidParameter { detail: detail@ },
            Rejection::PayloadTooLarge => Cause::PayloadTooLarge,
            Rejection::Custom { tag, detail } => Cause::Custom { tag: tag@, detail: detail@ },
            Rejection::Unhandled => Cause::Unhandled,
        }
    }
}

impl Clone for Rejection {
    fn clone(&self) -> (r: Rejection)
        ensures
            r@ == self@,
    {
        match self {
            Rejection::NotFound => Rejection::NotFound,
            Rejection::MethodNotAllowed => Rejection::MethodNotAllowed,
            Rejection::InvalidParameter { detail } => Rejection::InvalidParameter {
                detail: detail.clone(),
            },
            Rejection::PayloadTooLarge => Rejection::PayloadTooLarge,
            Rejection::Custom { tag, detail } => Rejection::Custom {
                tag: tag.clone(),
                detail: detail.clone(),
            },
            Rejection::Unhandled => Rejection::Unhandled,
        }
    }
}

impl Cause {
    /// The tag of the one custom rejection that recovery knows.
    pub open spec fn divide_by_zero_tag() -> Seq<char> {
        "DIVIDE_BY_ZERO"@
    }

    /// The HTTP status that recovery answers with.
    pub open spec fn status(self) -> u16 {
        match self {
            Cause::NotFound => 404,
            Cause::MethodNotAllowed => 405,
            Cause::InvalidParameter { .. } => 400,
            Cause::PayloadTooLarge => 413,
            Cause::Custom { tag, .. } => if tag == Self::divide_by_zero_tag() {
                400
            } else {
                500
            },
            Cause::Unhandled => 500,
        }
    }

    /// The message that recovery answers with.
    pub open spec fn message(self) -> Seq<char> {
        match self {
            Cause::NotFound => "NOT_FOUND"@,
            Cause::MethodNotAllowed => "METHOD_NOT_ALLOWED"@,
            Cause::InvalidParameter { detail } => detail,
            Cause::PayloadTooLarge => "PAYLOAD_TOO_LARGE"@,
            Cause::Custom { tag, .. } => if tag == Self::divide_by_zero_tag() {
                "DIVIDE_BY_ZERO"@
            } else {
                "UNHANDLED_REJECTION"@
            },
            Cause::Unhandled => "UNHANDLED_REJECTION"@,
        }
    }

    /// The more specific of the rejections of two alternatives, `self` from
    /// the one tried first and `later` from the one tried second.
    ///
    /// `NotFound` yields to anything, `MethodNotAllowed` to anything but
    /// `NotFound`. Between two others the higher status wins, and the later
    /// alternative on a tie.
    pub open spec fn prefer(self, later: Cause) -> Cause {
        if self is NotFound {
            later
        } else if later is NotFound {
            self
        } else if self is MethodNotAllowed {
            later
        } else if later is MethodNotAllowed {
            self
        } else if later.status() < self.status() {
            self
        } else {
            later
        }
    }
}

/// The body of an error response.
#[derive(Debug)]
pub struct ErrorMessage {
    pub code: u16,
    pub message: String,
}

/// The mathematical value of an [`ErrorMessage`].
pub struct ErrorMessageView {
    pub code: u16,
    pub message: Seq<char>,
}

impl View for ErrorMessage {
    type V = ErrorMessageView;

    open spec fn view(&self) -> ErrorMessageView {
        ErrorMessageView { code: self.code, message: self.message@ }
    }
}

impl Clone for ErrorMessage {
    fn clone(&self) -> (r: ErrorMessage)
        ensures
            r@ == self@,
    {
        ErrorMessage { code: self.code, message: self.message.clone() }
    }
}

/// What recovery makes of a rejection.
pub open spec fn recovered(cause: Cause) -> ErrorMessageView {
    ErrorMessageView { code: cause.status(), message: cause.message() }
}

impl Rejection {
    /// The rejection of a custom guard that found a zero divisor.
    pub fn divide_by_zero() -> (r: Rejection)
        ensures
            r@ == (Cause::Custom { tag: Cause::divide_by_zero_tag(), detail: Seq::<char>::empty() }),
    {
        Rejection::Custom { tag: "DIVIDE_BY_ZERO".to_owned(), detail: String::new() }
    }

    /// Whether this is the rejection of a request that no route matched.
    pub fn is_not_found(&self) -> (r: bool)
        ensures
            r == (self@ is NotFound),
    {
        match self {
            Rejection::NotFound => true,
            _ => false,
        }
    }

    /// The HTTP status that recovery answers this rejection with.
    pub fn status(&self) -> (r: u16)
        ensures
            r == self@.status(),
    {
        match self {
            Rejection::NotFound => 404,
            Rejection::MethodNotAllowed => 405,
            Rejection::InvalidParameter { .. } => 400,
            Rejection::PayloadTooLarge => 413,
            Rejection::Custom { tag, .. } => {
                if same_text(tag.as_str(), "DIVIDE_BY_ZERO") {
                    400
                } else {
                    500
                }
            },
            Rejection::Unhandled => 500,
        }
    }

    /// Keeps the more specific of two rejections: `self` of the alternative
    /// tried first, `later` of the one tried second.
    pub fn combine(self, later: Rejection) -> (r: Rejection)
        ensures
            r@ == self@.prefer(later@),
    {
        if self.is_not_found() {
            return later;
        }
        if later.is_not_found() {
            return self;
        }
        match self {
            Rejection::MethodNotAllowed => {
                return later;
            },
            _ => {},
        }
        match later {
            Rejection::MethodNotAllowed => {
                return self;
            },
            _ => {},
        }
        if later.status() < self.status() {
            self
        } else {
            later
        }
    }
}

/// Turns a rejection into the status code and message of its error response.
pub fn handle_rejection(err: &Rejection) -> (reply: ErrorMessage)
    ensures
        reply@ == recovered(err@),
{
    let code: u16;
    let message: String;
    match err {
        Rejection::NotFound => {
            code = 404;
            message = "NOT_FOUND".to_owned();
        },
        Rejection::MethodNotAllowed => {
            code = 405;
            message = "METHOD_NOT_ALLOWED".to_owned();
        },
        Rejection::InvalidParameter { detail } => {
            code = 400;
            message = detail.clone();
        },
        Rejection::PayloadTooLarge => {
            code = 413;
            message = "PAYLOAD_TOO_LARGE".to_owned();
        },
        Rejection::Custom { tag, .. } => {
            if same_text(tag.as_str(), "DIVIDE_BY_ZERO") {
                code = 400;
                message = "DIVIDE_BY_ZERO".to_owned();
            } else {
                code = 500;
                message = "UNHANDLED_REJECTION".to_owned();
            }
        },
        Rejection::Unhandled => {
            code = 500;
            message = "UNHANDLED_REJECTION".to_owned();
        },
    }
    ErrorMessage { code, message }
}

/// Recovery is total and has five outcomes: every rejection gets one status
/// and one message, and exactly the causes that recovery does not know get
/// status 500 with the message `UNHANDLED_REJECTION`.
pub proof fn lemma_recovery_total(cause: Cause)
    ensures
        recovered(cause).code == cause.status(),
        recovered(cause).message == cause.message(),
        cause.status() == 404 || cause.status() == 405 || cause.status() == 413
            || cause.status() == 400 || cause.status() == 500,
        cause.status() == 404 <==> cause is NotFound,
        cause.status() == 405 <==> cause is MethodNotAllowed,
        cause.status() == 413 <==> cause is PayloadTooLarge,
        cause.status() == 500 <==> (cause is Unhandled || (cause matches Cause::Custom { tag, .. }
            && tag != Cause::divide_by_zero_tag())),
        cause.status() == 500 ==> cause.message() == "UNHANDLED_REJECTION"@,
{
}

/// Any other cause outranks `NotFound`, on whichever side it stands, and
/// what two alternatives surface is always the cause of one of them.
pub proof fn lemma_prefer_specific(first: Cause, later: Cause)
    ensures
        first is NotFound ==> first.prefer(later) == later,
        later is NotFound ==> first.prefer(later) == first,
        first.prefer(later) == first || first.prefer(later) == later,
        first.prefer(later) is NotFound <==> (first is NotFound && later is NotFound),
{
}

/// Combining is associative: a chain of alternatives surfaces the same cause
/// however the chain is grouped.
pub proof fn lemma_prefer_associative(a: Cause, b: Cause, c: Cause)
    ensures
        a.prefer(b).prefer(c) == a.prefer(b.prefer(c)),
{
}

} // verus!
