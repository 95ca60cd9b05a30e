use vstd::prelude::*;

use crate::text::decimal_text;

verus! {

/// An HTTP response status code: a number in `100..=999`, the range that
/// `reqwest::StatusCode` admits.
#[derive(Clone, Copy, Debug)]
pub struct HttpStatus {
    code: u16,
}

impl View for HttpStatus {
    type V = u16;

    closed spec fn view(&self) -> u16 {
        self.code
    }
}

/// The reason phrase that `reqwest::StatusCode::canonical_reason` gives for
/// `code` (`Some("Not Found")` for 404), or `None` for a code without one.
pub uninterp spec fn canonical_reason(code: u16) -> Option<Seq<char>>;

/// What `StatusCode`'s `Display` writes after the number when there is no
/// canonical reason.
pub open spec fn unknown_reason() -> Seq<char> {
    "<unknown status code>"@
}

/// The reason, or the placeholder for a code without one.
pub open spec fn reason_or_unknown(reason: Option<Seq<char>>) -> Seq<char> {
    match reason {
        Some(r) => r,
        None => unknown_reason(),
    }
}

/// The text of a status code as `StatusCode`'s `Display` renders it:
/// the number, a space, and the reason (`404 Not Found`).
pub open spec fn status_text(code: u16) -> Seq<char> {
    decimal_text(code as nat) + seq![' '] + reason_or_unknown(canonical_reason(code))
}

/// Renders `code` through `reqwest::StatusCode`'s `Display`: `StatusCode::from_u16`
/// turns the number into a status code (it accepts every code in
/// `100..=999`), and `Display` writes the number, a space and
/// `canonical_reason()`, or `<unknown status code>` where that is `None`.
/// The canonical reason itself, a table of the registered codes, is left
/// unsaid: it is named `canonical_reason`.
#[verifier::external_body]
fn render_status_code(code: u16) -> (res: String)
    requires
        100 <= code <= 999,
    ensures
        res@ == decimal_text(code as nat) + seq![' '] + reason_or_unknown(canonical_reason(code)),
{
    match reqwest::StatusCode::from_u16(code) {
        Ok(status) => format!("{}", status),
        Err(_) => String::new(),
    }
}

impl HttpStatus {
    #[verifier::type_invariant]
    spec fn in_range(self) -> bool {
        100 <= self.code <= 999
    }

    /// The status with number `code`, or `None` where `code` lies outside
    /// `100..=999`, as `StatusCode::from_u16` decides.
    pub fn from_u16(code: u16) -> (res: Option<HttpStatus>)
        ensures
            res is Some <==> 100 <= code <= 999,
            res matches Some(s) ==> s@ == code,
    {
        if 100 <= code && code <= 999 {
            Some(HttpStatus { code })
        } else {
            None
        }
    }

    /// The number of this status.
    pub fn as_u16(&self) -> (code: u16)
        ensures
            code == self@,
            100 <= code <= 999,
    {
        proof {
            use_type_invariant(self);
        }
        self.code
    }

    /// Whether the status lies in `200..=299`, as `StatusCode::is_success` says.
    pub fn is_success(&self) -> (b: bool)
        ensures
            b == (200 <= self@ < 300),
    {
        200 <= self.code && self.code < 300
    }

    /// The status rendered as `StatusCode`'s `Display` renders it (`404 Not Found`).
    pub fn text(&self) -> (res: String)
        ensures
            res@ == status_text(self@),
    {
        render_status_code(self.as_u16())
    }
}

} // verus!
