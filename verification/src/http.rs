//! HTTP answers and the headers that every answer of the server carries.
use vstd::prelude::*;

verus! {

/// How `reqwest` (through its status type) writes a status code for people: the code and its
/// standard phrase.
pub uninterp spec fn status_phrase(code: u16) -> Seq<char>;

/// Calls `reqwest::StatusCode::from_u16` and writes the status with its `Display`.
///
/// Claims that the text depends on the code alone.
#[verifier::external_body]
fn reqwest_status_text(code: u16) -> (text: String)
    requires
        100 <= code <= 999,
    ensures
        text@ == status_phrase(code),
{
    reqwest::StatusCode::from_u16(code).unwrap().to_string()
}

/// The status of an HTTP answer.
#[derive(Clone, Copy, Debug)]
pub struct HttpStatus {
    code: u16,
}

impl HttpStatus {
    #[verifier::type_invariant]
    spec fn well_formed(self) -> bool {
        100 <= self.code <= 999
    }

    /// The three digit code.
    pub closed spec fn spec_code(self) -> u16 {
        self.code
    }

    /// A code from 200 to 299.
    pub open spec fn success(self) -> bool {
        200 <= self.spec_code() <= 299
    }

    /// The status with the given code, which has three digits.
    pub fn new(code: u16) -> (res: Option<HttpStatus>)
        ensures
            res is Some <==> 100 <= code <= 999,
            res matches Some(s) ==> s.spec_code() == code,
    {
        if code >= 100 && code <= 999 {
            Some(HttpStatus { code })
        } else {
            None
        }
    }

    /// Tells whether the request was served.
    pub fn is_success(self) -> (res: bool)
        ensures
            res == self.success(),
    {
        self.code >= 200 && self.code <= 299
    }

    /// The code and its standard phrase.
    pub fn text(self) -> (res: String)
        ensures
            res@ == status_phrase(self.spec_code()),
    {
        proof {
            use_type_invariant(&self);
        }
        reqwest_status_text(self.code)
    }
}

/// The headers that every answer of the server carries, as name and value: browsers do not
/// guess content types, do not show the pages in frames, and load scripts, styles and fonts
/// from the named hosts only.
pub fn security_headers() -> (res: Vec<(&'static str, &'static str)>)
    ensures
        res@.len() == 3,
        res@[0].0@ == "x-content-type-options"@,
        res@[0].1@ == "nosniff"@,
        res@[1].0@ == "x-frame-options"@,
        res@[1].1@ == "DENY"@,
        res@[2].0@ == "content-security-policy"@,
        res@[2].1@
            == "default-src 'self'; script-src 'self' 'unsafe-inline' https://cdn.tailwindcss.com; style-src 'self' 'unsafe-inline' https://cdnjs.cloudflare.com; font-src https://cdnjs.cloudflare.com; img-src 'self' data:; connect-src 'self'"@,
{
    let mut headers: Vec<(&'static str, &'static str)> = Vec::new();
    headers.push(("x-content-type-options", "nosniff"));
    headers.push(("x-frame-options", "DENY"));
    headers.push(
        (
            "content-security-policy",
            "default-src 'self'; script-src 'self' 'unsafe-inline' https://cdn.tailwindcss.com; style-src 'self' 'unsafe-inline' https://cdnjs.cloudflare.com; font-src https://cdnjs.cloudflare.com; img-src 'self' data:; connect-src 'self'",
        ),
    );
    headers
}

/// A request was served exactly when the code has a two in front.
pub proof fn law_success(status: HttpStatus)
    ensures
        status.success() <==> status.spec_code() / 100 == 2,
{
}

} // verus!
