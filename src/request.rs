//! What one request is, what a completed call reports, and the transport that
//! performs the calls.
use crate::time::TimeSpan;
use vstd::prelude::*;

verus! {

/// The class of an HTTP status code.
#[derive(Clone, Copy, Debug, PartialEq, Eq, Structural, Hash)]
pub enum StatusCodeGroup {
    Information,
    Success,
    Redirect,
    ClientError,
    ServerError,
    Unknown,
}

/// The class of a status code: by its hundreds, from 1xx to 5xx.
pub open spec fn status_group(code: int) -> StatusCodeGroup {
    if 100 <= code < 200 {
        StatusCodeGroup::Information
    } else if 200 <= code < 300 {
        StatusCodeGroup::Success
    } else if 300 <= code < 400 {
        StatusCodeGroup::Redirect
    } else if 400 <= code < 500 {
        StatusCodeGroup::ClientError
    } else if 500 <= code < 600 {
        StatusCodeGroup::ServerError
    } else {
        StatusCodeGroup::Unknown
    }
}

impl StatusCodeGroup {
    /// The class of a status code.
    pub fn from_status_code(code: u16) -> (r: StatusCodeGroup)
        ensures
            r == status_group(code as int),
    {
        if code < 100 {
            StatusCodeGroup::Unknown
        } else if code < 200 {
            StatusCodeGroup::Information
        } else if code < 300 {
            StatusCodeGroup::Success
        } else if code < 400 {
            StatusCodeGroup::Redirect
        } else if code < 500 {
            StatusCodeGroup::ClientError
        } else if code < 600 {
            StatusCodeGroup::ServerError
        } else {
            StatusCodeGroup::Unknown
        }
    }
}

impl StatusCodeGroup {
    /// The name of the class, as shown to the operator.
    pub open spec fn label_spec(self) -> Seq<char> {
        match self {
            StatusCodeGroup::Information => "Information"@,
            StatusCodeGroup::Success => "Success"@,
            StatusCodeGroup::Redirect => "Redirect"@,
            StatusCodeGroup::ClientError => "Client Error"@,
            StatusCodeGroup::ServerError => "Server Error"@,
            StatusCodeGroup::Unknown => "Unkown Server Error reported"@,
        }
    }

    /// The name of the class, as shown to the operator.
    pub fn label(&self) -> (r: &'static str)
        ensures
            r@ == self.label_spec(),
    {
        match self {
            StatusCodeGroup::Information => "Information",
            StatusCodeGroup::Success => "Success",
            StatusCodeGroup::Redirect => "Redirect",
            StatusCodeGroup::ClientError => "Client Error",
            StatusCodeGroup::ServerError => "Server Error",
            StatusCodeGroup::Unknown => "Unkown Server Error reported",
        }
    }
}

/// A call that failed in the transport and produced no response.
#[derive(Clone, Copy, Debug, PartialEq, Eq, Structural, Hash)]
pub enum RequestError {
    RequestUnsuccesful,
}

/// The outcome of one completed call: the class of its status and how long the
/// call took.
#[derive(Clone, Copy, Debug, PartialEq, Eq, Structural, Hash)]
pub struct TimedResponse {
    pub status_code_group: StatusCodeGroup,
    pub response_time: TimeSpan,
}

/// The character of a decimal digit.
pub open spec fn digit_char(d: int) -> char {
    if d == 0 {
        '0'
    } else if d == 1 {
        '1'
    } else if d == 2 {
        '2'
    } else if d == 3 {
        '3'
    } else if d == 4 {
        '4'
    } else if d == 5 {
        '5'
    } else if d == 6 {
        '6'
    } else if d == 7 {
        '7'
    } else if d == 8 {
        '8'
    } else {
        '9'
    }
}

/// `n` written in decimal, without leading zeros.
pub open spec fn decimal(n: nat) -> Seq<char>
    decreases n,
{
    if n < 10 {
        seq![digit_char(n as int)]
    } else {
        decimal(n / 10).push(digit_char((n % 10) as int))
    }
}

/// `n` written in decimal with leading zeros up to `width` digits.
pub open spec fn zero_padded(n: nat, width: nat) -> Seq<char> {
    let digits = decimal(n);
    if digits.len() < width {
        Seq::new((width - digits.len()) as nat, |i: int| '0') + digits
    } else {
        digits
    }
}

/// The fraction `n / 10^width` without its trailing zeros: the digits that
/// are left, and how many.
pub open spec fn trimmed(n: nat, width: nat) -> (nat, nat)
    decreases width,
{
    if width > 0 && n > 0 && n % 10 == 0 {
        trimmed(n / 10, (width - 1) as nat)
    } else {
        (n, width)
    }
}

/// Nanoseconds written as milliseconds in decimal: the whole milliseconds, and
/// the fraction after a point only where it is not zero, without trailing zeros.
pub open spec fn millis_text(nanos: nat) -> Seq<char> {
    let whole = nanos / 1_000_000;
    let fraction = nanos % 1_000_000;
    if fraction == 0 {
        decimal(whole)
    } else {
        let (digits, width) = trimmed(fraction, 6);
        decimal(whole) + seq!['.'] + zero_padded(digits, width)
    }
}

/// The text of a decimal digit.
fn digit_text(d: u64) -> (r: &'static str)
    requires
        d < 10,
    ensures
        r@ == seq![digit_char(d as int)],
{
    proof {
        reveal_strlit("0");
        reveal_strlit("1");
        reveal_strlit("2");
        reveal_strlit("3");
        reveal_strlit("4");
        reveal_strlit("5");
        reveal_strlit("6");
        reveal_strlit("7");
        reveal_strlit("8");
        reveal_strlit("9");
    }
    if d == 0 {
        "0"
    } else if d == 1 {
        "1"
    } else if d == 2 {
        "2"
    } else if d == 3 {
        "3"
    } else if d == 4 {
        "4"
    } else if d == 5 {
        "5"
    } else if d == 6 {
        "6"
    } else if d == 7 {
        "7"
    } else if d == 8 {
        "8"
    } else {
        "9"
    }
}

/// Appends `n` in decimal to `text`.
fn append_decimal(text: &mut String, n: u64)
    ensures
        final(text)@ == old(text)@ + decimal(n as nat),
    decreases n,
{
    if n < 10 {
        text.append(digit_text(n));
    } else {
        append_decimal(text, n / 10);
        text.append(digit_text(n % 10));
        assert(decimal(n as nat) == decimal((n / 10) as nat).push(digit_char((n % 10) as int)));
    }
}

/// How many digits `n` has in decimal.
fn decimal_len(n: u64) -> (r: u64)
    ensures
        r == decimal(n as nat).len(),
        r >= 1,
        r <= n / 10 + 1,
    decreases n,
{
    if n < 10 {
        1
    } else {
        decimal_len(n / 10) + 1
    }
}

/// Nanoseconds written as milliseconds in decimal.
pub fn millis_string(nanos: u64) -> (r: String)
    ensures
        r@ == millis_text(nanos as nat),
{
    let whole = nanos / 1_000_000;
    let fraction = nanos % 1_000_000;
    let mut text = String::new();
    append_decimal(&mut text, whole);
    if fraction != 0 {
        let mut digits = fraction;
        let mut width: u64 = 6;
        while width > 0 && digits > 0 && digits % 10 == 0
            invariant
                width <= 6,
                digits <= fraction,
                trimmed(digits as nat, width as nat) == trimmed(fraction as nat, 6),
            decreases width,
        {
            digits = digits / 10;
            width = width - 1;
        }
        proof {
            reveal_strlit(".");
            reveal_strlit("0");
        }
        text.append(".");
        assert(text@ == decimal(whole as nat) + seq!['.']);
        let mut padding = String::new();
        append_decimal(&mut padding, digits);
        let digit_count = decimal_len(digits);
        let mut zeros: u64 = 0;
        let mut filled = String::new();
        while zeros < width && digit_count < width - zeros
            invariant
                filled@ == Seq::new(zeros as nat, |i: int| '0'),
                zeros <= width,
                width <= 6,
                padding@ == decimal(digits as nat),
                digit_count == padding@.len(),
                digit_count >= 1,
                zeros == 0 || zeros + digit_count <= width,
                digit_count >= width ==> zeros == 0,
                trimmed(digits as nat, width as nat) == trimmed(fraction as nat, 6),
                text@ == decimal(whole as nat) + seq!['.'],
            decreases width - zeros,
        {
            proof {
                reveal_strlit("0");
            }
            filled.append("0");
            assert(filled@ =~= Seq::new((zeros + 1) as nat, |i: int| '0'));
            zeros = zeros + 1;
        }
        text.append(filled.as_str());
        text.append(padding.as_str());
        proof {
            let (d, w) = trimmed(fraction as nat, 6);
            assert(d == digits && w == width);
            if digit_count < width {
                assert(zeros as int == width - digit_count);
            } else {
                assert(zeros == 0);
                assert(filled@ =~= Seq::<char>::empty());
            }
            assert(text@ =~= decimal(whole as nat) + seq!['.'] + zero_padded(digits as nat, width as nat));
        }
    }
    text
}

impl TimedResponse {
    /// The response as shown to the operator: its class, and its response time
    /// in milliseconds.
    pub fn describe(&self) -> (r: String)
        ensures
            r@ == "Status: '"@ + self.status_code_group.label_spec() + "'\n Response_time: '"@
                + millis_text(self.response_time.nanos_spec() as nat) + "'"@,
    {
        let mut text = String::from_str("Status: '");
        text.append(self.status_code_group.label());
        text.append("'\n Response_time: '");
        let millis = millis_string(self.response_time.as_nanos());
        text.append(millis.as_str());
        text.append("'");
        text
    }

    pub fn new(status_code_group: StatusCodeGroup, response_time: TimeSpan) -> (r: TimedResponse)
        ensures
            r.status_code_group == status_code_group,
            r.response_time == response_time,
    {
        TimedResponse { status_code_group, response_time }
    }
}

/// One request of a load test: a GET of an endpoint, or a POST of a JSON body
/// that was serialised beforehand.
#[derive(Clone, Copy, Debug, PartialEq, Eq)]
pub enum RequestDefinition<'a> {
    POST { endpoint: &'a str, body: &'a str },
    GET { endpoint: &'a str },
}

/// The transport that performs the calls of a load test. A call that fails in
/// the transport returns an error and no response.
pub trait HTTPClient {
    /// `r` is what this transport answers to a GET of `endpoint`. A transport
    /// that says nothing of its answers admits any.
    open spec fn answers_get(&self, endpoint: Seq<char>, r: Result<TimedResponse, RequestError>) -> bool {
        true
    }

    /// `r` is what this transport answers to a POST of `body` to `endpoint`.
    /// A transport that says nothing of its answers admits any.
    open spec fn answers_post(
        &self,
        endpoint: Seq<char>,
        body: Seq<char>,
        r: Result<TimedResponse, RequestError>,
    ) -> bool {
        true
    }

    fn get(&self, endpoint: &str) -> (r: Result<TimedResponse, RequestError>)
        ensures
            self.answers_get(endpoint@, r),
    ;

    fn post(&self, endpoint: &str, body: &str) -> (r: Result<TimedResponse, RequestError>)
        ensures
            self.answers_post(endpoint@, body@, r),
    ;
}

/// `r` is what `client` answers to `request`: a GET of its endpoint, or a
/// POST of its body to its endpoint.
pub open spec fn answered<C: HTTPClient>(
    client: C,
    request: RequestDefinition,
    r: Result<TimedResponse, RequestError>,
) -> bool {
    match request {
        RequestDefinition::GET { endpoint } => client.answers_get(endpoint@, r),
        RequestDefinition::POST { endpoint, body } => client.answers_post(endpoint@, body@, r),
    }
}

/// The URL of `endpoint` on `host`: the two joined by a slash.
pub fn endpoint_url(host: &str, endpoint: &str) -> (r: String)
    ensures
        r@ == host@ + seq!['/'] + endpoint@,
{
    let mut url = String::from_str(host);
    url.append("/");
    url.append(endpoint);
    proof {
        reveal_strlit("/");
    }
    url
}

} // verus!
