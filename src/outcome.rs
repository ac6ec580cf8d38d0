use vstd::prelude::*;

verus! {

/// Why one fetch attempt on one target failed.
#[derive(Clone, Debug, PartialEq, Eq)]
pub enum ErrorKind {
    /// The proxy or the origin could not be reached.
    ProxyConnect,
    /// The request did not complete within the client's timeout.
    Timeout,
    /// The origin answered with a status of 400 or above.
    HttpStatus { code: u16 },
    /// The page was fetched but a field that extraction needs is absent.
    Extraction { missing_field: String },
    /// The target is not a URL that a request can be made for.
    MalformedUrl,
}

/// What one HTTP attempt handed back, before it is classified.
#[derive(Clone, Debug, PartialEq, Eq)]
pub enum HttpReply {
    /// A response arrived, whatever its status.
    Received { status: u16, body: String },
    /// Connecting to the proxy or through it failed.
    ProxyFailed,
    /// The attempt ran out of time.
    TimedOut,
    /// The URL could not be turned into a request.
    BadUrl,
}

/// The classified result of one fetch attempt, with its duration in milliseconds.
#[derive(Clone, Debug, PartialEq, Eq)]
pub enum FetchOutcome {
    Success { body: String, elapsed_ms: u64 },
    Failure { error: ErrorKind, elapsed_ms: u64 },
}

/// The smallest status that counts as a failure.
pub const FIRST_ERROR_STATUS: u16 = 400;

pub open spec fn is_success(o: FetchOutcome) -> bool {
    o is Success
}

pub open spec fn elapsed_of(o: FetchOutcome) -> u64 {
    match o {
        FetchOutcome::Success { elapsed_ms, .. } => elapsed_ms,
        FetchOutcome::Failure { elapsed_ms, .. } => elapsed_ms,
    }
}

/// The outcome that a reply stands for.
pub open spec fn classified(reply: HttpReply, elapsed_ms: u64) -> FetchOutcome {
    match reply {
        HttpReply::Received { status, body } => if status < FIRST_ERROR_STATUS {
            FetchOutcome::Success { body, elapsed_ms }
        } else {
            FetchOutcome::Failure { error: ErrorKind::HttpStatus { code: status }, elapsed_ms }
        },
        HttpReply::ProxyFailed => FetchOutcome::Failure { error: ErrorKind::ProxyConnect, elapsed_ms },
        HttpReply::TimedOut => FetchOutcome::Failure { error: ErrorKind::Timeout, elapsed_ms },
        HttpReply::BadUrl => FetchOutcome::Failure { error: ErrorKind::MalformedUrl, elapsed_ms },
    }
}

impl ErrorKind {
    /// A copy of this error, field for field.
    pub fn duplicate(&self) -> (r: ErrorKind)
        ensures
            r == *self,
    {
        match self {
            ErrorKind::ProxyConnect => ErrorKind::ProxyConnect,
            ErrorKind::Timeout => ErrorKind::Timeout,
            ErrorKind::HttpStatus { code } => ErrorKind::HttpStatus { code: *code },
            ErrorKind::Extraction { missing_field } => ErrorKind::Extraction { missing_field: missing_field.clone() },
            ErrorKind::MalformedUrl => ErrorKind::MalformedUrl,
        }
    }
}

impl FetchOutcome {
    pub fn is_success(&self) -> (r: bool)
        ensures
            r == is_success(*self),
    {
        match self {
            FetchOutcome::Success { .. } => true,
            FetchOutcome::Failure { .. } => false,
        }
    }

    pub fn elapsed_ms(&self) -> (r: u64)
        ensures
            r == elapsed_of(*self),
    {
        match self {
            FetchOutcome::Success { elapsed_ms, .. } => *elapsed_ms,
            FetchOutcome::Failure { elapsed_ms, .. } => *elapsed_ms,
        }
    }
}

/// Turns one attempt's reply into its outcome: a status of 400 or above is a
/// failure even though a body arrived.
pub fn classify(reply: HttpReply, elapsed_ms: u64) -> (r: FetchOutcome)
    ensures
        r == classified(reply, elapsed_ms),
{
    match reply {
        HttpReply::Received { status, body } => {
            if status < FIRST_ERROR_STATUS {
                FetchOutcome::Success { body, elapsed_ms }
            } else {
                FetchOutcome::Failure { error: ErrorKind::HttpStatus { code: status }, elapsed_ms }
            }
        },
        HttpReply::ProxyFailed => FetchOutcome::Failure { error: ErrorKind::ProxyConnect, elapsed_ms },
        HttpReply::TimedOut => FetchOutcome::Failure { error: ErrorKind::Timeout, elapsed_ms },
        HttpReply::BadUrl => FetchOutcome::Failure { error: ErrorKind::MalformedUrl, elapsed_ms },
    }
}

} // verus!
