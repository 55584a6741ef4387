//! The one error type of the library: a readable failure description, built
//! by a fixed set of constructors and carried up to the schedulers, which log
//! it. It is never inspected beyond its text. The spec functions beside the
//! type give the exact text of each kind of failure.

use vstd::prelude::*;

use crate::text::append_str;

verus! {

/// The text reported when an update is requested before initialization.
pub open spec fn uninitialized_chars() -> Seq<char> {
    "Updater \u{672a}\u{521d}\u{59cb}\u{5316}"@
}

/// The text reported when the configuration cannot be read.
pub open spec fn read_configuration_failure_chars(cause: Seq<char>) -> Seq<char> {
    "\u{914d}\u{7f6e}\u{6587}\u{4ef6}\u{8bfb}\u{53d6}\u{5931}\u{8d25}\u{ff1a}"@ + cause
}

/// The text reported when a request to Cloudflare fails at the transport
/// level.
pub open spec fn network_failure_chars(cause: Seq<char>) -> Seq<char> {
    "\u{8bbf}\u{95ee} Cloudflare \u{5931}\u{8d25}\u{ff0c}\u{8bf7}\u{786e}\u{8ba4}\u{7f51}\u{7edc}\u{8fde}\u{63a5}\u{6b63}\u{5e38}\u{ff0c}\u{9519}\u{8bef}\u{539f}\u{56e0}\u{ff1a}"@ + cause
}

/// The text reported when Cloudflare answers the record fetch with an
/// application-level failure.
pub open spec fn record_failure_chars(reason: Option<Seq<char>>) -> Seq<char> {
    match reason {
        Some(r) => "\u{83b7}\u{53d6} Cloudflare DNS \u{8bb0}\u{5f55}\u{8be6}\u{60c5}\u{5931}\u{8d25}\u{ff0c}\u{9519}\u{8bef}\u{539f}\u{56e0}\u{ff1a}"@ + r,
        None => "\u{83b7}\u{53d6} Cloudflare DNS \u{8bb0}\u{5f55}\u{8be6}\u{60c5}\u{5931}\u{8d25}\u{ff0c}\u{9519}\u{8bef}\u{539f}\u{56e0}\u{ff1a}\u{672a}\u{77e5}\u{539f}\u{56e0}"@,
    }
}

/// The text reported when Cloudflare answers the record update with an
/// application-level failure.
pub open spec fn update_failure_chars(reason: Option<Seq<char>>) -> Seq<char> {
    match reason {
        Some(r) => "\u{66f4}\u{65b0} Cloudflare DNS \u{8bb0}\u{5f55}\u{5931}\u{8d25}\u{3002}\u{9519}\u{8bef}\u{539f}\u{56e0}\u{ff1a}"@ + r,
        None => "\u{66f4}\u{65b0} Cloudflare DNS \u{8bb0}\u{5f55}\u{5931}\u{8d25}\u{3002}\u{9519}\u{8bef}\u{539f}\u{56e0}\u{ff1a}\u{672a}\u{77e5}\u{539f}\u{56e0}"@,
    }
}

/// The text reported when a Cloudflare response body cannot be decoded.
pub open spec fn deserialize_failure_chars(cause: Seq<char>) -> Seq<char> {
    "\u{89e3}\u{6790} Cloudflare \u{54cd}\u{5e94}\u{65f6}\u{51fa}\u{73b0}\u{9519}\u{8bef}\u{ff0c}\u{9519}\u{8bef}\u{539f}\u{56e0}\u{ff1a}"@ + cause
}

/// A readable failure description.
#[derive(Debug, Clone)]
pub struct Error {
    message: String,
}

impl View for Error {
    type V = Seq<char>;

    closed spec fn view(&self) -> Seq<char> {
        self.message@
    }
}

impl Error {
    /// Wraps a fixed reason.
    pub fn new_str(reason: &'static str) -> (e: Error)
        ensures
            e@ == reason@,
    {
        Error { message: reason.to_owned() }
    }

    /// Wraps an already built reason.
    pub fn new_string(reason: String) -> (e: Error)
        ensures
            e@ == reason@,
    {
        Error { message: reason }
    }

    /// The defensive guard: an update was requested before initialization.
    pub fn uninitialized() -> (e: Error)
        ensures
            e@ == uninitialized_chars(),
    {
        Error::new_str("Updater \u{672a}\u{521d}\u{59cb}\u{5316}")
    }

    /// The configuration file could not be read or understood.
    pub fn read_configuration_failure(cause: &str) -> (e: Error)
        ensures
            e@ == read_configuration_failure_chars(cause@),
    {
        let mut message = "\u{914d}\u{7f6e}\u{6587}\u{4ef6}\u{8bfb}\u{53d6}\u{5931}\u{8d25}\u{ff1a}".to_owned();
        append_str(&mut message, cause);
        Error { message }
    }

    /// A request to Cloudflare failed at the transport level.
    pub fn cloudflare_network_failure(cause: &str) -> (e: Error)
        ensures
            e@ == network_failure_chars(cause@),
    {
        let mut message = "\u{8bbf}\u{95ee} Cloudflare \u{5931}\u{8d25}\u{ff0c}\u{8bf7}\u{786e}\u{8ba4}\u{7f51}\u{7edc}\u{8fde}\u{63a5}\u{6b63}\u{5e38}\u{ff0c}\u{9519}\u{8bef}\u{539f}\u{56e0}\u{ff1a}"
            .to_owned();
        append_str(&mut message, cause);
        Error { message }
    }

    /// Cloudflare answered the record fetch with an application-level failure.
    pub fn cloudflare_record_failure(reason: Option<String>) -> (e: Error)
        ensures
            e@ == record_failure_chars(reason.deep_view()),
    {
        match reason {
            Some(r) => {
                let mut message = "\u{83b7}\u{53d6} Cloudflare DNS \u{8bb0}\u{5f55}\u{8be6}\u{60c5}\u{5931}\u{8d25}\u{ff0c}\u{9519}\u{8bef}\u{539f}\u{56e0}\u{ff1a}"
                    .to_owned();
                append_str(&mut message, r.as_str());
                Error { message }
            },
            None => Error::new_str(
                "\u{83b7}\u{53d6} Cloudflare DNS \u{8bb0}\u{5f55}\u{8be6}\u{60c5}\u{5931}\u{8d25}\u{ff0c}\u{9519}\u{8bef}\u{539f}\u{56e0}\u{ff1a}\u{672a}\u{77e5}\u{539f}\u{56e0}",
            ),
        }
    }

    /// Cloudflare answered the record update with an application-level
    /// failure.
    pub fn cloudflare_update_failure(reason: Option<String>) -> (e: Error)
        ensures
            e@ == update_failure_chars(reason.deep_view()),
    {
        match reason {
            Some(r) => {
                let mut message = "\u{66f4}\u{65b0} Cloudflare DNS \u{8bb0}\u{5f55}\u{5931}\u{8d25}\u{3002}\u{9519}\u{8bef}\u{539f}\u{56e0}\u{ff1a}".to_owned();
                append_str(&mut message, r.as_str());
                Error { message }
            },
            None => Error::new_str("\u{66f4}\u{65b0} Cloudflare DNS \u{8bb0}\u{5f55}\u{5931}\u{8d25}\u{3002}\u{9519}\u{8bef}\u{539f}\u{56e0}\u{ff1a}\u{672a}\u{77e5}\u{539f}\u{56e0}"),
        }
    }

    /// A Cloudflare response body could not be decoded.
    pub fn cloudflare_deserialized_failure(cause: &str) -> (e: Error)
        ensures
            e@ == deserialize_failure_chars(cause@),
    {
        let mut message = "\u{89e3}\u{6790} Cloudflare \u{54cd}\u{5e94}\u{65f6}\u{51fa}\u{73b0}\u{9519}\u{8bef}\u{ff0c}\u{9519}\u{8bef}\u{539f}\u{56e0}\u{ff1a}".to_owned();
        append_str(&mut message, cause);
        Error { message }
    }

    /// The carried text.
    pub fn message(&self) -> (m: &str)
        ensures
            m@ == self@,
    {
        self.message.as_str()
    }
}

} // verus!
