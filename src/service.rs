use vstd::prelude::*;
use vstd::string::*;

verus! {

/// A failure rate is held in parts per million: one million is a rate of one.
pub const PARTS_PER_MILLION: u32 = 1_000_000;

/// A request processor with a nominal failure rate, which it records and never acts on.
pub struct Service {
    failure_rate_ppm: u32,
}

/// The three ways of handling a request whose payload is absent.
#[derive(Clone, Copy, Debug, PartialEq, Eq, Structural)]
pub enum Policy {
    /// An absent payload is a fatal fault that ends the whole run.
    Unsafe,
    /// An absent payload becomes an error value, and the run goes on.
    Safe,
    /// An absent payload is replaced by a fallback, and the run goes on.
    Resilient,
}

/// What became of one request.
#[derive(Debug)]
pub enum Outcome {
    Processed(String),
    RecoveredError(String),
    FallbackUsed(String),
    FatalAbort,
}

/// An `Outcome` with its texts as character sequences.
pub enum OutcomeView {
    Processed(Seq<char>),
    RecoveredError(Seq<char>),
    FallbackUsed(Seq<char>),
    FatalAbort,
}

impl View for Outcome {
    type V = OutcomeView;

    open spec fn view(&self) -> OutcomeView {
        match self {
            Outcome::Processed(s) => OutcomeView::Processed(s@),
            Outcome::RecoveredError(s) => OutcomeView::RecoveredError(s@),
            Outcome::FallbackUsed(s) => OutcomeView::FallbackUsed(s@),
            Outcome::FatalAbort => OutcomeView::FatalAbort,
        }
    }
}

impl Outcome {
    /// Only a processed request counts toward availability.
    pub open spec fn spec_is_success(&self) -> bool {
        self is Processed
    }

    pub fn is_success(&self) -> (r: bool)
        ensures
            r == self.spec_is_success(),
    {
        match self {
            Outcome::Processed(_) => true,
            _ => false,
        }
    }

    pub fn is_fatal(&self) -> (r: bool)
        ensures
            r == (self is FatalAbort),
    {
        match self {
            Outcome::FatalAbort => true,
            _ => false,
        }
    }
}

pub open spec fn processed_prefix() -> Seq<char> {
    "Processed: "@
}

/// The response to a request with payload `p`.
pub open spec fn processed_text(p: Seq<char>) -> Seq<char> {
    processed_prefix() + p
}

pub open spec fn no_input_text() -> Seq<char> {
    "No input provided"@
}

pub open spec fn fallback_text() -> Seq<char> {
    "Fallback response"@
}

/// The outcome of handling a request with payload `input` (as characters) under `policy`.
pub open spec fn expected_outcome(policy: Policy, input: Option<Seq<char>>) -> OutcomeView {
    match input {
        Some(p) => OutcomeView::Processed(processed_text(p)),
        None => match policy {
            Policy::Unsafe => OutcomeView::FatalAbort,
            Policy::Safe => OutcomeView::RecoveredError(no_input_text()),
            Policy::Resilient => OutcomeView::FallbackUsed(fallback_text()),
        },
    }
}

/// A request's payload as characters.
pub open spec fn request_view(r: Option<String>) -> Option<Seq<char>> {
    match r {
        Some(s) => Some(s@),
        None => None,
    }
}

fn processed(data: &String) -> (r: String)
    ensures
        r@ == processed_text(data@),
{
    proof {
        reveal_strlit("Processed: ");
    }
    "Processed: ".to_owned().concat(data.as_str())
}

impl Service {
    pub closed spec fn spec_failure_rate_ppm(&self) -> nat {
        self.failure_rate_ppm as nat
    }

    pub open spec fn wf(&self) -> bool {
        self.spec_failure_rate_ppm() <= PARTS_PER_MILLION
    }

    pub fn new(failure_rate_ppm: u32) -> (r: Service)
        requires
            failure_rate_ppm <= PARTS_PER_MILLION,
        ensures
            r.wf(),
            r.spec_failure_rate_ppm() == failure_rate_ppm,
    {
        Service { failure_rate_ppm }
    }

    pub fn failure_rate_ppm(&self) -> (r: u32)
        ensures
            r == self.spec_failure_rate_ppm(),
    {
        self.failure_rate_ppm
    }

    /// Processes a request whose payload must be present.
    pub fn handle_request_unsafe(&self, input: Option<String>) -> (r: String)
        requires
            input is Some,
        ensures
            r@ == processed_text(input->0@),
    {
        let data = input.unwrap();
        processed(&data)
    }

    /// Processes a request, reporting an absent payload as an error.
    pub fn handle_request_safe(&self, input: Option<String>) -> (r: Result<String, String>)
        ensures
            input is Some <==> r is Ok,
            input is Some ==> r->Ok_0@ == processed_text(input->0@),
            input is None ==> r->Err_0@ == no_input_text(),
    {
        match input {
            Some(data) => Ok(processed(&data)),
            None => {
                proof {
                    reveal_strlit("No input provided");
                }
                Err("No input provided".to_owned())
            },
        }
    }

    /// Processes a request, answering an absent payload with a fallback response.
    pub fn handle_request_resilient(&self, input: Option<String>) -> (r: String)
        ensures
            input is Some ==> r@ == processed_text(input->0@),
            input is None ==> r@ == fallback_text(),
    {
        match input {
            Some(data) => processed(&data),
            None => {
                proof {
                    reveal_strlit("Fallback response");
                }
                "Fallback response".to_owned()
            },
        }
    }
}

impl Policy {
    /// Handles one request inside its own boundary: a fatal fault of the `Unsafe` policy is
    /// caught here and classified, never passed on.
    pub fn process(&self, service: &Service, input: Option<String>) -> (r: Outcome)
        ensures
            r@ == expected_outcome(*self, request_view(input)),
    {
        match self {
            Policy::Unsafe => if input.is_some() {
                Outcome::Processed(service.handle_request_unsafe(input))
            } else {
                Outcome::FatalAbort
            },
            Policy::Safe => match service.handle_request_safe(input) {
                Ok(s) => Outcome::Processed(s),
                Err(e) => Outcome::RecoveredError(e),
            },
            Policy::Resilient => {
                let present = input.is_some();
                let response = service.handle_request_resilient(input);
                if present {
                    Outcome::Processed(response)
                } else {
                    Outcome::FallbackUsed(response)
                }
            },
        }
    }
}

} // verus!
