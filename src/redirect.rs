//! Following redirects: the decision taken on each response of a request.
use vstd::prelude::*;

verus! {

/// Most redirects followed for one request.
pub const MAX_REDIRECTS: u64 = 5;

/// Status class 3xx.
pub open spec fn is_redirection(code: u16) -> bool {
    300 <= code <= 399
}

/// Status class 2xx.
pub open spec fn is_success(code: u16) -> bool {
    200 <= code <= 299
}

/// Whether `code` is a redirection status (3xx).
pub fn status_is_redirection(code: u16) -> (r: bool)
    ensures
        r == is_redirection(code),
{
    300 <= code && code <= 399
}

/// Whether `code` is a success status (2xx).
pub fn status_is_success(code: u16) -> (r: bool)
    ensures
        r == is_success(code),
{
    200 <= code && code <= 299
}

/// What to do after a response arrived.
#[derive(Clone, Copy, Debug, PartialEq, Eq, Structural)]
pub enum Step {
    /// Send the request again to the new location.
    Follow,
    /// The response is final and successful: handle its body.
    Finish,
    /// A redirect arrived when the bound was already reached.
    TooManyRedirects,
    /// The response is final and not a success.
    Rejected(u16),
}

/// The decision on a response with status `code`, after `redirects` redirects
/// were followed; `has_location` tells whether it carried a `Location` header.
pub open spec fn step_spec(redirects: nat, code: u16, has_location: bool) -> Step {
    if is_redirection(code) && has_location {
        if redirects >= MAX_REDIRECTS {
            Step::TooManyRedirects
        } else {
            Step::Follow
        }
    } else if is_success(code) {
        Step::Finish
    } else {
        Step::Rejected(code)
    }
}

/// The redirect state of one request: the URL to send to next and how many
/// redirects were followed so far.
pub struct Session {
    pub current_url: String,
    pub redirects: u64,
}

impl Session {
    /// The state before the first request is sent.
    pub fn new(url: &str) -> (s: Session)
        ensures
            s.current_url@ == url@,
            s.redirects == 0,
    {
        Session { current_url: url.to_string(), redirects: 0 }
    }

    pub open spec fn wf(&self) -> bool {
        self.redirects <= MAX_REDIRECTS
    }

    /// Decides on a response: a redirect with a location moves the session to
    /// that location, while fewer than the bound were followed; nothing else
    /// changes the session.
    pub fn on_response(&mut self, status: u16, location: Option<String>) -> (step: Step)
        requires
            old(self).wf(),
        ensures
            final(self).wf(),
            step == step_spec(old(self).redirects as nat, status, location.is_some()),
            step == Step::Follow ==> {
                &&& final(self).redirects == old(self).redirects + 1
                &&& location.is_some()
                &&& final(self).current_url@ == location.unwrap()@
            },
            step != Step::Follow ==> *final(self) == *old(self),
    {
        if status_is_redirection(status) {
            match location {
                Some(loc) => {
                    if self.redirects >= MAX_REDIRECTS {
                        return Step::TooManyRedirects;
                    }
                    self.current_url = loc;
                    self.redirects = self.redirects + 1;
                    return Step::Follow;
                },
                None => {},
            }
        }
        if status_is_success(status) {
            Step::Finish
        } else {
            Step::Rejected(status)
        }
    }
}

/// The decision that ends a chain of responses, each given as its status and
/// whether it carried a location, starting after `redirects` redirects; a chain
/// that runs out while still following ends in `Follow`.
pub open spec fn chain_outcome(redirects: nat, chain: Seq<(u16, bool)>) -> Step
    decreases chain.len(),
{
    if chain.len() == 0 {
        Step::Follow
    } else {
        let s = step_spec(redirects, chain[0].0, chain[0].1);
        if s == Step::Follow {
            chain_outcome(redirects + 1, chain.drop_first())
        } else {
            s
        }
    }
}

/// Whether `chain` is `n` redirects with a location followed by one success.
pub open spec fn is_redirect_chain(chain: Seq<(u16, bool)>, n: nat) -> bool {
    &&& chain.len() == n + 1
    &&& forall|i: int| 0 <= i < n ==> is_redirection(#[trigger] chain[i].0) && chain[i].1
    &&& is_success(chain[n as int].0)
}

proof fn lemma_chain_from(redirects: nat, chain: Seq<(u16, bool)>, n: nat)
    requires
        redirects <= MAX_REDIRECTS,
        is_redirect_chain(chain, n),
    ensures
        redirects + n <= MAX_REDIRECTS ==> chain_outcome(redirects, chain) == Step::Finish,
        redirects + n > MAX_REDIRECTS ==> chain_outcome(redirects, chain) == Step::TooManyRedirects,
    decreases n,
{
    if n > 0 {
        assert(is_redirection(chain[0].0) && chain[0].1);
        if redirects < MAX_REDIRECTS {
            let rest = chain.drop_first();
            assert forall|i: int| 0 <= i < n - 1 implies is_redirection(#[trigger] rest[i].0) && rest[i].1 by {
                assert(rest[i] == chain[i + 1]);
            }
            assert(rest[(n - 1) as int] == chain[n as int]);
            lemma_chain_from(redirects + 1, rest, (n - 1) as nat);
        }
    }
}

/// A request answered by at most `MAX_REDIRECTS` redirects and then a success
/// ends with that success; one answered by more redirects fails with
/// `TooManyRedirects` before any body is handled.
pub proof fn lemma_redirect_bound(chain: Seq<(u16, bool)>, n: nat)
    requires
        is_redirect_chain(chain, n),
    ensures
        n <= MAX_REDIRECTS ==> chain_outcome(0, chain) == Step::Finish,
        n > MAX_REDIRECTS ==> chain_outcome(0, chain) == Step::TooManyRedirects,
{
    lemma_chain_from(0, chain, n);
}

} // verus!
