//! The decisions of a search: what a worker does with each candidate, and the
//! state that the workers of one search share.
//!
//! The workers themselves, and whatever they use to share the state, are the
//! caller's. Each worker repeats [`worker_step`] with the flag it reads from
//! the shared [`SearchState`], and hands a delivered wallet to
//! [`SearchState::offer`]. When all workers have stopped,
//! [`SearchState::into_result`] gives the result of the search.

use crate::address::{
    checksum, checksummed, lemma_checksum_round_trip, lemma_checksummed_is_address, lowercase,
};
use crate::keys::{is_key_address, is_raw_address, lemma_raw_address_is_lowercase, Wallet};
use crate::pattern::{full_match, is_full_match};
use vstd::prelude::*;

verus! {

/// What a worker is to do after one step.
pub enum Step {
    /// A result has been found already: stop working.
    Stop,
    /// The candidate did not match: try another.
    Continue,
    /// The candidate matches: deliver it, with its address in checksummed form.
    Deliver(Wallet),
}

/// `wallet` is what a search for `pattern` looks for: a private key and the
/// checksummed address that belongs to it, the address beginning with the
/// pattern.
pub open spec fn is_winner(wallet: Wallet, pattern: Seq<char>) -> bool {
    &&& wallet.well_formed()
    &&& is_key_address(wallet.private_key@, lowercase(wallet.public_key@))
    &&& checksummed(wallet.public_key@) == wallet.public_key@
    &&& full_match(wallet.public_key@, pattern)
}

/// `candidate` is what a worker draws: a private key with the raw address
/// that belongs to it.
pub open spec fn is_candidate(candidate: Wallet) -> bool {
    &&& candidate.well_formed()
    &&& is_raw_address(candidate.public_key@)
    &&& is_key_address(candidate.private_key@, candidate.public_key@)
}

/// `step` is the judgement on `candidate` in a search for `pattern`: the
/// candidate is delivered, with its address in checksummed form, if that form
/// begins with the pattern, and passed over if not. A judgement never stops
/// the worker.
pub open spec fn judged(candidate: Wallet, pattern: Seq<char>, step: Step) -> bool {
    match step {
        Step::Deliver(wallet) => {
            &&& full_match(checksummed(candidate.public_key@), pattern)
            &&& wallet.private_key@ == candidate.private_key@
            &&& wallet.public_key@ == checksummed(candidate.public_key@)
        },
        Step::Continue => !full_match(checksummed(candidate.public_key@), pattern),
        Step::Stop => false,
    }
}

/// A drawn candidate that is delivered is what the search looks for.
pub proof fn lemma_delivered_candidate_wins(candidate: Wallet, pattern: Seq<char>, step: Step)
    requires
        is_candidate(candidate),
        judged(candidate, pattern, step),
    ensures
        step matches Step::Deliver(wallet) ==> is_winner(wallet, pattern),
{
    lemma_raw_address_is_lowercase(candidate.public_key@);
    lemma_checksum_round_trip(candidate.public_key@);
    lemma_checksummed_is_address(candidate.public_key@);
}

/// Decides on one candidate: it is delivered, with its address in checksummed
/// form, if that form begins with the pattern, and passed over if not.
pub fn judge(candidate: Wallet, pattern: &str) -> (step: Step)
    requires
        candidate.well_formed(),
    ensures
        judged(candidate, pattern@, step),
{
    let address = checksum(candidate.public_key.as_str());
    if is_full_match(address.as_str(), pattern) {
        Step::Deliver(Wallet { private_key: candidate.private_key, public_key: address })
    } else {
        Step::Continue
    }
}

/// One step of a worker. With the flag set it stops. Otherwise it draws a
/// fresh key pair and judges it: whichever key pair is drawn, the step is the
/// judgement on it, so a match is delivered and anything else is passed over.
/// What is delivered is what the search looks for.
pub fn worker_step(found: bool, pattern: &str) -> (step: Step)
    ensures
        found <==> step is Stop,
        !found ==> exists|candidate: Wallet|
            is_candidate(candidate) && #[trigger] judged(candidate, pattern@, step),
        step matches Step::Deliver(wallet) ==> is_winner(wallet, pattern@),
{
    if found {
        return Step::Stop;
    }
    let candidate = Wallet::new();
    let ghost drawn = candidate;
    let step = judge(candidate, pattern);
    proof {
        assert(is_candidate(drawn) && judged(drawn, pattern@, step));
        lemma_delivered_candidate_wins(drawn, pattern@, step);
    }
    step
}

/// What the workers of one search share: the flag that tells them to stop, and
/// the one place for the result.
pub struct SearchState {
    found: bool,
    winner: Option<Wallet>,
}

impl SearchState {
    #[verifier::type_invariant]
    spec fn consistent(self) -> bool {
        self.found <==> self.winner is Some
    }

    /// Whether a result has been delivered.
    pub closed spec fn found(self) -> bool {
        self.found
    }

    /// The result, once one has been delivered.
    pub closed spec fn winner(self) -> Option<Wallet> {
        self.winner
    }

    /// The state at the start of a search: nothing found.
    pub fn new() -> (state: SearchState)
        ensures
            !state.found(),
            state.winner() is None,
    {
        SearchState { found: false, winner: None }
    }

    /// Reads the flag. It is set exactly when a result is held.
    pub fn is_found(&self) -> (found: bool)
        ensures
            found == self.found(),
            found == (self.winner() is Some),
    {
        proof {
            use_type_invariant(self);
        }
        self.found
    }

    /// Offers a result. The first offer is taken and sets the flag; every later
    /// one is turned down and changes nothing, so that a search has one result.
    pub fn offer(&mut self, wallet: Wallet) -> (accepted: bool)
        ensures
            accepted == !old(self).found(),
            final(self).found(),
            final(self).winner() == if old(self).found() {
                old(self).winner()
            } else {
                Some(wallet)
            },
    {
        proof {
            use_type_invariant(&*self);
        }
        if self.found {
            false
        } else {
            *self = SearchState { found: true, winner: Some(wallet) };
            true
        }
    }

    /// Ends the search: the address and the private key of the result, in this
    /// order, or nothing if no result was delivered.
    pub fn into_result(self) -> (result: Option<(String, String)>)
        ensures
            result == match self.winner() {
                Some(wallet) => Some((wallet.public_key, wallet.private_key)),
                None => None,
            },
    {
        match self.winner {
            Some(wallet) => Some((wallet.public_key, wallet.private_key)),
            None => None,
        }
    }
}

} // verus!
