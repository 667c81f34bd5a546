//! The two request guards and the chain composer.
//!
//! The consumer trust guard accepts a request exactly when the gateway has
//! asserted a consumer: the `x-consumer-username` header is present and the
//! `x-anonymous-consumer` marker is absent. Values are ignored on purpose —
//! presence alone decides, so an empty username still authenticates; that
//! follows the gateway contract and is a documented design risk, not fixed
//! here. The scope guard accepts exactly when the `x-authenticated-scope`
//! header is present and its comma-separated list contains the required
//! scope, compared without any trimming. A route's guards run in declared
//! order and the first refusal wins.

use vstd::prelude::*;

use crate::headers::first_value;
use crate::headers::has_name;
use crate::headers::lemma_has_name_first_value;
use crate::headers::Headers;
use crate::text::split_commas;
use crate::text::split_commas_exec;

verus! {

/// Why a guard refused a request.
#[derive(Clone, Copy, PartialEq, Eq, Structural, Debug)]
pub enum Reason {
    /// No gateway-asserted consumer: the username header is missing or the
    /// anonymous marker is present.
    NotAuthenticated,
    /// The scope header is missing altogether.
    NoScopeHeader,
    /// The scope header is present but does not grant the required scope.
    ScopeNotGranted,
}

/// What a guard decides about a request.
#[derive(Clone, Copy, PartialEq, Eq, Structural, Debug)]
pub enum Outcome {
    Authorized,
    Unauthorized(Reason),
}

/// The user-visible wording of each refusal.
pub open spec fn reason_message(r: Reason) -> Seq<char> {
    match r {
        Reason::NotAuthenticated => "user not authenticated"@,
        Reason::NoScopeHeader => "no scope header"@,
        Reason::ScopeNotGranted => "required scope not granted"@,
    }
}

impl Reason {
    /// The user-visible wording of this refusal.
    pub fn message(&self) -> (m: String)
        ensures
            m@ == reason_message(*self),
    {
        match self {
            Reason::NotAuthenticated => "user not authenticated".to_owned(),
            Reason::NoScopeHeader => "no scope header".to_owned(),
            Reason::ScopeNotGranted => "required scope not granted".to_owned(),
        }
    }
}

/// The header carrying the gateway-asserted consumer name.
pub open spec fn consumer_username_name() -> Seq<char> {
    "x-consumer-username"@
}

/// The marker header the gateway sets on anonymous consumers.
pub open spec fn anonymous_consumer_name() -> Seq<char> {
    "x-anonymous-consumer"@
}

/// The header carrying the gateway-asserted scope list.
pub open spec fn authenticated_scope_name() -> Seq<char> {
    "x-authenticated-scope"@
}

/// What the consumer trust guard decides on a header set: authorized exactly
/// when the consumer-username header is present and the anonymous-consumer
/// marker is absent, whatever either value holds.
pub open spec fn spec_consumer_trust(hs: Seq<(Seq<char>, Seq<char>)>) -> Outcome {
    if has_name(hs, consumer_username_name()) && !has_name(hs, anonymous_consumer_name()) {
        Outcome::Authorized
    } else {
        Outcome::Unauthorized(Reason::NotAuthenticated)
    }
}

/// Whether a comma-separated scope list grants `required`, byte for byte.
pub open spec fn scope_granted(value: Seq<char>, required: Seq<char>) -> bool {
    split_commas(value).contains(required)
}

/// What the scope authorization guard decides on a header set for a required
/// scope: refused for want of the scope header, refused when the list does
/// not grant the scope, authorized when it does.
pub open spec fn spec_scope_authorization(hs: Seq<(Seq<char>, Seq<char>)>, required: Seq<char>) -> Outcome {
    match first_value(hs, authenticated_scope_name()) {
        None => Outcome::Unauthorized(Reason::NoScopeHeader),
        Some(value) => if scope_granted(value, required) {
            Outcome::Authorized
        } else {
            Outcome::Unauthorized(Reason::ScopeNotGranted)
        },
    }
}

/// The consumer trust guard. Authorizes exactly when `x-consumer-username`
/// is present and `x-anonymous-consumer` is absent; header values play no
/// part. Pure in the headers: the outcome is a function of `h@` alone.
pub fn consumer_trust_guard(h: &Headers) -> (o: Outcome)
    ensures
        o == spec_consumer_trust(h@),
        o == Outcome::Authorized <==> has_name(h@, consumer_username_name()) && !has_name(
            h@,
            anonymous_consumer_name(),
        ),
        o != Outcome::Authorized ==> o == Outcome::Unauthorized(Reason::NotAuthenticated),
{
    if !h.contains_name("x-anonymous-consumer") && h.contains_name("x-consumer-username") {
        Outcome::Authorized
    } else {
        Outcome::Unauthorized(Reason::NotAuthenticated)
    }
}

/// Whether some element of `toks` equals `required`, byte for byte.
fn contains_string(toks: &Vec<String>, required: &String) -> (r: bool)
    ensures
        r == toks.deep_view().contains(required@),
{
    let n = toks.len();
    let mut k: usize = 0;
    while k < n
        invariant
            n == toks.len(),
            k <= n,
            forall|j: int| 0 <= j < k ==> toks.deep_view()[j] != required@,
        decreases n - k,
    {
        let t = &toks[k];
        proof {
            assert(toks.deep_view()[k as int] == toks@[k as int]@);
        }
        if t.eq(required) {
            return true;
        }
        k += 1;
    }
    proof {
        assert forall|j: int| 0 <= j < toks.deep_view().len() implies toks.deep_view()[j]
            != required@ by {}
    }
    false
}

/// The scope authorization guard. Authorizes exactly when the
/// `x-authenticated-scope` header is present and splitting its value on
/// commas yields the required scope as one element, compared byte for byte
/// with no trimming. Pure in the headers and the required scope.
pub fn scope_authorization_guard(h: &Headers, required: &String) -> (o: Outcome)
    ensures
        o == spec_scope_authorization(h@, required@),
        o == Outcome::Authorized <==> (first_value(h@, authenticated_scope_name()) matches Some(
            value,
        ) && scope_granted(value, required@)),
{
    match h.get_first("x-authenticated-scope") {
        None => Outcome::Unauthorized(Reason::NoScopeHeader),
        Some(value) => {
            let toks = split_commas_exec(value.as_str());
            if contains_string(&toks, required) {
                Outcome::Authorized
            } else {
                Outcome::Unauthorized(Reason::ScopeNotGranted)
            }
        },
    }
}

/// The scope guard authorizes exactly when the scope header is present and
/// its comma-separated value grants the required scope as one element;
/// otherwise it refuses, telling a missing header apart from a list that
/// does not grant the scope.
pub proof fn lemma_scope_guard_exact(hs: Seq<(Seq<char>, Seq<char>)>, required: Seq<char>)
    ensures
        spec_scope_authorization(hs, required) == Outcome::Authorized <==> (first_value(
            hs,
            authenticated_scope_name(),
        ) matches Some(value) && scope_granted(value, required)),
        !has_name(hs, authenticated_scope_name()) <==> spec_scope_authorization(hs, required)
            == Outcome::Unauthorized(Reason::NoScopeHeader),
        spec_scope_authorization(hs, required) == Outcome::Unauthorized(Reason::ScopeNotGranted)
            ==> has_name(hs, authenticated_scope_name()),
{
    lemma_has_name_first_value(hs, authenticated_scope_name());
}

/// One guard of a route's chain, with its static configuration.
pub enum Guard {
    /// The consumer trust guard.
    ConsumerTrust,
    /// The scope authorization guard, bound at route registration to the one
    /// scope the route requires.
    ScopeAuthorization { required_scope: String },
}

/// What a guard decides on a header set.
pub open spec fn spec_eval_guard(g: Guard, hs: Seq<(Seq<char>, Seq<char>)>) -> Outcome {
    match g {
        Guard::ConsumerTrust => spec_consumer_trust(hs),
        Guard::ScopeAuthorization { required_scope } => spec_scope_authorization(
            hs,
            required_scope@,
        ),
    }
}

impl Guard {
    /// Evaluates this guard against the headers of one request. The headers
    /// are only read, and the outcome is a function of `self` and `h@`
    /// alone, so two evaluations on one header set agree.
    pub fn evaluate(&self, h: &Headers) -> (o: Outcome)
        ensures
            o == spec_eval_guard(*self, h@),
    {
        match self {
            Guard::ConsumerTrust => consumer_trust_guard(h),
            Guard::ScopeAuthorization { required_scope } => scope_authorization_guard(
                h,
                required_scope,
            ),
        }
    }
}

/// What a chain of guards decides on a header set: the outcome of the first
/// guard that refuses, or authorized when none does. An empty chain
/// authorizes unconditionally.
pub open spec fn spec_eval_chain(gs: Seq<Guard>, hs: Seq<(Seq<char>, Seq<char>)>) -> Outcome
    decreases gs.len(),
{
    if gs.len() == 0 {
        Outcome::Authorized
    } else if spec_eval_guard(gs[0], hs) == Outcome::Authorized {
        spec_eval_chain(gs.drop_first(), hs)
    } else {
        spec_eval_guard(gs[0], hs)
    }
}

/// Evaluates a route's guards in declared order, stopping at the first
/// refusal.
pub fn evaluate_chain(guards: &Vec<Guard>, h: &Headers) -> (o: Outcome)
    ensures
        o == spec_eval_chain(guards@, h@),
{
    let n = guards.len();
    let mut k: usize = 0;
    proof {
        assert(guards@.skip(0) =~= guards@);
    }
    while k < n
        invariant
            n == guards@.len(),
            k <= n,
            spec_eval_chain(guards@, h@) == spec_eval_chain(guards@.skip(k as int), h@),
        decreases n - k,
    {
        let o = guards[k].evaluate(h);
        proof {
            assert(guards@.skip(k as int)[0] == guards@[k as int]);
            assert(guards@.skip(k as int).drop_first() =~= guards@.skip(k + 1));
        }
        if o != Outcome::Authorized {
            return o;
        }
        k += 1;
    }
    proof {
        assert(guards@.skip(n as int) =~= Seq::<Guard>::empty());
    }
    Outcome::Authorized
}

/// Guard evaluation is a pure function of the header set: on equal header
/// views a guard decides equally, so evaluating twice on one immutable
/// header set yields identical outcomes.
pub proof fn lemma_guard_pure(g: Guard, hs1: Seq<(Seq<char>, Seq<char>)>, hs2: Seq<(Seq<char>, Seq<char>)>)
    requires
        hs1 == hs2,
    ensures
        spec_eval_guard(g, hs1) == spec_eval_guard(g, hs2),
{
}

/// Short circuit: when any guard of the chain refuses, the chain refuses —
/// it never reaches the authorized outcome that would admit the handler.
pub proof fn lemma_chain_short_circuits(gs: Seq<Guard>, hs: Seq<(Seq<char>, Seq<char>)>, i: int)
    requires
        0 <= i < gs.len(),
        spec_eval_guard(gs[i], hs) != Outcome::Authorized,
    ensures
        spec_eval_chain(gs, hs) != Outcome::Authorized,
    decreases i,
{
    if spec_eval_guard(gs[0], hs) == Outcome::Authorized {
        assert(gs.drop_first()[i - 1] == gs[i]);
        lemma_chain_short_circuits(gs.drop_first(), hs, i - 1);
    }
}

/// The chain's refusal is the first failing guard's own outcome: the guards
/// before the first refusal change nothing, and the guards after it are
/// never consulted.
pub proof fn lemma_chain_first_refusal(gs: Seq<Guard>, hs: Seq<(Seq<char>, Seq<char>)>, i: int)
    requires
        0 <= i < gs.len(),
        forall|j: int| 0 <= j < i ==> spec_eval_guard(gs[j], hs) == Outcome::Authorized,
        spec_eval_guard(gs[i], hs) != Outcome::Authorized,
    ensures
        spec_eval_chain(gs, hs) == spec_eval_guard(gs[i], hs),
    decreases i,
{
    if i > 0 {
        assert(spec_eval_guard(gs[0], hs) == Outcome::Authorized);
        assert forall|j: int| 0 <= j < i - 1 implies spec_eval_guard(gs.drop_first()[j], hs)
            == Outcome::Authorized by {
            assert(gs.drop_first()[j] == gs[j + 1]);
        }
        assert(gs.drop_first()[i - 1] == gs[i]);
        lemma_chain_first_refusal(gs.drop_first(), hs, i - 1);
    }
}

/// When every guard of the chain authorizes, the chain authorizes, and the
/// handler is admitted.
pub proof fn lemma_chain_all_authorized(gs: Seq<Guard>, hs: Seq<(Seq<char>, Seq<char>)>)
    requires
        forall|j: int| 0 <= j < gs.len() ==> spec_eval_guard(gs[j], hs) == Outcome::Authorized,
    ensures
        spec_eval_chain(gs, hs) == Outcome::Authorized,
    decreases gs.len(),
{
    if gs.len() > 0 {
        assert forall|j: int| 0 <= j < gs.drop_first().len() implies spec_eval_guard(
            gs.drop_first()[j],
            hs,
        ) == Outcome::Authorized by {
            assert(gs.drop_first()[j] == gs[j + 1]);
        }
        lemma_chain_all_authorized(gs.drop_first(), hs);
    }
}

} // verus!
