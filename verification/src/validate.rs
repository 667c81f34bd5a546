//! The validation handler and the guard chain around it.
//!
//! Syntax decomposition itself is delegated to an outside library whose
//! verdict can depend on process-wide state, so its result is not named:
//! only what holds of every outcome is assumed, and everything after the
//! call — reporting the parts, composing the guards, refusing with 401 — is
//! verified against that. The handler runs only when every guard of the
//! route authorized.

use vstd::prelude::*;

use crate::guards::evaluate_chain;
use crate::guards::reason_message;
use crate::guards::spec_eval_chain;
use crate::guards::Guard;
use crate::guards::Outcome;
use crate::headers::Headers;
use crate::schemas::spec_verified_email;
use crate::schemas::Email;
use crate::schemas::Syntax;
use crate::schemas::VerifiedEmail;

verus! {

/// What every syntax decomposition satisfies, whatever the outside library
/// decided: a parsed address is there exactly when the verdict is positive,
/// and a negative verdict comes with empty domain and username parts.
pub open spec fn syntax_wf(s: Syntax) -> bool {
    &&& s.address is Some <==> s.is_valid_syntax
    &&& !s.is_valid_syntax ==> s.domain@.len() == 0 && s.username@.len() == 0
}

/// Relies on `check_if_email_exists::syntax::check_syntax`: on every return
/// path of its source, an ill-formed address yields no parsed address, an
/// empty domain and username, and a negative verdict, while a well-formed
/// one yields the parsed address and a positive verdict. Which verdict comes
/// back is not assumed: it can turn on process-wide state of the library's
/// domain blocklist.
#[verifier::external_body]
fn check_syntax_raw(address: &str) -> (r: Syntax)
    ensures
        syntax_wf(r),
{
    let details = check_if_email_exists::syntax::check_syntax(address);
    Syntax {
        address: details.address.map(|a| a.to_string()),
        domain: details.domain,
        is_valid_syntax: details.is_valid_syntax,
        username: details.username,
    }
}

/// Whether `r` reports some well-formed syntax decomposition, exactly as
/// `VerifiedEmail::from` reports it.
pub open spec fn spec_validated_report(r: VerifiedEmail) -> bool {
    exists|s: Syntax|
        #![auto]
        syntax_wf(s) && spec_verified_email(
            s.address.deep_view(),
            s.domain@,
            s.is_valid_syntax,
            s.username@,
            r,
        )
}

/// The validation handler: decomposes the address of `e` and reports the
/// parts. The report is `VerifiedEmail::from` of a decomposition the outside
/// library returned; in particular an address found ill-formed is reported
/// as invalid, with empty parts and a fixed placeholder address.
pub fn validate_address(e: &Email) -> (r: VerifiedEmail)
    ensures
        spec_validated_report(r),
        !r.is_valid_syntax ==> r.domain@.len() == 0 && r.username@.len() == 0 && r.address@
            == "invalid address"@,
{
    let syntax = check_syntax_raw(e.address.as_str());
    let r = VerifiedEmail::from(syntax);
    proof {
        assert(syntax_wf(syntax) && spec_verified_email(
            syntax.address.deep_view(),
            syntax.domain@,
            syntax.is_valid_syntax,
            syntax.username@,
            r,
        ));
    }
    r
}

/// What a guarded route answers: the handler's report, or a refusal that
/// carries the HTTP status and the failing guard's reason.
pub enum GateResponse {
    /// Every guard authorized and the handler ran.
    Handled(VerifiedEmail),
    /// Some guard refused; the handler never ran.
    Denied { status: u16, reason: String },
}

/// Runs one route: evaluates `guards` in declared order against the headers,
/// and on the first refusal answers 401 with that guard's reason, without
/// consulting later guards or the handler. Only when every guard authorizes
/// — in particular always on an empty chain — the handler is invoked, once,
/// on the unmodified request body.
pub fn handle_validation_request(guards: &Vec<Guard>, h: &Headers, body: &Email) -> (resp:
    GateResponse)
    ensures
        match spec_eval_chain(guards@, h@) {
            Outcome::Authorized => resp matches GateResponse::Handled(v)
                && spec_validated_report(v),
            Outcome::Unauthorized(why) => resp matches GateResponse::Denied { status, reason }
                && status == 401 && reason@ == reason_message(why),
        },
{
    match evaluate_chain(guards, h) {
        Outcome::Authorized => GateResponse::Handled(validate_address(body)),
        Outcome::Unauthorized(why) => GateResponse::Denied { status: 401, reason: why.message() },
    }
}

} // verus!
