//! The two access extractors of the protected route, as value-level types:
//! a value of one of them witnesses that the corresponding guard authorized
//! the request. The gateway is trusted completely — no token is validated
//! here; the gateway strips and spoof-proofs the headers before requests
//! reach this service.

use vstd::prelude::*;

use crate::guards::scope_authorization_guard;
use crate::guards::consumer_trust_guard;
use crate::guards::spec_consumer_trust;
use crate::guards::spec_scope_authorization;
use crate::guards::Outcome;
use crate::guards::Reason;
use crate::headers::Headers;

verus! {

/// Witness that the request carries a gateway-asserted consumer identity.
pub struct OAuth2Access;

impl OAuth2Access {
    /// Extracts the witness from a request's headers: succeeds exactly when
    /// the consumer trust guard authorizes, and otherwise refuses with the
    /// guard's reason.
    pub fn from_request(h: &Headers) -> (r: Result<OAuth2Access, Reason>)
        ensures
            r is Ok <==> spec_consumer_trust(h@) == Outcome::Authorized,
            r is Err ==> spec_consumer_trust(h@) == Outcome::Unauthorized(r->Err_0),
    {
        match consumer_trust_guard(h) {
            Outcome::Authorized => Ok(OAuth2Access),
            Outcome::Unauthorized(why) => Err(why),
        }
    }
}

/// The one scope the deep-validation route requires.
pub open spec fn email_validation_scope() -> Seq<char> {
    "email_validation"@
}

/// Witness that the asserted consumer carries the `email_validation` scope.
/// Meaningful only after `OAuth2Access` was extracted: scope without an
/// authenticated consumer decides nothing, so the two extractors are not
/// reorderable.
pub struct EmailValidationScopeAccess;

impl EmailValidationScopeAccess {
    /// Extracts the witness from a request's headers: succeeds exactly when
    /// the scope authorization guard, bound to the `email_validation` scope,
    /// authorizes, and otherwise refuses with the guard's reason.
    pub fn from_request(h: &Headers) -> (r: Result<EmailValidationScopeAccess, Reason>)
        ensures
            r is Ok <==> spec_scope_authorization(h@, email_validation_scope())
                == Outcome::Authorized,
            r is Err ==> spec_scope_authorization(h@, email_validation_scope())
                == Outcome::Unauthorized(r->Err_0),
    {
        let required = "email_validation".to_owned();
        match scope_authorization_guard(h, &required) {
            Outcome::Authorized => Ok(EmailValidationScopeAccess),
            Outcome::Unauthorized(why) => Err(why),
        }
    }
}

} // verus!
