//! The request and response bodies of the validation routes, and the plain
//! shape of a syntax-decomposition result.

use vstd::prelude::*;

verus! {

/// The email address to be checked.
pub struct Email {
    /// The email address as a string.
    pub address: String,
}

/// What the syntax decomposition of one address yields, held as plain
/// values: the parsed address when the input is well-formed, and the domain
/// and username parts, empty when it is not.
pub struct Syntax {
    /// The parsed address, absent when the input is ill-formed.
    pub address: Option<String>,
    /// The domain part, after the `@`; empty when the input is ill-formed.
    pub domain: String,
    /// Whether the input is syntactically valid.
    pub is_valid_syntax: bool,
    /// The username part, before the `@`; empty when the input is ill-formed.
    pub username: String,
}

/// The verification results.
pub struct VerifiedEmail {
    /// The supplied email address.
    pub address: String,
    /// The domain part of the supplied email address.
    pub domain: String,
    /// Whether the supplied email address is syntactically valid.
    pub is_valid_syntax: bool,
    /// The username part of the supplied email address.
    pub username: String,
}

/// How a verification result reports a decomposition: the parts are carried
/// over, and an absent parsed address is reported with a fixed placeholder.
pub open spec fn spec_verified_email(
    address: Option<Seq<char>>,
    domain: Seq<char>,
    is_valid_syntax: bool,
    username: Seq<char>,
    r: VerifiedEmail,
) -> bool {
    &&& r.domain@ == domain
    &&& r.is_valid_syntax == is_valid_syntax
    &&& r.username@ == username
    &&& match address {
        Some(a) => r.address@ == a,
        None => r.address@ == "invalid address"@,
    }
}

impl VerifiedEmail {
    /// Reports a syntax decomposition: the parts are carried over unchanged,
    /// and an ill-formed input, having no parsed address, is reported as
    /// `invalid address`.
    pub fn from(s: Syntax) -> (r: VerifiedEmail)
        ensures
            spec_verified_email(s.address.deep_view(), s.domain@, s.is_valid_syntax, s.username@, r),
            r.domain == s.domain,
            r.username == s.username,
    {
        let address = match s.address {
            Some(a) => a,
            None => "invalid address".to_owned(),
        };
        VerifiedEmail {
            address,
            domain: s.domain,
            is_valid_syntax: s.is_valid_syntax,
            username: s.username,
        }
    }
}

} // verus!
