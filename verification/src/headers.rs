//! A request-local view of inbound headers: an ordered list of name/value
//! pairs whose names are matched case insensitively (ASCII). The guards only
//! read headers; values whose bytes the transport could not decode are
//! simply never inserted, which makes them indistinguishable from absence.

use vstd::prelude::*;

use crate::text::eq_ignore_ascii_case;
use crate::text::lower_seq;

verus! {

/// Whether a stored header name and a looked-up name denote the same header.
pub open spec fn name_matches(stored: Seq<char>, name: Seq<char>) -> bool {
    lower_seq(stored) == lower_seq(name)
}

/// Whether some pair of `hs` carries the header `name`.
pub open spec fn has_name(hs: Seq<(Seq<char>, Seq<char>)>, name: Seq<char>) -> bool {
    exists|k: int| 0 <= k < hs.len() && name_matches(hs[k].0, name)
}

/// The value of the first pair of `hs` carrying the header `name`, if any.
pub open spec fn first_value(hs: Seq<(Seq<char>, Seq<char>)>, name: Seq<char>) -> Option<Seq<char>>
    decreases hs.len(),
{
    if hs.len() == 0 {
        None
    } else if name_matches(hs[0].0, name) {
        Some(hs[0].1)
    } else {
        first_value(hs.drop_first(), name)
    }
}

/// A header is present exactly when it has a first value.
pub proof fn lemma_has_name_first_value(hs: Seq<(Seq<char>, Seq<char>)>, name: Seq<char>)
    ensures
        has_name(hs, name) <==> first_value(hs, name) is Some,
    decreases hs.len(),
{
    if hs.len() == 0 {
    } else if name_matches(hs[0].0, name) {
    } else {
        lemma_has_name_first_value(hs.drop_first(), name);
        assert forall|k: int| 0 <= k < hs.len() && name_matches(hs[k].0, name) implies has_name(
            hs.drop_first(),
            name,
        ) by {
            assert(hs.drop_first()[k - 1] == hs[k]);
        }
        assert forall|k: int|
            0 <= k < hs.drop_first().len() && name_matches(
                hs.drop_first()[k].0,
                name,
            ) implies has_name(hs, name) by {
            assert(hs[k + 1] == hs.drop_first()[k]);
        }
    }
}

/// The headers of one request. Names are kept as received; lookups fold
/// ASCII case, so `X-Consumer-Username` and `x-consumer-username` are one
/// header. A name may occur more than once; lookups see the first pair.
pub struct Headers {
    pairs: Vec<(String, String)>,
}

impl View for Headers {
    type V = Seq<(Seq<char>, Seq<char>)>;

    closed spec fn view(&self) -> Seq<(Seq<char>, Seq<char>)> {
        self.pairs.deep_view()
    }
}

impl Headers {
    /// An empty header set.
    pub fn new() -> (h: Headers)
        ensures
            h@ == Seq::<(Seq<char>, Seq<char>)>::empty(),
    {
        let h = Headers { pairs: Vec::new() };
        proof {
            assert(h@ =~= Seq::<(Seq<char>, Seq<char>)>::empty());
        }
        h
    }

    /// Appends one name/value pair.
    pub fn insert(&mut self, name: String, value: String)
        ensures
            final(self)@ == old(self)@.push((name@, value@)),
    {
        let ghost before = self.pairs.deep_view();
        self.pairs.push((name, value));
        proof {
            assert(self.pairs.deep_view() =~= before.push((name@, value@)));
        }
    }

    /// Whether the header `name` is present, whatever its value.
    pub fn contains_name(&self, name: &str) -> (r: bool)
        ensures
            r == has_name(self@, name@),
    {
        let n = self.pairs.len();
        let mut k: usize = 0;
        while k < n
            invariant
                n == self.pairs.len(),
                k <= n,
                self@.len() == n,
                forall|j: int| 0 <= j < k ==> !name_matches(self@[j].0, name@),
            decreases n - k,
        {
            let pair = &self.pairs[k];
            if eq_ignore_ascii_case(pair.0.as_str(), name) {
                proof {
                    assert(self@[k as int].0 == pair.0@);
                }
                return true;
            }
            proof {
                assert(self@[k as int].0 == pair.0@);
            }
            k += 1;
        }
        false
    }

    /// The value of the first pair carrying the header `name`, if any.
    pub fn get_first<'a>(&'a self, name: &str) -> (r: Option<&'a String>)
        ensures
            match r {
                Some(v) => first_value(self@, name@) == Some(v@),
                None => first_value(self@, name@) is None,
            },
    {
        let n = self.pairs.len();
        let mut k: usize = 0;
        proof {
            assert(self@.skip(0) =~= self@);
        }
        while k < n
            invariant
                n == self.pairs.len(),
                k <= n,
                self@.len() == n,
                first_value(self@, name@) == first_value(self@.skip(k as int), name@),
            decreases n - k,
        {
            let pair = &self.pairs[k];
            proof {
                assert(self@[k as int] == (pair.0@, pair.1@));
                assert(self@.skip(k as int)[0] == self@[k as int]);
            }
            if eq_ignore_ascii_case(pair.0.as_str(), name) {
                return Some(&pair.1);
            }
            proof {
                assert(self@.skip(k as int).drop_first() =~= self@.skip(k + 1));
            }
            k += 1;
        }
        proof {
            assert(self@.skip(n as int) =~= Seq::<(Seq<char>, Seq<char>)>::empty());
        }
        None
    }
}

} // verus!
