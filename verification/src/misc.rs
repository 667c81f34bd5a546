//! Configuration helpers: turning a comma-separated configuration string
//! into its elements.

use vstd::prelude::*;

use crate::text::split_commas;
use crate::text::split_commas_exec;
use crate::text::trim_exec;
use crate::text::trim_spec;

verus! {

/// The comma-separated elements of `s`, each with surrounding whitespace
/// removed.
pub open spec fn trimmed_elements(s: Seq<char>) -> Seq<Seq<char>> {
    split_commas(s).map_values(|t: Seq<char>| trim_spec(t))
}

/// Splits a comma-separated configuration list into its elements, trimming
/// the whitespace around each.
pub fn list_into_vector(my_list: String) -> (r: Vec<String>)
    ensures
        r.deep_view() == trimmed_elements(my_list@),
{
    let toks = split_commas_exec(my_list.as_str());
    let n = toks.len();
    let mut r: Vec<String> = Vec::new();
    let mut k: usize = 0;
    while k < n
        invariant
            n == toks.len(),
            k <= n,
            toks.deep_view() == split_commas(my_list@),
            r.deep_view().len() == k,
            forall|j: int| 0 <= j < k ==> r.deep_view()[j] == trim_spec(toks.deep_view()[j]),
        decreases n - k,
    {
        let t = trim_exec(toks[k].as_str());
        proof {
            assert(toks@[k as int]@ == toks.deep_view()[k as int]);
        }
        let ghost before = r;
        r.push(t);
        proof {
            assert(r.deep_view() =~= before.deep_view().push(t@));
        }
        k += 1;
    }
    proof {
        assert(r.deep_view() =~= trimmed_elements(my_list@));
    }
    r
}

} // verus!
