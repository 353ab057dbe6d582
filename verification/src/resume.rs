//! Resuming a show the user asked for by id: the heuristic pick stands
//! only when it is that show.

use vstd::prelude::*;
use crate::text::{str_eq, to_owned_string};

verus! {

/// A provider search candidate.
#[derive(Debug, Clone, PartialEq, Eq)]
pub struct Candidate {
    /// The provider's show id.
    pub id: String,
    /// The provider's display name.
    pub name: String,
}

impl Default for Candidate {
    fn default() -> (c: Self)
        ensures
            c.id@ == Seq::<char>::empty(),
            c.name@ == Seq::<char>::empty(),
    {
        Candidate { id: String::new(), name: String::new() }
    }
}

/// The candidate ids of a pick, as values.
pub open spec fn cand_id(c: Option<Candidate>) -> Option<Seq<char>> {
    match c {
        Some(c) => Some(c.id@),
        None => None,
    }
}

/// Which pick a request for a specific show launches: with no show
/// requested, the heuristic pick; with one requested, the heuristic
/// pick when it already is that show, else the exact match found by
/// id, else no candidate at all (a sibling show is never launched in
/// its place).
pub fn pick_for_requested_show(
    requested: Option<&str>,
    heuristic: Option<Candidate>,
    exact: Option<(String, usize, Candidate)>,
    title: String,
    index: usize,
) -> (r: (String, usize, Option<Candidate>))
    ensures
        requested is None ==> r.0@ == title@ && r.1 == index && r.2 == heuristic,
        requested matches Some(id) && cand_id(heuristic) == Some(id@) ==> r.0@ == title@ && r.1
            == index && r.2 == heuristic,
        requested matches Some(id) && cand_id(heuristic) != Some(id@) ==> match exact {
            Some((t, i, c)) => r.0@ == t@ && r.1 == i && r.2 == Some(c),
            None => r.0@ == title@ && r.1 == index && r.2 is None,
        },
{
    match requested {
        None => (title, index, heuristic),
        Some(id) => {
            let keeps = match &heuristic {
                Some(c) => str_eq(c.id.as_str(), id),
                None => false,
            };
            if keeps {
                (title, index, heuristic)
            } else {
                match exact {
                    Some((t, i, c)) => (t, i, Some(c)),
                    None => (title, index, None),
                }
            }
        },
    }
}

/// A request for a specific show launches that show or nothing.
pub proof fn law_a_requested_show_is_never_swapped(
    id: Seq<char>,
    heuristic: Option<Candidate>,
    exact: Option<(String, usize, Candidate)>,
    launched: Option<Candidate>,
)
    requires
        exact matches Some((_, _, c)) ==> c.id@ == id,
        cand_id(heuristic) == Some(id) ==> launched == heuristic,
        cand_id(heuristic) != Some(id) ==> launched == match exact {
            Some((_, _, c)) => Some(c),
            None => None,
        },
    ensures
        launched matches Some(c) ==> c.id@ == id,
{
}

} // verus!
