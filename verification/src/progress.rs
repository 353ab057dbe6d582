//! The vocabulary the resolver speaks to the loading overlay, and the
//! text a download's progress stream shows for it.

use vstd::prelude::*;
use crate::text::{push_str, to_owned_string};

verus! {

/// One step of a native resolve.
#[derive(Debug, Clone, PartialEq, Eq)]
pub enum ProgressLine {
    /// The resolver started searching a provider.
    Searching {
        /// Provider label.
        provider: String,
    },
    /// The resolver picked a show out of the search results.
    Matched {
        /// The picked show's display title.
        title: String,
    },
    /// The resolver has the episode's embeds in hand.
    LinksFetched {
        /// Provider label.
        provider: String,
    },
}

/// The text a download's progress stream shows for a resolve step.
pub open spec fn progress_text_spec(p: ProgressLine) -> Seq<char> {
    match p {
        ProgressLine::Searching { provider } => "Searching "@ + provider@ + "..."@,
        ProgressLine::Matched { title } => "Matched "@ + title@,
        ProgressLine::LinksFetched { provider } => provider@ + " links fetched"@,
    }
}

/// The download stream's line for a resolve step.
pub fn progress_text(p: &ProgressLine) -> (r: String)
    ensures
        r@ == progress_text_spec(*p),
{
    match p {
        ProgressLine::Searching { provider } => {
            let mut s = to_owned_string("Searching ");
            push_str(&mut s, provider.as_str());
            push_str(&mut s, "...");
            s
        },
        ProgressLine::Matched { title } => {
            let mut s = to_owned_string("Matched ");
            push_str(&mut s, title.as_str());
            s
        },
        ProgressLine::LinksFetched { provider } => {
            let mut s = to_owned_string(provider.as_str());
            push_str(&mut s, " links fetched");
            s
        },
    }
}

} // verus!
