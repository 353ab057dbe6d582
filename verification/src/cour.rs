//! Cour detection for the mark-watched integrity guard.
//!
//! The reverse cache (provider show id to Kitsu id) could record a
//! cross-cour mapping when the picker chose a sibling cour. The guard
//! reads the cour off the provider show's title (a trailing "Part N",
//! "Cour N" or "Season N") and off the Kitsu slug (a trailing "-part-N",
//! "-cour-N" or "-season-N") and rejects a pairing whose cours differ.

use vstd::prelude::*;
use crate::text::{
    all_digits, ascii_lower_seq, ends_with, eq_ignore_ascii_case, parse_u32, parse_u32_spec,
    rfind_char, rfind_char_spec, trim, trim_spec, unsigned_body,
};
use crate::numbering::all_ascii_digits;

verus! {

/// A cour keyword, ASCII case-insensitively.
pub open spec fn is_cour_keyword(w: Seq<char>) -> bool {
    let l = ascii_lower_seq(w);
    l == "part"@ || l == "cour"@ || l == "season"@
}

/// The cour a `<keyword><sep><number>` ending names: the last
/// `sep`-separated word is a run of digits and the word before it a
/// cour keyword.
pub open spec fn trailing_cour_spec(s: Seq<char>, sep: char) -> Option<u32> {
    match rfind_char_spec(s, sep) {
        Some(i) => {
            let num = s.subrange(i + 1, s.len() as int);
            let head = s.subrange(0, i);
            let kw = match rfind_char_spec(head, sep) {
                Some(k) => head.subrange(k + 1, head.len() as int),
                None => head,
            };
            if num.len() > 0 && all_digits(num) && is_cour_keyword(kw) {
                parse_u32_spec(num)
            } else {
                None
            }
        },
        None => None,
    }
}

/// The title with a trailing `" (N episodes)"` count removed, when it
/// carries one.
pub open spec fn strip_episode_count_spec(s: Seq<char>) -> Seq<char> {
    let suffix = " episodes)"@;
    if suffix.len() <= s.len() && s.subrange(s.len() - suffix.len(), s.len() as int) == suffix {
        let body = s.subrange(0, s.len() - suffix.len());
        match rfind_char_spec(body, '(') {
            Some(p) => {
                let count = body.subrange(p + 1, body.len() as int);
                if p >= 1 && body[p - 1] == ' ' && count.len() > 0 && all_digits(count) {
                    s.subrange(0, p - 1)
                } else {
                    s
                }
            },
            None => s,
        }
    } else {
        s
    }
}

/// The cour a provider title names.
pub open spec fn cour_from_title_spec(name: Seq<char>) -> Option<u32> {
    trailing_cour_spec(trim_spec(strip_episode_count_spec(trim_spec(name))), ' ')
}

/// The cour a Kitsu slug names.
pub open spec fn cour_from_slug_spec(slug: Seq<char>) -> Option<u32> {
    trailing_cour_spec(slug, '-')
}

fn is_keyword(w: &str) -> (r: bool)
    ensures
        r == is_cour_keyword(w@),
{
    proof {
        lemma_lower_literals();
    }
    eq_ignore_ascii_case(w, "part") || eq_ignore_ascii_case(w, "cour") || eq_ignore_ascii_case(
        w,
        "season",
    )
}

proof fn lemma_lower_literals()
    ensures
        ascii_lower_seq("part"@) == "part"@,
        ascii_lower_seq("cour"@) == "cour"@,
        ascii_lower_seq("season"@) == "season"@,
{
    reveal_strlit("part");
    reveal_strlit("cour");
    reveal_strlit("season");
    assert(ascii_lower_seq("part"@) =~= "part"@);
    assert(ascii_lower_seq("cour"@) =~= "cour"@);
    assert(ascii_lower_seq("season"@) =~= "season"@);
}

fn trailing_cour(s: &str, sep: char) -> (r: Option<u32>)
    ensures
        r == trailing_cour_spec(s@, sep),
{
    proof {
        lemma_lower_literals();
    }
    let len = s.unicode_len();
    let i = match rfind_char(s, sep) {
        Some(i) => i,
        None => return None,
    };
    let num = s.substring_char(i + 1, len);
    let head = s.substring_char(0, i);
    let kw = match rfind_char(head, sep) {
        Some(k) => head.substring_char(k + 1, i),
        None => head,
    };
    if num.unicode_len() > 0 && all_ascii_digits(num) && is_keyword(kw) {
        parse_u32(num)
    } else {
        None
    }
}

fn strip_episode_count(s: &str) -> (r: &str)
    ensures
        r@ == strip_episode_count_spec(s@),
{
    if !ends_with(s, " episodes)") {
        return s;
    }
    proof {
        reveal_strlit(" episodes)");
    }
    let len = s.unicode_len();
    let body = s.substring_char(0, len - 10);
    let p = match rfind_char(body, '(') {
        Some(p) => p,
        None => return s,
    };
    let count = body.substring_char(p + 1, len - 10);
    if p >= 1 && body.get_char(p - 1) == ' ' && count.unicode_len() > 0 && all_ascii_digits(count) {
        s.substring_char(0, p - 1)
    } else {
        s
    }
}

/// The cour a provider show's title names in a trailing "Part N",
/// "Cour N" or "Season N" (case-insensitive), after dropping the
/// `" (N episodes)"` count the play cache appends to stored titles.
/// A "Part N" mid-title describes the parent series and does not count.
pub fn cour_from_title(name: &str) -> (r: Option<u32>)
    ensures
        r == cour_from_title_spec(name@),
{
    trailing_cour(trim(strip_episode_count(trim(name))), ' ')
}

/// The cour a Kitsu slug names in a trailing "-part-N", "-cour-N" or
/// "-season-N".
pub fn cour_from_slug(slug: &str) -> (r: Option<u32>)
    ensures
        r == cour_from_slug_spec(slug@),
{
    trailing_cour(slug, '-')
}

/// A cour, with "none named" meaning the first.
pub open spec fn cour_or_first(c: Option<u32>) -> u32 {
    match c {
        Some(n) => n,
        None => 1,
    }
}

/// Whether a provider show's cour and a Kitsu entry's cour agree; a
/// missing cour is cour 1.
pub fn cours_agree(allmanga: Option<u32>, kitsu: Option<u32>) -> (r: bool)
    ensures
        r == (cour_or_first(allmanga) == cour_or_first(kitsu)),
{
    let a = match allmanga {
        Some(n) => n,
        None => 1,
    };
    let k = match kitsu {
        Some(n) => n,
        None => 1,
    };
    a == k
}

/// Agreement is symmetric, and an explicit cour 1 agrees with none.
pub proof fn law_cours_agree_is_an_equivalence(a: Option<u32>, b: Option<u32>)
    ensures
        (cour_or_first(a) == cour_or_first(b)) == (cour_or_first(b) == cour_or_first(a)),
        cour_or_first(Some(1)) == cour_or_first(None),
{
}

} // verus!
