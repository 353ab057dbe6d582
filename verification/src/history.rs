//! The watch history file ani-cli and this app share: one line per
//! show, `ep_no \t id \t title`, the provider's episode numbering.
//!
//! Reading and writing the file are the caller's I/O; this module
//! reads a body into entries, edits them, and renders the new body.

use vstd::prelude::*;
use crate::error::AniError;
use crate::offset_store::{
    after_col, after_col_of, first_col, first_col_of, lemma_col, lemma_joined_push,
    lemma_no_char_concat, plain_field,
};
use crate::text::{
    joined_lines, lemma_lines_of_joined, lines_spec, push_char, push_str, split_lines, str_eq,
    to_owned_string,
};

verus! {

/// One history row.
#[derive(Debug, Clone, PartialEq, Eq)]
pub struct HistoryEntry {
    /// The last episode watched, in the provider's numbering.
    pub ep_no: String,
    /// The provider's show id.
    pub id: String,
    /// The show's title as the provider displays it.
    pub title: String,
}

/// An entry as values.
pub open spec fn entry_view(e: HistoryEntry) -> (Seq<char>, Seq<char>, Seq<char>) {
    (e.ep_no@, e.id@, e.title@)
}

/// Entries as values.
pub open spec fn entries_view(v: Seq<HistoryEntry>) -> Seq<(Seq<char>, Seq<char>, Seq<char>)> {
    v.map_values(|e: HistoryEntry| entry_view(e))
}

fn clone_entry(e: &HistoryEntry) -> (r: HistoryEntry)
    ensures
        entry_view(r) == entry_view(*e),
{
    HistoryEntry {
        ep_no: to_owned_string(e.ep_no.as_str()),
        id: to_owned_string(e.id.as_str()),
        title: to_owned_string(e.title.as_str()),
    }
}

/// One line of the file: the episode, the id, and the rest of the line
/// as the title. Lines with fewer than three columns are skipped.
pub open spec fn parse_entry_spec(line: Seq<char>) -> Option<(Seq<char>, Seq<char>, Seq<char>)> {
    match after_col(line) {
        Some(r1) => match after_col(r1) {
            Some(r2) => Some((first_col(line), first_col(r1), r2)),
            None => None,
        },
        None => None,
    }
}

/// The entries of a list of lines.
pub open spec fn entries_of(lines: Seq<Seq<char>>) -> Seq<(Seq<char>, Seq<char>, Seq<char>)>
    decreases lines.len(),
{
    if lines.len() == 0 {
        Seq::empty()
    } else {
        let rest = entries_of(lines.drop_last());
        match parse_entry_spec(lines.last()) {
            Some(e) => rest.push(e),
            None => rest,
        }
    }
}

/// The entries of a history body.
pub open spec fn history_spec(body: Seq<char>) -> Seq<(Seq<char>, Seq<char>, Seq<char>)> {
    entries_of(lines_spec(body))
}

fn parse_entry(line: &str) -> (r: Option<HistoryEntry>)
    ensures
        match r {
            Some(e) => parse_entry_spec(line@) == Some(entry_view(e)),
            None => parse_entry_spec(line@) is None,
        },
{
    match after_col_of(line) {
        Some(r1) => match after_col_of(r1) {
            Some(r2) => Some(
                HistoryEntry {
                    ep_no: to_owned_string(first_col_of(line)),
                    id: to_owned_string(first_col_of(r1)),
                    title: to_owned_string(r2),
                },
            ),
            None => None,
        },
        None => None,
    }
}

/// The entries of a history body, in file order.
pub fn history_list(body: &str) -> (r: Vec<HistoryEntry>)
    ensures
        entries_view(r@) == history_spec(body@),
{
    let lines = split_lines(body);
    let ghost ls = lines@.map_values(|l: String| l@);
    let mut out: Vec<HistoryEntry> = Vec::new();
    let mut i: usize = 0;
    while i < lines.len()
        invariant
            i <= lines@.len(),
            ls == lines@.map_values(|l: String| l@),
            ls == lines_spec(body@),
            entries_view(out@) == entries_of(ls.subrange(0, i as int)),
        decreases lines@.len() - i,
    {
        proof {
            assert(ls.subrange(0, i + 1).drop_last() =~= ls.subrange(0, i as int));
            assert(ls.subrange(0, i + 1).last() == lines@[i as int]@);
        }
        let ghost before = out@;
        match parse_entry(lines[i].as_str()) {
            Some(e) => {
                out.push(e);
                proof {
                    assert(entries_view(out@) =~= entries_view(before).push(entry_view(e)));
                }
            },
            None => {},
        }
        i = i + 1;
    }
    proof {
        assert(ls.subrange(0, i as int) =~= ls);
    }
    out
}

/// One entry's line, without its newline.
pub open spec fn entry_text(e: (Seq<char>, Seq<char>, Seq<char>)) -> Seq<char> {
    e.0 + seq!['\t'] + (e.1 + seq!['\t'] + e.2)
}

/// The history body holding these entries.
pub open spec fn render_spec(v: Seq<(Seq<char>, Seq<char>, Seq<char>)>) -> Seq<char> {
    joined_lines(v.map_values(|e: (Seq<char>, Seq<char>, Seq<char>)| entry_text(e)))
}

/// Render a history body.
pub fn render_history(entries: &Vec<HistoryEntry>) -> (r: String)
    ensures
        r@ == render_spec(entries_view(entries@)),
{
    let ghost texts = entries_view(entries@).map_values(
        |e: (Seq<char>, Seq<char>, Seq<char>)| entry_text(e),
    );
    let mut out = String::new();
    let mut i: usize = 0;
    while i < entries.len()
        invariant
            i <= entries@.len(),
            texts == entries_view(entries@).map_values(
                |e: (Seq<char>, Seq<char>, Seq<char>)| entry_text(e),
            ),
            out@ == joined_lines(texts.subrange(0, i as int)),
        decreases entries@.len() - i,
    {
        let ghost before = out@;
        push_str(&mut out, entries[i].ep_no.as_str());
        push_char(&mut out, '\t');
        push_str(&mut out, entries[i].id.as_str());
        push_char(&mut out, '\t');
        push_str(&mut out, entries[i].title.as_str());
        push_char(&mut out, '\n');
        proof {
            assert(out@ =~= before + texts[i as int] + seq!['\n']);
            assert(texts.subrange(0, i + 1) =~= texts.subrange(0, i as int).push(texts[i as int]));
            lemma_joined_push(texts.subrange(0, i as int), texts[i as int]);
        }
        i = i + 1;
    }
    proof {
        assert(texts.subrange(0, i as int) =~= texts);
    }
    out
}

/// The body of an emptied history.
pub fn history_clear() -> (r: String)
    ensures
        r@ == render_spec(Seq::empty()),
{
    proof {
        assert(Seq::<(Seq<char>, Seq<char>, Seq<char>)>::empty().map_values(
            |e: (Seq<char>, Seq<char>, Seq<char>)| entry_text(e),
        ) =~= Seq::<Seq<char>>::empty());
    }
    String::new()
}

/// An entry the file holds verbatim: episode and id without tabs or
/// newlines, a title without newlines and not ending in a carriage
/// return.
pub open spec fn wf_entry(e: (Seq<char>, Seq<char>, Seq<char>)) -> bool {
    &&& plain_field(e.0)
    &&& plain_field(e.1)
    &&& !e.2.contains('\n')
    &&& (e.2.len() == 0 || e.2.last() != '\r')
}

proof fn lemma_entry_reads_back(e: (Seq<char>, Seq<char>, Seq<char>))
    requires
        wf_entry(e),
    ensures
        parse_entry_spec(entry_text(e)) == Some(e),
        !entry_text(e).contains('\n'),
        entry_text(e).len() == 0 || entry_text(e).last() != '\r',
{
    let r1 = e.1 + seq!['\t'] + e.2;
    lemma_col(e.0, r1);
    lemma_col(e.1, e.2);
    lemma_no_char_concat(e.1, e.2, '\n');
    lemma_no_char_concat(e.0, r1, '\n');
    if e.2.len() == 0 {
        assert(r1.last() == '\t');
        assert(entry_text(e).last() == '\t');
    }
}

proof fn lemma_entries_of_texts(v: Seq<(Seq<char>, Seq<char>, Seq<char>)>)
    requires
        forall|i: int| 0 <= i < v.len() ==> wf_entry(#[trigger] v[i]),
    ensures
        entries_of(v.map_values(|e: (Seq<char>, Seq<char>, Seq<char>)| entry_text(e))) == v,
    decreases v.len(),
{
    if v.len() > 0 {
        let d = v.drop_last();
        assert forall|i: int| 0 <= i < d.len() implies wf_entry(#[trigger] d[i]) by {
            assert(d[i] == v[i]);
        }
        lemma_entries_of_texts(d);
        let texts = v.map_values(|e: (Seq<char>, Seq<char>, Seq<char>)| entry_text(e));
        assert(texts.drop_last() =~= d.map_values(
            |e: (Seq<char>, Seq<char>, Seq<char>)| entry_text(e),
        ));
        lemma_entry_reads_back(v.last());
        assert(v =~= d.push(v.last()));
    }
}

/// Well-formed entries render to a body that reads back as the same
/// entries, in order.
pub proof fn law_history_round_trips(v: Seq<(Seq<char>, Seq<char>, Seq<char>)>)
    requires
        forall|i: int| 0 <= i < v.len() ==> wf_entry(#[trigger] v[i]),
    ensures
        history_spec(render_spec(v)) == v,
{
    let texts = v.map_values(|e: (Seq<char>, Seq<char>, Seq<char>)| entry_text(e));
    assert forall|i: int| 0 <= i < texts.len() implies !(#[trigger] texts[i]).contains('\n') by {
        lemma_entry_reads_back(v[i]);
    }
    assert forall|i: int|
        0 <= i < texts.len() implies (#[trigger] texts[i]).len() == 0 || texts[i].last() != '\r' by {
        lemma_entry_reads_back(v[i]);
    }
    lemma_lines_of_joined(texts);
    lemma_entries_of_texts(v);
}

// ---------------------------------------------------------------------
// Edits
// ---------------------------------------------------------------------

/// The entries without the ones about `id`.
pub open spec fn without_id(v: Seq<(Seq<char>, Seq<char>, Seq<char>)>, id: Seq<char>) -> Seq<
    (Seq<char>, Seq<char>, Seq<char>),
>
    decreases v.len(),
{
    if v.len() == 0 {
        Seq::empty()
    } else {
        let rest = without_id(v.drop_last(), id);
        if v.last().1 == id {
            rest
        } else {
            rest.push(v.last())
        }
    }
}

/// Whether any entry is about `id`.
pub open spec fn has_id(v: Seq<(Seq<char>, Seq<char>, Seq<char>)>, id: Seq<char>) -> bool {
    exists|i: int| 0 <= i < v.len() && (#[trigger] v[i]).1 == id
}

/// Delete every entry about `id`, keeping the rest in order; whether
/// any was removed. An empty id removes nothing.
pub fn history_delete(entries: &Vec<HistoryEntry>, id: &str) -> (r: (Vec<HistoryEntry>, bool))
    ensures
        id@.len() == 0 ==> entries_view(r.0@) == entries_view(entries@) && !r.1,
        id@.len() > 0 ==> entries_view(r.0@) == without_id(entries_view(entries@), id@) && r.1
            == has_id(entries_view(entries@), id@),
{
    let ghost v = entries_view(entries@);
    let mut out: Vec<HistoryEntry> = Vec::new();
    let mut removed = false;
    let mut i: usize = 0;
    if id.is_empty() {
        while i < entries.len()
            invariant
                i <= entries@.len(),
                v == entries_view(entries@),
                entries_view(out@) == v.subrange(0, i as int),
            decreases entries@.len() - i,
        {
            let ghost before = out@;
            let c = clone_entry(&entries[i]);
            out.push(c);
            proof {
                assert(v[i as int] == entry_view(entries@[i as int]));
                assert(entries_view(out@) =~= entries_view(before).push(entry_view(c)));
                assert(entries_view(out@) =~= v.subrange(0, i + 1));
            }
            i = i + 1;
        }
        proof {
            assert(v.subrange(0, i as int) =~= v);
        }
        return (out, false);
    }
    while i < entries.len()
        invariant
            i <= entries@.len(),
            v == entries_view(entries@),
            entries_view(out@) == without_id(v.subrange(0, i as int), id@),
            removed == has_id(v.subrange(0, i as int), id@),
        decreases entries@.len() - i,
    {
        let ghost prev = v.subrange(0, i as int);
        let ghost next = v.subrange(0, i + 1);
        proof {
            assert(next.drop_last() =~= prev);
            assert(next.last() == v[i as int]);
            assert(v[i as int] == entry_view(entries@[i as int]));
        }
        let ghost before = out@;
        if str_eq(entries[i].id.as_str(), id) {
            removed = true;
            proof {
                assert(next[i as int].1 == id@);
            }
        } else {
            out.push(clone_entry(&entries[i]));
            proof {
                assert(entries_view(out@) =~= entries_view(before).push(v[i as int]));
                if !removed {
                    assert forall|k: int| 0 <= k < next.len() implies (#[trigger] next[k]).1 != id@ by {
                        if k < prev.len() {
                            assert(next[k] == prev[k]);
                        }
                    }
                } else {
                    let k = choose|k: int| 0 <= k < prev.len() && (#[trigger] prev[k]).1 == id@;
                    assert(next[k] == prev[k]);
                }
            }
        }
        proof {
            if removed && !has_id(prev, id@) {
                assert(next[i as int].1 == id@);
            } else if removed {
                let k = choose|k: int| 0 <= k < prev.len() && (#[trigger] prev[k]).1 == id@;
                assert(next[k] == prev[k]);
            }
        }
        i = i + 1;
    }
    proof {
        assert(v.subrange(0, i as int) =~= v);
    }
    (out, removed)
}

/// Record a watch: every entry about the id takes the new episode and
/// title in place; an id without an entry is appended.
pub open spec fn upsert_spec(
    v: Seq<(Seq<char>, Seq<char>, Seq<char>)>,
    e: (Seq<char>, Seq<char>, Seq<char>),
) -> Seq<(Seq<char>, Seq<char>, Seq<char>)> {
    if has_id(v, e.1) {
        v.map_values(
            |x: (Seq<char>, Seq<char>, Seq<char>)|
                if x.1 == e.1 {
                    e
                } else {
                    x
                },
        )
    } else {
        v.push(e)
    }
}

/// Record a watch in the entries.
pub fn history_upsert(entries: &Vec<HistoryEntry>, entry: &HistoryEntry) -> (r: Vec<HistoryEntry>)
    ensures
        entries_view(r@) == upsert_spec(entries_view(entries@), entry_view(*entry)),
{
    let ghost v = entries_view(entries@);
    let ghost e = entry_view(*entry);
    let mut out: Vec<HistoryEntry> = Vec::new();
    let mut found = false;
    let mut i: usize = 0;
    while i < entries.len()
        invariant
            i <= entries@.len(),
            v == entries_view(entries@),
            e == entry_view(*entry),
            out@.len() == i,
            forall|k: int|
                0 <= k < i ==> entry_view(#[trigger] out@[k]) == (if v[k].1 == e.1 {
                    e
                } else {
                    v[k]
                }),
            found == has_id(v.subrange(0, i as int), e.1),
        decreases entries@.len() - i,
    {
        proof {
            assert(v[i as int] == entry_view(entries@[i as int]));
        }
        let ghost prev = v.subrange(0, i as int);
        let ghost next = v.subrange(0, i + 1);
        if str_eq(entries[i].id.as_str(), entry.id.as_str()) {
            out.push(clone_entry(entry));
            found = true;
            proof {
                assert(next[i as int].1 == e.1);
            }
        } else {
            out.push(clone_entry(&entries[i]));
            proof {
                if found {
                    let k = choose|k: int| 0 <= k < prev.len() && (#[trigger] prev[k]).1 == e.1;
                    assert(next[k] == prev[k]);
                } else {
                    assert forall|k: int| 0 <= k < next.len() implies (#[trigger] next[k]).1 != e.1 by {
                        if k < prev.len() {
                            assert(next[k] == prev[k]);
                        }
                    }
                }
            }
        }
        i = i + 1;
    }
    proof {
        assert(v.subrange(0, i as int) =~= v);
    }
    if !found {
        let ghost before = out@;
        out.push(clone_entry(entry));
        proof {
            assert forall|k: int| 0 <= k < v.len() implies entry_view(#[trigger] out@[k]) == v[k] by {
                assert(v[k].1 != e.1);
            }
            assert(entries_view(out@) =~= v.push(e));
        }
    } else {
        proof {
            assert(entries_view(out@) =~= v.map_values(
                |x: (Seq<char>, Seq<char>, Seq<char>)|
                    if x.1 == e.1 {
                        e
                    } else {
                        x
                    },
            ));
        }
    }
    out
}

/// After recording a watch the history has an entry about the show, and
/// every entry about it is the one recorded; after deleting a show no
/// entry about it is left.
pub proof fn law_upsert_and_delete(
    v: Seq<(Seq<char>, Seq<char>, Seq<char>)>,
    e: (Seq<char>, Seq<char>, Seq<char>),
)
    ensures
        has_id(upsert_spec(v, e), e.1),
        forall|i: int|
            0 <= i < upsert_spec(v, e).len() && (#[trigger] upsert_spec(v, e)[i]).1 == e.1
                ==> upsert_spec(v, e)[i] == e,
        !has_id(without_id(v, e.1), e.1),
{
    let u = upsert_spec(v, e);
    if has_id(v, e.1) {
        let k = choose|k: int| 0 <= k < v.len() && (#[trigger] v[k]).1 == e.1;
        assert(u[k] == e);
    } else {
        assert(u[v.len() as int] == e);
    }
    lemma_without_id(v, e.1);
}

proof fn lemma_without_id(v: Seq<(Seq<char>, Seq<char>, Seq<char>)>, id: Seq<char>)
    ensures
        !has_id(without_id(v, id), id),
    decreases v.len(),
{
    if v.len() > 0 {
        lemma_without_id(v.drop_last(), id);
        let rest = without_id(v.drop_last(), id);
        if v.last().1 != id {
            let w = rest.push(v.last());
            assert forall|i: int| 0 <= i < w.len() implies (#[trigger] w[i]).1 != id by {
                if i < rest.len() {
                    assert(w[i] == rest[i]);
                }
            }
        }
    }
}

/// The reverse-cache lookups, each an entry's Kitsu mapping or the
/// error the lookup met, scanned from entry `k` of the first `n`: the
/// first entry that maps to `kitsu_id`, or the first error met before
/// one. Entries past the lookups have no mapping.
pub open spec fn kitsu_scan(
    k: int,
    n: int,
    lookups: Seq<Result<Option<Seq<char>>, AniError>>,
    kitsu_id: Seq<char>,
) -> Result<Option<int>, AniError>
    decreases n - k,
{
    if k < 0 || k >= n || k >= lookups.len() {
        Ok(None)
    } else {
        match lookups[k] {
            Err(e) => Err(e),
            Ok(Some(m)) => if m == kitsu_id {
                Ok(Some(k))
            } else {
                kitsu_scan(k + 1, n, lookups, kitsu_id)
            },
            Ok(None) => kitsu_scan(k + 1, n, lookups, kitsu_id),
        }
    }
}

/// The entry of the show a Kitsu id names: the first entry whose id
/// maps to it (`lookups[i]` is the lookup of entry `i`'s mapping). A
/// lookup error met before a match is the answer; an empty Kitsu id
/// matches nothing and looks nothing up.
pub open spec fn by_kitsu_spec(
    v: Seq<(Seq<char>, Seq<char>, Seq<char>)>,
    lookups: Seq<Result<Option<Seq<char>>, AniError>>,
    kitsu_id: Seq<char>,
) -> Result<Option<int>, AniError> {
    if kitsu_id.len() == 0 {
        Ok(None)
    } else {
        kitsu_scan(0, v.len() as int, lookups, kitsu_id)
    }
}

/// One lookup as values.
pub open spec fn lookup_view(o: Result<Option<String>, AniError>) -> Result<Option<Seq<char>>, AniError> {
    match o {
        Ok(Some(s)) => Ok(Some(s@)),
        Ok(None) => Ok(None),
        Err(e) => Err(e),
    }
}

/// Lookups as values.
pub open spec fn lookup_views(v: Seq<Result<Option<String>, AniError>>) -> Seq<
    Result<Option<Seq<char>>, AniError>,
> {
    v.map_values(|o: Result<Option<String>, AniError>| lookup_view(o))
}

/// The history entry of the show a Kitsu id names, given each entry's
/// reverse-cache lookup in file order: the first entry mapping to it,
/// or the error of the first failed lookup met before one.
pub fn history_by_kitsu(
    entries: &Vec<HistoryEntry>,
    lookups: &Vec<Result<Option<String>, AniError>>,
    kitsu_id: &str,
) -> (r: Result<Option<HistoryEntry>, AniError>)
    ensures
        ({
            let spec = by_kitsu_spec(entries_view(entries@), lookup_views(lookups@), kitsu_id@);
            match r {
                Ok(Some(e)) => spec matches Ok(Some(i)) && 0 <= i < entries@.len() && entry_view(e)
                    == entries_view(entries@)[i],
                Ok(None) => spec == Ok::<Option<int>, AniError>(None),
                Err(e) => spec == Err::<Option<int>, AniError>(e),
            }
        }),
{
    let ghost v = entries_view(entries@);
    let ghost ls = lookup_views(lookups@);
    if kitsu_id.is_empty() {
        return Ok(None);
    }
    let mut i: usize = 0;
    while i < entries.len() && i < lookups.len()
        invariant
            i <= entries@.len(),
            i <= lookups@.len(),
            v == entries_view(entries@),
            ls == lookup_views(lookups@),
            kitsu_id@.len() > 0,
            kitsu_scan(0, v.len() as int, ls, kitsu_id@) == kitsu_scan(i as int, v.len() as int, ls, kitsu_id@),
        decreases entries@.len() - i,
    {
        proof {
            assert(ls[i as int] == lookup_view(lookups@[i as int]));
        }
        match &lookups[i] {
            Err(e) => {
                return Err(e.duplicate());
            },
            Ok(Some(k)) => {
                if str_eq(k.as_str(), kitsu_id) {
                    proof {
                        assert(v[i as int] == entry_view(entries@[i as int]));
                    }
                    let found = clone_entry(&entries[i]);
                    return Ok(Some(found));
                }
            },
            Ok(None) => {},
        }
        i = i + 1;
    }
    Ok(None)
}

} // verus!
