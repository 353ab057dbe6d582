//! The numbering-offset store: one tab-separated row per provider slug,
//! `slug \t offset [\t slot \t tag]`, kept beside the history file it
//! translates. A row's optional display stamp records the listing slot
//! a fractional display tag was played from.
//!
//! Reading and writing the file (and the lock that orders writers) are
//! the caller's I/O; this module reads a body, merges a write into it,
//! and renders the new body.

use vstd::prelude::*;
use crate::text::{
    decimal, find_char, find_char_spec, is_digit, joined_lines, lemma_decimal, lemma_lines_of_joined,
    lemma_parse_decimal, lemma_trim_digits, lines_spec, parse_u32, parse_u32_spec, push_char,
    push_str, split_lines, str_eq, to_owned_string, trim, trim_spec, u32_to_string,
};

verus! {

/// One row of the store.
#[derive(Debug, Clone, PartialEq, Eq)]
pub struct OffsetRow {
    /// The provider slug the row is about.
    pub slug: String,
    /// The slug's numbering offset.
    pub offset: u32,
    /// The slot a display tag was played from, and the tag.
    pub display: Option<(u32, String)>,
}

/// A row as values.
pub open spec fn row_view(r: OffsetRow) -> (Seq<char>, u32, Option<(u32, Seq<char>)>) {
    (
        r.slug@,
        r.offset,
        match r.display {
            Some((slot, tag)) => Some((slot, tag@)),
            None => None,
        },
    )
}

/// Rows as values.
pub open spec fn rows_view(rows: Seq<OffsetRow>) -> Seq<(Seq<char>, u32, Option<(u32, Seq<char>)>)> {
    rows.map_values(|r: OffsetRow| row_view(r))
}

// ---------------------------------------------------------------------
// Columns
// ---------------------------------------------------------------------

/// The first tab-separated column of `s`.
pub open spec fn first_col(s: Seq<char>) -> Seq<char> {
    match find_char_spec(s, '\t') {
        Some(i) => s.subrange(0, i),
        None => s,
    }
}

/// Everything after the first tab of `s`, if there is one.
pub open spec fn after_col(s: Seq<char>) -> Option<Seq<char>> {
    match find_char_spec(s, '\t') {
        Some(i) => Some(s.subrange(i + 1, s.len() as int)),
        None => None,
    }
}

/// A column followed by a tab and the rest splits back into the two.
pub proof fn lemma_col(a: Seq<char>, rest: Seq<char>)
    requires
        !a.contains('\t'),
    ensures
        first_col(a + seq!['\t'] + rest) == a,
        after_col(a + seq!['\t'] + rest) == Some(rest),
{
    let s = a + seq!['\t'] + rest;
    assert(s[a.len() as int] == '\t');
    assert forall|j: int| 0 <= j < a.len() implies s[j] != '\t' by {
        assert(s[j] == a[j]);
        if s[j] == '\t' {
            assert(a.contains('\t'));
        }
    }
    assert(crate::text::is_first_index_of(s, '\t', a.len() as int));
    let w = choose|w: int| crate::text::is_first_index_of(s, '\t', w);
    crate::text::lemma_first_index_unique(s, '\t', w, a.len() as int);
    assert(s.subrange(0, a.len() as int) =~= a);
    assert(s.subrange(a.len() + 1int, s.len() as int) =~= rest);
}

/// A last column is all there is.
pub proof fn lemma_last_col(a: Seq<char>)
    requires
        !a.contains('\t'),
    ensures
        first_col(a) == a,
        after_col(a) is None,
{
    assert forall|w: int| !crate::text::is_first_index_of(a, '\t', w) by {
        if 0 <= w < a.len() && a[w] == '\t' {
            assert(a.contains('\t'));
        }
    }
}

pub(crate) fn first_col_of(s: &str) -> (r: &str)
    ensures
        r@ == first_col(s@),
{
    match find_char(s, '\t') {
        Some(i) => s.substring_char(0, i),
        None => s,
    }
}

pub(crate) fn after_col_of(s: &str) -> (r: Option<&str>)
    ensures
        match r {
            Some(t) => after_col(s@) == Some(t@),
            None => after_col(s@) is None,
        },
{
    let len = s.unicode_len();
    match find_char(s, '\t') {
        Some(i) => Some(s.substring_char(i + 1, len)),
        None => None,
    }
}

// ---------------------------------------------------------------------
// Parsing
// ---------------------------------------------------------------------

/// The display stamp of the columns after the offset.
pub open spec fn display_cols_spec(r1: Seq<char>) -> Option<(u32, Seq<char>)> {
    match after_col(r1) {
        Some(r2) => match after_col(r2) {
            Some(r3) => {
                let tag = first_col(r3);
                if tag.len() > 0 {
                    match parse_u32_spec(trim_spec(first_col(r2))) {
                        Some(n) => Some((n, tag)),
                        None => None,
                    }
                } else {
                    None
                }
            },
            None => None,
        },
        None => None,
    }
}

/// One line of the store: a non-empty slug, an integer offset, and an
/// optional stamp (a slot and a non-empty tag). Malformed lines are
/// skipped.
pub open spec fn parse_row_spec(line: Seq<char>) -> Option<(Seq<char>, u32, Option<(u32, Seq<char>)>)> {
    let slug = first_col(line);
    if slug.len() == 0 {
        None
    } else {
        match after_col(line) {
            Some(r1) => match parse_u32_spec(trim_spec(first_col(r1))) {
                Some(offset) => Some((slug, offset, display_cols_spec(r1))),
                None => None,
            },
            None => None,
        }
    }
}

/// The rows of a list of lines, malformed ones skipped.
pub open spec fn rows_of(lines: Seq<Seq<char>>) -> Seq<(Seq<char>, u32, Option<(u32, Seq<char>)>)>
    decreases lines.len(),
{
    if lines.len() == 0 {
        Seq::empty()
    } else {
        let rest = rows_of(lines.drop_last());
        match parse_row_spec(lines.last()) {
            Some(r) => rest.push(r),
            None => rest,
        }
    }
}

/// The rows of a store body.
pub open spec fn parse_store_spec(body: Seq<char>) -> Seq<(Seq<char>, u32, Option<(u32, Seq<char>)>)> {
    rows_of(lines_spec(body))
}

fn parse_row(line: &str) -> (r: Option<OffsetRow>)
    ensures
        match r {
            Some(row) => parse_row_spec(line@) == Some(row_view(row)),
            None => parse_row_spec(line@) is None,
        },
{
    let slug = first_col_of(line);
    if slug.is_empty() {
        return None;
    }
    let r1 = match after_col_of(line) {
        Some(r1) => r1,
        None => return None,
    };
    let offset = match parse_u32(trim(first_col_of(r1))) {
        Some(o) => o,
        None => return None,
    };
    let display: Option<(u32, String)> = match after_col_of(r1) {
        Some(r2) => match after_col_of(r2) {
            Some(r3) => {
                let tag = first_col_of(r3);
                if !tag.is_empty() {
                    match parse_u32(trim(first_col_of(r2))) {
                        Some(n) => Some((n, to_owned_string(tag))),
                        None => None,
                    }
                } else {
                    None
                }
            },
            None => None,
        },
        None => None,
    };
    Some(OffsetRow { slug: to_owned_string(slug), offset, display })
}

/// Read the store's rows.
pub fn parse_store(body: &str) -> (r: Vec<OffsetRow>)
    ensures
        rows_view(r@) == parse_store_spec(body@),
{
    let lines = split_lines(body);
    let ghost ls = lines@.map_values(|l: String| l@);
    let mut out: Vec<OffsetRow> = Vec::new();
    let mut i: usize = 0;
    while i < lines.len()
        invariant
            i <= lines@.len(),
            ls == lines@.map_values(|l: String| l@),
            ls == lines_spec(body@),
            rows_view(out@) == rows_of(ls.subrange(0, i as int)),
        decreases lines@.len() - i,
    {
        proof {
            assert(ls.subrange(0, i + 1).drop_last() =~= ls.subrange(0, i as int));
            assert(ls.subrange(0, i + 1).last() == lines@[i as int]@);
        }
        let ghost before = out@;
        match parse_row(lines[i].as_str()) {
            Some(row) => {
                out.push(row);
                proof {
                    assert(rows_view(out@) =~= rows_view(before).push(row_view(row)));
                }
            },
            None => {},
        }
        i = i + 1;
    }
    proof {
        assert(ls.subrange(0, i as int) =~= ls);
    }
    out
}

// ---------------------------------------------------------------------
// Rendering
// ---------------------------------------------------------------------

/// One row's line, without its newline.
pub open spec fn row_text(r: (Seq<char>, u32, Option<(u32, Seq<char>)>)) -> Seq<char> {
    match r.2 {
        Some((slot, tag)) => r.0 + seq!['\t'] + (decimal(r.1 as nat) + seq!['\t'] + (decimal(
            slot as nat,
        ) + seq!['\t'] + tag)),
        None => r.0 + seq!['\t'] + decimal(r.1 as nat),
    }
}

/// The store body holding these rows.
pub open spec fn serialize_spec(rows: Seq<(Seq<char>, u32, Option<(u32, Seq<char>)>)>) -> Seq<char> {
    joined_lines(rows.map_values(|r: (Seq<char>, u32, Option<(u32, Seq<char>)>)| row_text(r)))
}

pub proof fn lemma_joined_push(pieces: Seq<Seq<char>>, x: Seq<char>)
    ensures
        joined_lines(pieces.push(x)) == joined_lines(pieces) + x + seq!['\n'],
    decreases pieces.len(),
{
    if pieces.len() == 0 {
        let one = pieces.push(x);
        assert(one.drop_first() =~= Seq::<Seq<char>>::empty());
        assert(one[0] == x);
        assert(joined_lines(one.drop_first()) =~= Seq::<char>::empty());
        assert(joined_lines(one) =~= x + seq!['\n']);
        assert(joined_lines(pieces) =~= Seq::<char>::empty());
    } else {
        assert(pieces.push(x).drop_first() =~= pieces.drop_first().push(x));
        lemma_joined_push(pieces.drop_first(), x);
        assert(joined_lines(pieces.push(x)) =~= joined_lines(pieces) + x + seq!['\n']);
    }
}

fn push_row_text(out: &mut String, row: &OffsetRow)
    ensures
        final(out)@ == old(out)@ + row_text(row_view(*row)),
{
    push_str(out, row.slug.as_str());
    push_char(out, '\t');
    push_str(out, u32_to_string(row.offset).as_str());
    match &row.display {
        Some((slot, tag)) => {
            push_char(out, '\t');
            push_str(out, u32_to_string(*slot).as_str());
            push_char(out, '\t');
            push_str(out, tag.as_str());
        },
        None => {},
    }
    proof {
        assert(final(out)@ =~= old(out)@ + row_text(row_view(*row)));
    }
}

/// Render the store body.
pub fn serialize_store(rows: &Vec<OffsetRow>) -> (r: String)
    ensures
        r@ == serialize_spec(rows_view(rows@)),
{
    let ghost texts = rows_view(rows@).map_values(
        |r: (Seq<char>, u32, Option<(u32, Seq<char>)>)| row_text(r),
    );
    let mut out = String::new();
    let mut i: usize = 0;
    while i < rows.len()
        invariant
            i <= rows@.len(),
            texts == rows_view(rows@).map_values(
                |r: (Seq<char>, u32, Option<(u32, Seq<char>)>)| row_text(r),
            ),
            out@ == joined_lines(texts.subrange(0, i as int)),
        decreases rows@.len() - i,
    {
        let ghost before = out@;
        push_row_text(&mut out, &rows[i]);
        push_char(&mut out, '\n');
        proof {
            assert(texts.subrange(0, i + 1) =~= texts.subrange(0, i as int).push(texts[i as int]));
            lemma_joined_push(texts.subrange(0, i as int), texts[i as int]);
        }
        i = i + 1;
    }
    proof {
        assert(texts.subrange(0, i as int) =~= texts);
    }
    out
}

// ---------------------------------------------------------------------
// Well-formed rows read back
// ---------------------------------------------------------------------

/// A field the store can hold verbatim: no tab, no newline.
pub open spec fn plain_field(s: Seq<char>) -> bool {
    !s.contains('\t') && !s.contains('\n')
}

/// A row the store renders and reads back unchanged: a non-empty plain
/// slug, and a non-empty plain tag not ending in a carriage return.
pub open spec fn wf_row(r: (Seq<char>, u32, Option<(u32, Seq<char>)>)) -> bool {
    &&& r.0.len() > 0
    &&& plain_field(r.0)
    &&& match r.2 {
        Some((_, tag)) => tag.len() > 0 && plain_field(tag) && tag.last() != '\r',
        None => true,
    }
}

proof fn lemma_decimal_plain(n: nat)
    ensures
        plain_field(decimal(n)),
        decimal(n).len() > 0,
        decimal(n).last() != '\r',
        trim_spec(decimal(n)) == decimal(n),
{
    lemma_decimal(n);
    lemma_trim_digits(decimal(n));
    let d = decimal(n);
    assert(!d.contains('\t')) by {
        if d.contains('\t') {
            let k = choose|k: int| 0 <= k < d.len() && d[k] == '\t';
            assert(is_digit(d[k]));
        }
    }
    assert(!d.contains('\n')) by {
        if d.contains('\n') {
            let k = choose|k: int| 0 <= k < d.len() && d[k] == '\n';
            assert(is_digit(d[k]));
        }
    }
    assert(is_digit(d[d.len() - 1]));
}

proof fn lemma_stamped_row_reads_back(slug: Seq<char>, offset: u32, slot: u32, tag: Seq<char>)
    requires
        wf_row((slug, offset, Some((slot, tag)))),
    ensures
        parse_row_spec(row_text((slug, offset, Some((slot, tag))))) == Some(
            (slug, offset, Some((slot, tag))),
        ),
{
    lemma_decimal_plain(offset as nat);
    lemma_parse_decimal(offset);
    lemma_decimal_plain(slot as nat);
    lemma_parse_decimal(slot);
    let off = decimal(offset as nat);
    let ds = decimal(slot as nat);
    let r2 = ds + seq!['\t'] + tag;
    let r1 = off + seq!['\t'] + r2;
    lemma_col(slug, r1);
    lemma_col(off, r2);
    lemma_col(ds, tag);
    lemma_last_col(tag);
    assert(row_text((slug, offset, Some((slot, tag)))) == slug + seq!['\t'] + r1);
}

proof fn lemma_plain_row_reads_back(slug: Seq<char>, offset: u32)
    requires
        wf_row((slug, offset, None)),
    ensures
        parse_row_spec(row_text((slug, offset, None))) == Some((slug, offset, None::<(u32, Seq<char>)>)),
{
    lemma_decimal_plain(offset as nat);
    lemma_parse_decimal(offset);
    let off = decimal(offset as nat);
    lemma_col(slug, off);
    lemma_last_col(off);
}

proof fn lemma_row_text_is_one_line(r: (Seq<char>, u32, Option<(u32, Seq<char>)>))
    requires
        wf_row(r),
    ensures
        !row_text(r).contains('\n'),
        row_text(r).len() == 0 || row_text(r).last() != '\r',
{
    lemma_decimal_plain(r.1 as nat);
    let off = decimal(r.1 as nat);
    match r.2 {
        Some((slot, tag)) => {
            lemma_decimal_plain(slot as nat);
            let ds = decimal(slot as nat);
            lemma_no_char_concat(ds, tag, '\n');
            let r2 = ds + seq!['\t'] + tag;
            lemma_no_char_concat(off, r2, '\n');
            let r1 = off + seq!['\t'] + r2;
            lemma_no_char_concat(r.0, r1, '\n');
        },
        None => {
            lemma_no_char_concat(r.0, off, '\n');
        },
    }
}

proof fn lemma_row_reads_back(r: (Seq<char>, u32, Option<(u32, Seq<char>)>))
    requires
        wf_row(r),
    ensures
        parse_row_spec(row_text(r)) == Some(r),
        !row_text(r).contains('\n'),
        row_text(r).len() == 0 || row_text(r).last() != '\r',
{
    lemma_row_text_is_one_line(r);
    match r.2 {
        Some((slot, tag)) => lemma_stamped_row_reads_back(r.0, r.1, slot, tag),
        None => lemma_plain_row_reads_back(r.0, r.1),
    }
}

pub proof fn lemma_no_char_concat(a: Seq<char>, b: Seq<char>, c: char)
    requires
        c != '\t',
        !a.contains(c),
        !b.contains(c),
    ensures
        !(a + seq!['\t'] + b).contains(c),
        b.len() > 0 ==> (a + seq!['\t'] + b).last() == b.last(),
{
    let s = a + seq!['\t'] + b;
    if s.contains(c) {
        let k = choose|k: int| 0 <= k < s.len() && s[k] == c;
        if k < a.len() {
            assert(a[k] == c);
        } else if k > a.len() {
            assert(b[k - a.len() - 1] == c);
        }
    }
}

/// Well-formed rows render to a body that reads back as the same rows.
pub proof fn law_store_round_trips(rows: Seq<(Seq<char>, u32, Option<(u32, Seq<char>)>)>)
    requires
        forall|i: int| 0 <= i < rows.len() ==> wf_row(#[trigger] rows[i]),
    ensures
        parse_store_spec(serialize_spec(rows)) == rows,
{
    let texts = rows.map_values(|r: (Seq<char>, u32, Option<(u32, Seq<char>)>)| row_text(r));
    assert forall|i: int| 0 <= i < texts.len() implies !(#[trigger] texts[i]).contains('\n') by {
        lemma_row_reads_back(rows[i]);
    }
    assert forall|i: int|
        0 <= i < texts.len() implies (#[trigger] texts[i]).len() == 0 || texts[i].last() != '\r' by {
        lemma_row_reads_back(rows[i]);
    }
    lemma_lines_of_joined(texts);
    lemma_rows_of_texts(rows);
}

proof fn lemma_rows_of_texts(rows: Seq<(Seq<char>, u32, Option<(u32, Seq<char>)>)>)
    requires
        forall|i: int| 0 <= i < rows.len() ==> wf_row(#[trigger] rows[i]),
    ensures
        rows_of(rows.map_values(|r: (Seq<char>, u32, Option<(u32, Seq<char>)>)| row_text(r)))
            == rows,
    decreases rows.len(),
{
    if rows.len() > 0 {
        let d = rows.drop_last();
        assert forall|i: int| 0 <= i < d.len() implies wf_row(#[trigger] d[i]) by {
            assert(d[i] == rows[i]);
        }
        lemma_rows_of_texts(d);
        let texts = rows.map_values(|r: (Seq<char>, u32, Option<(u32, Seq<char>)>)| row_text(r));
        assert(texts.drop_last() =~= d.map_values(
            |r: (Seq<char>, u32, Option<(u32, Seq<char>)>)| row_text(r),
        ));
        lemma_row_reads_back(rows.last());
        assert(rows =~= d.push(rows.last()));
    }
}

// ---------------------------------------------------------------------
// Writes and reads
// ---------------------------------------------------------------------

/// `i` is the first row about `slug`.
pub open spec fn is_first_row(
    rows: Seq<(Seq<char>, u32, Option<(u32, Seq<char>)>)>,
    slug: Seq<char>,
    i: int,
) -> bool {
    &&& 0 <= i < rows.len()
    &&& rows[i].0 == slug
    &&& forall|j: int| 0 <= j < i ==> (#[trigger] rows[j]).0 != slug
}

/// The first row about `slug`, if any.
pub open spec fn find_row(rows: Seq<(Seq<char>, u32, Option<(u32, Seq<char>)>)>, slug: Seq<char>) -> Option<
    int,
> {
    if exists|i: int| is_first_row(rows, slug, i) {
        Some(choose|i: int| is_first_row(rows, slug, i))
    } else {
        None
    }
}

proof fn lemma_first_row_unique(
    rows: Seq<(Seq<char>, u32, Option<(u32, Seq<char>)>)>,
    slug: Seq<char>,
    i: int,
    j: int,
)
    requires
        is_first_row(rows, slug, i),
        is_first_row(rows, slug, j),
    ensures
        i == j,
{
    if i < j {
        assert(rows[i].0 != slug);
    } else if j < i {
        assert(rows[j].0 != slug);
    }
}

/// A write merged into the rows: the slug's first row takes the new
/// offset (and the new stamp, when one is written; an offset-only write
/// keeps the stamp); a slug without a row gets one at the end.
pub open spec fn merge_spec(
    rows: Seq<(Seq<char>, u32, Option<(u32, Seq<char>)>)>,
    slug: Seq<char>,
    offset: u32,
    display: Option<(u32, Seq<char>)>,
) -> Seq<(Seq<char>, u32, Option<(u32, Seq<char>)>)> {
    match find_row(rows, slug) {
        Some(i) => rows.update(
            i,
            (
                slug,
                offset,
                if display is Some {
                    display
                } else {
                    rows[i].2
                },
            ),
        ),
        None => rows.push((slug, offset, display)),
    }
}

/// The offset stored for a slug; no row reads as no shift.
pub open spec fn offset_of_spec(rows: Seq<(Seq<char>, u32, Option<(u32, Seq<char>)>)>, slug: Seq<char>) -> u32 {
    match find_row(rows, slug) {
        Some(i) => rows[i].1,
        None => 0,
    }
}

/// The display stamp stored for a slug.
pub open spec fn stamp_of_spec(
    rows: Seq<(Seq<char>, u32, Option<(u32, Seq<char>)>)>,
    slug: Seq<char>,
) -> Option<(u32, Seq<char>)> {
    match find_row(rows, slug) {
        Some(i) => rows[i].2,
        None => None,
    }
}

fn find_row_in(rows: &Vec<OffsetRow>, slug: &str) -> (r: Option<usize>)
    ensures
        match r {
            Some(i) => find_row(rows_view(rows@), slug@) == Some(i as int),
            None => find_row(rows_view(rows@), slug@) is None,
        },
{
    let ghost v = rows_view(rows@);
    let mut i: usize = 0;
    while i < rows.len()
        invariant
            i <= rows@.len(),
            v == rows_view(rows@),
            forall|j: int| 0 <= j < i ==> (#[trigger] v[j]).0 != slug@,
        decreases rows@.len() - i,
    {
        if str_eq(rows[i].slug.as_str(), slug) {
            proof {
                assert(v[i as int] == row_view(rows@[i as int]));
                assert(is_first_row(v, slug@, i as int));
                let w = choose|w: int| is_first_row(v, slug@, w);
                lemma_first_row_unique(v, slug@, w, i as int);
            }
            return Some(i);
        }
        proof {
            assert(v[i as int] == row_view(rows@[i as int]));
        }
        i = i + 1;
    }
    proof {
        assert forall|w: int| !is_first_row(v, slug@, w) by {
            if 0 <= w < v.len() {
                assert(v[w].0 != slug@);
            }
        }
    }
    None
}

fn clone_display(d: &Option<(u32, String)>) -> (r: Option<(u32, String)>)
    ensures
        match (r, *d) {
            (Some((a, t)), Some((b, u))) => a == b && t@ == u@,
            (None, None) => true,
            _ => false,
        },
{
    match d {
        Some((slot, tag)) => Some((*slot, to_owned_string(tag.as_str()))),
        None => None,
    }
}

/// Merge a write into the rows.
pub fn merge_row(rows: &mut Vec<OffsetRow>, slug: &str, offset: u32, display: Option<(u32, String)>)
    ensures
        rows_view(final(rows)@) == merge_spec(
            rows_view(old(rows)@),
            slug@,
            offset,
            match display {
                Some((slot, tag)) => Some((slot, tag@)),
                None => None,
            },
        ),
{
    let ghost before = rows_view(rows@);
    match find_row_in(rows, slug) {
        Some(i) => {
            let kept = clone_display(&rows[i].display);
            let new_display = match display {
                Some(d) => Some(d),
                None => kept,
            };
            let row = OffsetRow { slug: to_owned_string(slug), offset, display: new_display };
            rows.set(i, row);
            proof {
                assert(rows_view(rows@) =~= merge_spec(
                    before,
                    slug@,
                    offset,
                    match display {
                        Some((slot, tag)) => Some((slot, tag@)),
                        None => None,
                    },
                ));
            }
        },
        None => {
            let row = OffsetRow { slug: to_owned_string(slug), offset, display };
            rows.push(row);
            proof {
                assert(rows_view(rows@) =~= before.push(row_view(row)));
            }
        },
    }
}

/// The store body after a write.
pub open spec fn put_spec(
    body: Seq<char>,
    slug: Seq<char>,
    offset: u32,
    display: Option<(u32, Seq<char>)>,
) -> Seq<char> {
    serialize_spec(merge_spec(parse_store_spec(body), slug, offset, display))
}

/// Record a slug's offset, keeping its display stamp: the new store
/// body.
pub fn put(body: &str, slug: &str, offset: u32) -> (r: String)
    ensures
        r@ == put_spec(body@, slug@, offset, None),
{
    let mut rows = parse_store(body);
    merge_row(&mut rows, slug, offset, None);
    serialize_store(&rows)
}

/// Record a slug's offset together with the slot a display tag was
/// played from: the new store body.
pub fn put_display(body: &str, slug: &str, offset: u32, slot: u32, tag: &str) -> (r: String)
    ensures
        r@ == put_spec(body@, slug@, offset, Some((slot, tag@))),
{
    let mut rows = parse_store(body);
    merge_row(&mut rows, slug, offset, Some((slot, to_owned_string(tag))));
    serialize_store(&rows)
}

/// The offset a store body holds for a slug; 0 when it holds none.
pub fn get(body: &str, slug: &str) -> (r: u32)
    ensures
        r == offset_of_spec(parse_store_spec(body@), slug@),
{
    let rows = parse_store(body);
    match find_row_in(&rows, slug) {
        Some(i) => rows[i].offset,
        None => 0,
    }
}

/// The display stamp a store body holds for a slug.
pub fn display_stamp(body: &str, slug: &str) -> (r: Option<(u32, String)>)
    ensures
        match r {
            Some((slot, tag)) => stamp_of_spec(parse_store_spec(body@), slug@) == Some((slot, tag@)),
            None => stamp_of_spec(parse_store_spec(body@), slug@) is None,
        },
{
    let rows = parse_store(body);
    match find_row_in(&rows, slug) {
        Some(i) => clone_display(&rows[i].display),
        None => None,
    }
}

proof fn lemma_merge_wf(
    rows: Seq<(Seq<char>, u32, Option<(u32, Seq<char>)>)>,
    slug: Seq<char>,
    offset: u32,
    display: Option<(u32, Seq<char>)>,
)
    requires
        forall|i: int| 0 <= i < rows.len() ==> wf_row(#[trigger] rows[i]),
        wf_row((slug, offset, display)),
    ensures
        forall|i: int|
            0 <= i < merge_spec(rows, slug, offset, display).len() ==> wf_row(
                #[trigger] merge_spec(rows, slug, offset, display)[i],
            ),
{
    let m = merge_spec(rows, slug, offset, display);
    match find_row(rows, slug) {
        Some(k) => {
            assert(is_first_row(rows, slug, k));
            assert forall|i: int| 0 <= i < m.len() implies wf_row(#[trigger] m[i]) by {
                if i != k {
                    assert(m[i] == rows[i]);
                } else {
                    assert(wf_row(rows[k]));
                }
            }
        },
        None => {
            assert forall|i: int| 0 <= i < m.len() implies wf_row(#[trigger] m[i]) by {
                if i < rows.len() {
                    assert(m[i] == rows[i]);
                }
            }
        },
    }
}

/// A row as any parsed line gives it: a non-empty plain slug, and a
/// non-empty plain tag when stamped.
pub open spec fn parsed_row_shape(r: (Seq<char>, u32, Option<(u32, Seq<char>)>)) -> bool {
    &&& r.0.len() > 0
    &&& plain_field(r.0)
    &&& match r.2 {
        Some((_, tag)) => tag.len() > 0 && plain_field(tag),
        None => true,
    }
}

/// No stamp's tag ends in a carriage return. A tag can only end in one
/// when its line was the body's last, unterminated, or ended `\r\r\n`;
/// rendering such a row loses that `\r` on the next read.
pub open spec fn cr_free_stamps(rows: Seq<(Seq<char>, u32, Option<(u32, Seq<char>)>)>) -> bool {
    forall|i: int|
        0 <= i < rows.len() ==> match (#[trigger] rows[i]).2 {
            Some((_, tag)) => tag.last() != '\r',
            None => true,
        }
}

proof fn lemma_first_col_plain(s: Seq<char>)
    ensures
        !first_col(s).contains('\t'),
        !s.contains('\n') ==> !first_col(s).contains('\n'),
        !s.contains('\n') ==> (after_col(s) matches Some(r) ==> !r.contains('\n')),
{
    let f = first_col(s);
    match find_char_spec(s, '\t') {
        Some(i) => {
            assert(crate::text::is_first_index_of(s, '\t', i));
            if f.contains('\t') {
                let j = choose|j: int| 0 <= j < f.len() && f[j] == '\t';
                assert(s[j] == '\t');
            }
            if !s.contains('\n') {
                if f.contains('\n') {
                    let j = choose|j: int| 0 <= j < f.len() && f[j] == '\n';
                    assert(s[j] == '\n');
                }
                let r = s.subrange(i + 1, s.len() as int);
                if r.contains('\n') {
                    let j = choose|j: int| 0 <= j < r.len() && r[j] == '\n';
                    assert(s[i + 1 + j] == '\n');
                }
            }
        },
        None => {
            if s.contains('\t') {
                let j = choose|j: int| 0 <= j < s.len() && s[j] == '\t';
                lemma_some_first_tab(s, j);
            }
        },
    }
}

proof fn lemma_some_first_tab(s: Seq<char>, j: int)
    requires
        0 <= j < s.len(),
        s[j] == '\t',
    ensures
        exists|i: int| crate::text::is_first_index_of(s, '\t', i),
    decreases j,
{
    if exists|k: int| 0 <= k < j && s[k] == '\t' {
        let k = choose|k: int| 0 <= k < j && s[k] == '\t';
        lemma_some_first_tab(s, k);
    } else {
        assert(crate::text::is_first_index_of(s, '\t', j));
    }
}

proof fn lemma_parsed_row_shape(line: Seq<char>)
    requires
        !line.contains('\n'),
    ensures
        parse_row_spec(line) matches Some(r) ==> parsed_row_shape(r),
{
    lemma_first_col_plain(line);
    match after_col(line) {
        Some(r1) => {
            lemma_first_col_plain(r1);
            match after_col(r1) {
                Some(r2) => {
                    lemma_first_col_plain(r2);
                    match after_col(r2) {
                        Some(r3) => {
                            lemma_first_col_plain(r3);
                        },
                        None => {},
                    }
                },
                None => {},
            }
        },
        None => {},
    }
}

proof fn lemma_rows_of_shape(lines: Seq<Seq<char>>)
    requires
        forall|i: int| 0 <= i < lines.len() ==> !(#[trigger] lines[i]).contains('\n'),
    ensures
        forall|i: int| 0 <= i < rows_of(lines).len() ==> parsed_row_shape(#[trigger] rows_of(lines)[i]),
    decreases lines.len(),
{
    if lines.len() > 0 {
        let d = lines.drop_last();
        assert forall|i: int| 0 <= i < d.len() implies !(#[trigger] d[i]).contains('\n') by {
            assert(d[i] == lines[i]);
        }
        lemma_rows_of_shape(d);
        lemma_parsed_row_shape(lines.last());
        let rest = rows_of(d);
        match parse_row_spec(lines.last()) {
            Some(r) => {
                assert forall|i: int| 0 <= i < rows_of(lines).len() implies parsed_row_shape(
                    #[trigger] rows_of(lines)[i],
                ) by {
                    if i < rest.len() {
                        assert(rows_of(lines)[i] == rest[i]);
                    }
                }
            },
            None => {},
        }
    }
}

/// Every row a body parses to has a non-empty plain slug, and a
/// non-empty plain tag when stamped.
pub proof fn lemma_parsed_store_shape(body: Seq<char>)
    ensures
        forall|i: int|
            0 <= i < parse_store_spec(body).len() ==> parsed_row_shape(#[trigger] parse_store_spec(body)[i]),
{
    crate::text::lemma_lines_have_no_newline(body, 0);
    lemma_rows_of_shape(lines_spec(body));
}

/// What a write stores is what a later read gives back: the written
/// slug reads the written offset (and the written stamp, or its old one
/// after an offset-only write), and every other slug reads what it read
/// before. Stated for a well-formed write, and a store none of whose
/// stamps has a tag ending in a carriage return (such a tag reads back
/// without it once rewritten).
pub proof fn law_a_read_gives_back_the_write(
    body: Seq<char>,
    slug: Seq<char>,
    offset: u32,
    display: Option<(u32, Seq<char>)>,
    other: Seq<char>,
)
    requires
        cr_free_stamps(parse_store_spec(body)),
        wf_row((slug, offset, display)),
    ensures
        offset_of_spec(parse_store_spec(put_spec(body, slug, offset, display)), slug) == offset,
        stamp_of_spec(parse_store_spec(put_spec(body, slug, offset, display)), slug) == (
        if display is Some {
            display
        } else {
            stamp_of_spec(parse_store_spec(body), slug)
        }),
        other != slug ==> offset_of_spec(
            parse_store_spec(put_spec(body, slug, offset, display)),
            other,
        ) == offset_of_spec(parse_store_spec(body), other),
        other != slug ==> stamp_of_spec(parse_store_spec(put_spec(body, slug, offset, display)), other)
            == stamp_of_spec(parse_store_spec(body), other),
{
    let rows = parse_store_spec(body);
    lemma_parsed_store_shape(body);
    assert forall|i: int| 0 <= i < rows.len() implies wf_row(#[trigger] rows[i]) by {
        assert(parsed_row_shape(rows[i]));
    }
    let m = merge_spec(rows, slug, offset, display);
    lemma_merge_wf(rows, slug, offset, display);
    law_store_round_trips(m);
    assert(parse_store_spec(put_spec(body, slug, offset, display)) == m);
    match find_row(rows, slug) {
        Some(k) => {
            assert(is_first_row(rows, slug, k));
            assert(is_first_row(m, slug, k)) by {
                assert forall|j: int| 0 <= j < k implies (#[trigger] m[j]).0 != slug by {
                    assert(m[j] == rows[j]);
                }
            }
            let w = choose|w: int| is_first_row(m, slug, w);
            lemma_first_row_unique(m, slug, w, k);
            if other != slug {
                lemma_other_row_after_update(rows, k, m[k], other);
            }
        },
        None => {
            assert forall|w: int| !is_first_row(rows, slug, w) by {}
            assert(forall|j: int| 0 <= j < rows.len() ==> (#[trigger] rows[j]).0 != slug) by {
                assert forall|j: int| 0 <= j < rows.len() implies (#[trigger] rows[j]).0 != slug by {
                    if rows[j].0 == slug {
                        lemma_some_first_row(rows, slug, j);
                    }
                }
            }
            let n = rows.len() as int;
            assert(is_first_row(m, slug, n)) by {
                assert forall|j: int| 0 <= j < n implies (#[trigger] m[j]).0 != slug by {
                    assert(m[j] == rows[j]);
                }
            }
            let w = choose|w: int| is_first_row(m, slug, w);
            lemma_first_row_unique(m, slug, w, n);
            if other != slug {
                lemma_other_row_after_push(rows, (slug, offset, display), other);
            }
        },
    }
}

/// A row about `slug` at `j` means some first row about it exists.
proof fn lemma_some_first_row(
    rows: Seq<(Seq<char>, u32, Option<(u32, Seq<char>)>)>,
    slug: Seq<char>,
    j: int,
)
    requires
        0 <= j < rows.len(),
        rows[j].0 == slug,
    ensures
        find_row(rows, slug) is Some,
    decreases j,
{
    if forall|k: int| 0 <= k < j ==> (#[trigger] rows[k]).0 != slug {
        assert(is_first_row(rows, slug, j));
    } else {
        let k = choose|k: int| 0 <= k < j && (#[trigger] rows[k]).0 != slug == false;
        lemma_some_first_row(rows, slug, k);
    }
}

proof fn lemma_other_row_after_update(
    rows: Seq<(Seq<char>, u32, Option<(u32, Seq<char>)>)>,
    k: int,
    x: (Seq<char>, u32, Option<(u32, Seq<char>)>),
    other: Seq<char>,
)
    requires
        0 <= k < rows.len(),
        rows[k].0 == x.0,
        x.0 != other,
    ensures
        find_row(rows.update(k, x), other) == find_row(rows, other),
        offset_of_spec(rows.update(k, x), other) == offset_of_spec(rows, other),
        stamp_of_spec(rows.update(k, x), other) == stamp_of_spec(rows, other),
{
    let m = rows.update(k, x);
    assert forall|i: int| is_first_row(m, other, i) <==> is_first_row(rows, other, i) by {
        if 0 <= i < rows.len() {
            if i != k {
                assert(m[i] == rows[i]);
            }
            assert forall|j: int| 0 <= j < i implies (m[j].0 == other) == (rows[j].0 == other) by {
                if j != k {
                    assert(m[j] == rows[j]);
                }
            }
        }
    }
    if exists|i: int| is_first_row(rows, other, i) {
        let a = choose|i: int| is_first_row(rows, other, i);
        let b = choose|i: int| is_first_row(m, other, i);
        lemma_first_row_unique(rows, other, a, b);
        assert(a != k);
        assert(m[a] == rows[a]);
    }
}

proof fn lemma_other_row_after_push(
    rows: Seq<(Seq<char>, u32, Option<(u32, Seq<char>)>)>,
    x: (Seq<char>, u32, Option<(u32, Seq<char>)>),
    other: Seq<char>,
)
    requires
        x.0 != other,
    ensures
        offset_of_spec(rows.push(x), other) == offset_of_spec(rows, other),
        stamp_of_spec(rows.push(x), other) == stamp_of_spec(rows, other),
{
    let m = rows.push(x);
    assert forall|i: int| is_first_row(m, other, i) <==> is_first_row(rows, other, i) by {
        if 0 <= i < rows.len() {
            assert(m[i] == rows[i]);
            assert forall|j: int| 0 <= j < i implies m[j] == rows[j] by {}
        }
    }
    if exists|i: int| is_first_row(rows, other, i) {
        let a = choose|i: int| is_first_row(rows, other, i);
        let b = choose|i: int| is_first_row(m, other, i);
        lemma_first_row_unique(rows, other, a, b);
        assert(m[a] == rows[a]);
    }
}

} // verus!
