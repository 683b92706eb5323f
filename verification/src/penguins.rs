//! Reading a small comma-separated table of penguin species and their
//! lengths in centimetres. The first line is a header; blank lines are
//! skipped; a line whose length field is not a `u32` gives no record.
use vstd::prelude::*;
use crate::text::{
    chars_of, find_char, is_white_space, lemma_prefix_len_is, lemma_split_nonempty, lemma_trim,
    other_than, parse_u32_chars, spec_lines, spec_parse_u32, spec_split, spec_trim, split_chars,
    split_lines, string_from_chars, trim_chars, views,
};

verus! {

/// One row of the table.
pub struct PenguinRecord {
    pub name: String,
    pub length_cm: u32,
}

/// The comma-separated fields of `line`, each trimmed.
pub open spec fn spec_fields(line: Seq<char>) -> Seq<Seq<char>> {
    spec_split(line, ',').map_values(|f: Seq<char>| spec_trim(f))
}

/// The record a data line gives: its first field as the name, and its
/// second field read as a `u32`, when it reads as one.
pub open spec fn spec_record(line: Seq<char>) -> Option<(Seq<char>, u32)> {
    let f = spec_fields(line);
    match spec_parse_u32(f[1]) {
        Some(n) => Some((f[0], n)),
        None => None,
    }
}

/// Line `i` carries data: it is not the header and not blank.
pub open spec fn is_data_line(i: int, line: Seq<char>) -> bool {
    i != 0 && spec_trim(line).len() != 0
}

/// The records given by the first `n` of `lines`.
pub open spec fn spec_records(lines: Seq<Seq<char>>, n: nat) -> Seq<(Seq<char>, u32)>
    decreases n,
{
    if n == 0 {
        seq![]
    } else {
        let prev = spec_records(lines, (n - 1) as nat);
        let line = lines[n - 1];
        if is_data_line(n - 1, line) {
            match spec_record(line) {
                Some(r) => prev.push(r),
                None => prev,
            }
        } else {
            prev
        }
    }
}

/// Every data line of `text` holds a comma, so it has a second field.
pub open spec fn every_data_line_has_comma(text: Seq<char>) -> bool {
    let lines = spec_lines(text);
    forall|i: int|
        0 <= i < lines.len() && is_data_line(i, lines[i]) ==> find_char(#[trigger] lines[i], ',')
            < lines[i].len()
}

/// The view of a record: its name's characters and its length.
pub open spec fn record_view(r: PenguinRecord) -> (Seq<char>, u32) {
    (r.name@, r.length_cm)
}

/// A data line's record is named by its first comma-separated field with
/// white space removed at both ends, and measured by its second field,
/// likewise trimmed and read as a `u32`; a second field that does not read
/// as a `u32` gives no record. The name neither starts nor ends with white
/// space.
pub proof fn lemma_record_fields(line: Seq<char>)
    requires
        find_char(line, ',') < line.len(),
    ensures
        spec_split(line, ',').len() >= 2,
        spec_record(line) == match spec_parse_u32(spec_trim(spec_split(line, ',')[1])) {
            Some(n) => Some((spec_trim(spec_split(line, ',')[0]), n)),
            None => None::<(Seq<char>, u32)>,
        },
        spec_record(line) matches Some(r) ==> (r.0.len() == 0 || (!is_white_space(r.0[0])
            && !is_white_space(r.0.last()))),
{
    lemma_split_nonempty(line.skip(find_char(line, ',') + 1 as int), ',');
    lemma_trim(spec_split(line, ',')[0]);
}

/// Every record read from the first `n` lines is the record of one of
/// those lines that carries data.
pub proof fn lemma_records_come_from_lines(lines: Seq<Seq<char>>, n: nat, k: int)
    requires
        n <= lines.len(),
        0 <= k < spec_records(lines, n).len(),
    ensures
        exists|i: int|
            0 <= i < n && is_data_line(i, lines[i]) && #[trigger] spec_record(lines[i]) == Some(
                spec_records(lines, n)[k],
            ),
    decreases n,
{
    let prev = spec_records(lines, (n - 1) as nat);
    if k < prev.len() {
        lemma_records_come_from_lines(lines, (n - 1) as nat, k);
        let i = choose|i: int|
            0 <= i < n - 1 && is_data_line(i, lines[i]) && #[trigger] spec_record(lines[i]) == Some(
                prev[k],
            );
        assert(spec_records(lines, n)[k] == prev[k]);
    } else {
        let i = n - 1;
        assert(spec_record(lines[i]) == Some(spec_records(lines, n)[k]));
    }
}

/// A name read from a table neither starts nor ends with white space.
pub open spec fn name_is_trimmed(name: Seq<char>) -> bool {
    name.len() == 0 || (!is_white_space(name[0]) && !is_white_space(name.last()))
}

/// The record of one data line.
fn parse_record(line: &Vec<char>) -> (r: Option<PenguinRecord>)
    requires
        find_char(line@, ',') < line@.len(),
    ensures
        match r {
            Some(p) => spec_record(line@) == Some(record_view(p)),
            None => spec_record(line@) is None,
        },
        r matches Some(p) ==> p.name@ == spec_trim(spec_split(line@, ',')[0]),
{
    let parts = split_chars(line, ',');
    proof {
        lemma_split_nonempty(line@.skip(find_char(line@, ',') + 1 as int), ',');
    }
    assert(parts@.len() >= 2);
    let name = trim_chars(&parts[0]);
    let length_field = trim_chars(&parts[1]);
    assert(name@ == spec_fields(line@)[0]);
    assert(length_field@ == spec_fields(line@)[1]);
    match parse_u32_chars(&length_field) {
        Some(n) => Some(PenguinRecord { name: string_from_chars(&name), length_cm: n }),
        None => None,
    }
}

/// Reads every record of the table in `text`, in order.
pub fn parse_records(text: &str) -> (out: Vec<PenguinRecord>)
    requires
        every_data_line_has_comma(text@),
    ensures
        out@.map_values(|r: PenguinRecord| record_view(r)) == spec_records(
            spec_lines(text@),
            spec_lines(text@).len(),
        ),
        forall|k: int| 0 <= k < out@.len() ==> name_is_trimmed(#[trigger] out@[k].name@),
{
    let chars = chars_of(text);
    let lines = split_lines(&chars);
    let ghost ls = spec_lines(text@);
    let mut out: Vec<PenguinRecord> = Vec::new();
    for i in 0..lines.len()
        invariant
            views(lines@) == ls,
            ls == spec_lines(text@),
            every_data_line_has_comma(text@),
            out@.map_values(|r: PenguinRecord| record_view(r)) == spec_records(ls, i as nat),
    {
        let trimmed = trim_chars(&lines[i]);
        assert(lines@[i as int]@ == ls[i as int]);
        if i != 0 && trimmed.len() != 0 {
            assert(find_char(ls[i as int], ',') < ls[i as int].len());
            match parse_record(&lines[i]) {
                Some(r) => {
                    let ghost before = out@.map_values(|r: PenguinRecord| record_view(r));
                    out.push(r);
                    assert(out@.map_values(|r: PenguinRecord| record_view(r)) =~= before.push(
                        record_view(r),
                    ));
                },
                None => {},
            }
        }
    }
    proof {
        let ls = spec_lines(text@);
        assert forall|k: int| 0 <= k < out@.len() implies name_is_trimmed(#[trigger] out@[k].name@) by {
            assert(out@.map_values(|r: PenguinRecord| record_view(r))[k] == record_view(out@[k]));
            lemma_records_come_from_lines(ls, ls.len(), k);
            let i = choose|i: int|
                0 <= i < ls.len() && is_data_line(i, ls[i]) && #[trigger] spec_record(ls[i])
                    == Some(spec_records(ls, ls.len())[k]);
            lemma_record_fields(ls[i]);
        }
    }
    out
}


/// Whether `line` holds a comma.
fn has_comma(line: &Vec<char>) -> (b: bool)
    ensures
        b == (find_char(line@, ',') < line@.len()),
{
    let mut i: usize = 0;
    while i < line.len()
        invariant
            i <= line.len(),
            forall|j: int| 0 <= j < i ==> #[trigger] line@[j] != ',',
        decreases line.len() - i,
    {
        if line[i] == ',' {
            proof {
                lemma_prefix_len_is(line@, other_than(','), i as int);
            }
            return true;
        }
        i = i + 1;
    }
    proof {
        lemma_prefix_len_is(line@, other_than(','), line@.len() as int);
    }
    false
}

/// Whether every data line of `text` holds a comma, as `parse_records`
/// needs.
pub fn table_is_complete(text: &str) -> (b: bool)
    ensures
        b == every_data_line_has_comma(text@),
{
    let chars = chars_of(text);
    let lines = split_lines(&chars);
    let ghost ls = spec_lines(text@);
    for i in 0..lines.len()
        invariant
            views(lines@) == ls,
            ls == spec_lines(text@),
            forall|k: int|
                0 <= k < i && is_data_line(k, ls[k]) ==> find_char(#[trigger] ls[k], ',') < ls[k].len(),
    {
        assert(lines@[i as int]@ == ls[i as int]);
        let trimmed = trim_chars(&lines[i]);
        if i != 0 && trimmed.len() != 0 && !has_comma(&lines[i]) {
            return false;
        }
    }
    true
}


/// Line `k` of `lines` is a data line without a comma.
pub open spec fn incomplete_at(lines: Seq<Seq<char>>, k: int) -> bool {
    is_data_line(k, lines[k]) && find_char(lines[k], ',') >= lines[k].len()
}

/// Reads the records of `text` up to its first data line without a comma,
/// and gives that line's index; with no such line, reads every record.
pub fn parse_table(text: &str) -> (r: (Vec<PenguinRecord>, Option<usize>))
    ensures
        match r.1 {
            Some(k) => {
                &&& k < spec_lines(text@).len()
                &&& incomplete_at(spec_lines(text@), k as int)
                &&& forall|j: int| 0 <= j < k ==> !incomplete_at(spec_lines(text@), j)
                &&& r.0@.map_values(|p: PenguinRecord| record_view(p)) == spec_records(
                    spec_lines(text@),
                    k as nat,
                )
            },
            None => {
                &&& every_data_line_has_comma(text@)
                &&& r.0@.map_values(|p: PenguinRecord| record_view(p)) == spec_records(
                    spec_lines(text@),
                    spec_lines(text@).len(),
                )
            },
        },
{
    let chars = chars_of(text);
    let lines = split_lines(&chars);
    let ghost ls = spec_lines(text@);
    let mut out: Vec<PenguinRecord> = Vec::new();
    for i in 0..lines.len()
        invariant
            views(lines@) == ls,
            ls == spec_lines(text@),
            forall|j: int| 0 <= j < i ==> !incomplete_at(ls, j),
            out@.map_values(|r: PenguinRecord| record_view(r)) == spec_records(ls, i as nat),
    {
        let trimmed = trim_chars(&lines[i]);
        assert(lines@[i as int]@ == ls[i as int]);
        if i != 0 && trimmed.len() != 0 {
            if !has_comma(&lines[i]) {
                return (out, Some(i));
            }
            match parse_record(&lines[i]) {
                Some(r) => {
                    let ghost before = out@.map_values(|r: PenguinRecord| record_view(r));
                    out.push(r);
                    assert(out@.map_values(|r: PenguinRecord| record_view(r)) =~= before.push(
                        record_view(r),
                    ));
                },
                None => {},
            }
        }
    }
    assert forall|i: int|
        0 <= i < ls.len() && is_data_line(i, ls[i]) implies find_char(#[trigger] ls[i], ',')
        < ls[i].len() by {
        assert(!incomplete_at(ls, i));
    }
    (out, None)
}

} // verus!
