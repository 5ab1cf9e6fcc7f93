//! Manifests: CSV files that hold one key in each record.

use crate::task;
use crate::text::{chars_of, same_text};
use crate::tool_error::{ToolError, ToolErrorView};
use vstd::prelude::*;

verus! {

/// What the `csv` crate reads from a file, with its default settings and with or without a first
/// record that holds the names of the columns: the fields of each record, or the message of the
/// error that it reports in the record's place.
pub uninterp spec fn csv_records(content: Seq<u8>, has_header: bool) -> Seq<
    Result<Seq<Seq<char>>, Seq<char>>,
>;

/// A record that was read, as the contracts see it.
pub open spec fn record_view(record: Result<Vec<String>, String>) -> Result<
    Seq<Seq<char>>,
    Seq<char>,
> {
    match record {
        Ok(fields) => Ok(fields.deep_view()),
        Err(error) => Err(error@),
    }
}

/// Records that were read, as the contracts see them.
pub open spec fn records_view(records: Seq<Result<Vec<String>, String>>) -> Seq<
    Result<Seq<Seq<char>>, Seq<char>>,
> {
    records.map_values(|record| record_view(record))
}

/// Calls `csv::ReaderBuilder::from_reader` on a file's content, with `has_headers` set as asked
/// for, and `into_records` on the reader. The result is a function of the content and of that
/// setting. Each record comes as its fields, and each error as its message.
#[verifier::external_body]
fn read_csv(content: &[u8], has_header: bool) -> (records: Vec<Result<Vec<String>, String>>)
    ensures
        records_view(records@) == csv_records(content@, has_header),
{
    csv::ReaderBuilder::new()
        .has_headers(has_header)
        .from_reader(content)
        .into_records()
        .map(|record| match record {
            Ok(fields) => Ok(fields.iter().map(str::to_owned).collect()),
            Err(error) => Err(error.to_string()),
        })
        .collect()
}

/// Every record that could be read has the column.
pub open spec fn have_column(
    records: Seq<Result<Seq<Seq<char>>, Seq<char>>>,
    column_index: int,
) -> bool {
    forall|i: int|
        0 <= i < records.len() ==> (#[trigger] records[i] matches Ok(fields) ==> column_index
            < fields.len())
}

/// The key in a record: the field of a column, or why the record could not be read.
pub open spec fn record_key(
    record: Result<Seq<Seq<char>>, Seq<char>>,
    column_index: int,
) -> Result<Seq<char>, ToolErrorView> {
    match record {
        Ok(fields) => Ok(fields[column_index]),
        Err(error) => Err(ToolErrorView::Manifest(error)),
    }
}

/// The keys in records, one for each of them.
pub open spec fn record_keys(
    records: Seq<Result<Seq<Seq<char>>, Seq<char>>>,
    column_index: int,
) -> Seq<Result<Seq<char>, ToolErrorView>> {
    records.map_values(|record| record_key(record, column_index))
}

/// A key or why there is none, as the contracts see it.
pub open spec fn key_view(key: Result<String, ToolError>) -> Result<Seq<char>, ToolErrorView> {
    match key {
        Ok(key) => Ok(key@),
        Err(e) => Err(e@),
    }
}

/// Keys, as the contracts see them.
pub open spec fn keys_view(keys: Seq<Result<String, ToolError>>) -> Seq<
    Result<Seq<char>, ToolErrorView>,
> {
    keys.map_values(|key| key_view(key))
}

/// The keys in a column of records.
pub fn select_keys(records: &Vec<Result<Vec<String>, String>>, column_index: usize) -> (keys: Vec<
    Result<String, ToolError>,
>)
    requires
        have_column(records_view(records@), column_index as int),
    ensures
        keys_view(keys@) == record_keys(records_view(records@), column_index as int),
{
    let mut keys: Vec<Result<String, ToolError>> = Vec::new();
    let ghost views = records_view(records@);
    let mut i: usize = 0;
    while i < records.len()
        invariant
            i <= records@.len(),
            views == records_view(records@),
            have_column(views, column_index as int),
            keys@.len() == i,
            forall|k: int|
                0 <= k < i ==> key_view(#[trigger] keys@[k]) == record_key(
                    views[k],
                    column_index as int,
                ),
        decreases records@.len() - i,
    {
        assert(views[i as int] == record_view(records@[i as int]));
        match &records[i] {
            Ok(fields) => {
                keys.push(Ok(fields[column_index].clone()));
            },
            Err(error) => {
                keys.push(Err(ToolError::Manifest(error.clone())));
            },
        }
        i = i + 1;
    }
    assert(keys_view(keys@) =~= record_keys(views, column_index as int));
    keys
}

/// Whether every record that could be read has the column.
fn check_column(records: &Vec<Result<Vec<String>, String>>, column_index: usize) -> (has: bool)
    ensures
        has == have_column(records_view(records@), column_index as int),
{
    let ghost views = records_view(records@);
    let mut i: usize = 0;
    while i < records.len()
        invariant
            i <= records@.len(),
            views == records_view(records@),
            forall|k: int|
                0 <= k < i ==> (#[trigger] views[k] matches Ok(fields) ==> column_index
                    < fields.len()),
        decreases records@.len() - i,
    {
        assert(views[i as int] == record_view(records@[i as int]));
        match &records[i] {
            Ok(fields) => {
                if fields.len() <= column_index {
                    return false;
                }
            },
            Err(_) => {},
        }
        i = i + 1;
    }
    true
}

/// The keys in a column of a manifest. The column, counted from 0, has to be there.
pub fn get_keys_from_csv(content: &[u8], column_index: usize, has_header: bool) -> (keys: Vec<
    Result<String, ToolError>,
>)
    requires
        have_column(csv_records(content@, has_header), column_index as int),
    ensures
        keys_view(keys@) == record_keys(csv_records(content@, has_header), column_index as int),
{
    let records = read_csv(content, has_header);
    select_keys(&records, column_index)
}

/// The keys in a column of a manifest, or `None` if a record has no such column.
pub fn find_keys_in_csv(content: &[u8], column_index: usize, has_header: bool) -> (keys: Option<
    Vec<Result<String, ToolError>>,
>)
    ensures
        match keys {
            Some(keys) => have_column(csv_records(content@, has_header), column_index as int)
                && keys_view(keys@) == record_keys(
                csv_records(content@, has_header),
                column_index as int,
            ),
            None => !have_column(csv_records(content@, has_header), column_index as int),
        },
{
    let records = read_csv(content, has_header);
    if check_column(&records, column_index) {
        Some(get_keys_from_csv(content, column_index, has_header))
    } else {
        None
    }
}

/// The number of line ends in a text.
pub open spec fn line_ends(content: Seq<u8>) -> nat
    decreases content.len(),
{
    if content.len() == 0 {
        0
    } else {
        line_ends(content.drop_last()) + if content.last() == 10 {
            1nat
        } else {
            0nat
        }
    }
}

/// The number of lines of a text. What follows the last line end is a line, unless it is empty.
pub open spec fn line_count(content: Seq<u8>) -> nat {
    line_ends(content) + if content.len() > 0 && content.last() != 10 {
        1nat
    } else {
        0nat
    }
}

/// A text has at most as many lines as bytes.
proof fn lemma_line_count(content: Seq<u8>)
    ensures
        line_ends(content) <= content.len(),
        line_count(content) <= content.len(),
    decreases content.len(),
{
    if content.len() > 0 {
        lemma_line_count(content.drop_last());
    }
}

/// The number of lines of a file.
pub fn get_line_count(content: &[u8]) -> (count: usize)
    ensures
        count == line_count(content@),
{
    let length: usize = content.len();
    let mut count: usize = 0;
    let mut i: usize = 0;
    while i < length
        invariant
            i <= length == content@.len(),
            count <= i,
            count == line_ends(content@.take(i as int)),
        decreases length - i,
    {
        assert(content@.take(i as int + 1).drop_last() =~= content@.take(i as int));
        if content[i] == 10 {
            count = count + 1;
        }
        i = i + 1;
    }
    assert(content@.take(i as int) =~= content@);
    proof {
        lemma_line_count(content@);
    }
    if length > 0 && content[length - 1] != 10 {
        count = count + 1;
    }
    count
}

/// How many keys a manifest is taken to hold, by its lines.
pub fn key_count(content: &[u8], has_header: bool) -> (count: u64)
    ensures
        count == (if has_header && line_count(content@) > 0 {
            line_count(content@) - 1
        } else {
            line_count(content@) as int
        }),
{
    let lines: usize = get_line_count(content);
    if has_header && lines > 0 {
        lines as u64 - 1
    } else {
        lines as u64
    }
}

/// How a manifest names an object, given the prefix and suffix that its keys are completed with:
/// by what stands between them. An object whose key lacks one of them has no name there.
pub open spec fn relative_key(key: Seq<char>, prefix: Seq<char>, suffix: Seq<char>) -> Option<
    Seq<char>,
> {
    if prefix.len() + suffix.len() <= key.len() && key.take(prefix.len() as int) == prefix
        && key.skip(key.len() - suffix.len()) == suffix {
        Some(key.subrange(prefix.len() as int, key.len() - suffix.len()))
    } else {
        None
    }
}

/// How a manifest names an object.
pub fn manifest_key(key: &str, prefix: &str, suffix: &str) -> (name: Option<String>)
    ensures
        name.deep_view() == relative_key(key@, prefix@, suffix@),
{
    let length: usize = chars_of(key).len();
    let start: usize = chars_of(prefix).len();
    let rest: usize = chars_of(suffix).len();
    if length < start || length - start < rest {
        return None;
    }
    let end: usize = length - rest;
    let head = key.substring_char(0, start);
    let tail = key.substring_char(end, length);
    assert(head@ =~= key@.take(start as int));
    assert(tail@ =~= key@.skip(end as int));
    if same_text(head, prefix) && same_text(tail, suffix) {
        Some(key.substring_char(start, end).to_owned())
    } else {
        None
    }
}

/// A batch that completes the names in a manifest with the prefix and suffix that they were made
/// with works on the objects that were named.
pub proof fn lemma_manifest_names_objects(
    key: Seq<char>,
    prefix: String,
    suffix: String,
    name: Seq<char>,
)
    ensures
        relative_key(key, prefix@, suffix@) == Some(name) <==> task::full_key(prefix, name, suffix)
            == key,
{
    let whole = task::full_key(prefix, name, suffix);
    if relative_key(key, prefix@, suffix@) == Some(name) {
        assert(key.take(prefix@.len() as int) + name + key.skip(key.len() - suffix@.len()) =~= key);
    }
    if whole == key {
        assert(whole.take(prefix@.len() as int) =~= prefix@);
        assert(whole.skip(whole.len() - suffix@.len()) =~= suffix@);
        assert(whole.subrange(prefix@.len() as int, whole.len() - suffix@.len()) =~= name);
    }
}

/// A manifest gives one key for each of its records, in order: the field of the column, or the error
/// that stands in the record's place.
pub proof fn lemma_keys_are_the_fields_of_the_column(
    records: Seq<Result<Seq<Seq<char>>, Seq<char>>>,
    column_index: int,
)
    ensures
        record_keys(records, column_index).len() == records.len(),
        forall|i: int|
            0 <= i < records.len() ==> match (
                #[trigger] records[i],
                record_keys(records, column_index)[i],
            ) {
                (Ok(fields), Ok(key)) => key == fields[column_index],
                (Err(error), Err(ToolErrorView::Manifest(reported))) => reported == error,
                _ => false,
            },
{
}

/// What is put between a prefix and a suffix is how a manifest names the object, and every name that
/// a manifest gives an object is put between them.
pub proof fn lemma_names_stand_between_prefix_and_suffix(
    key: Seq<char>,
    prefix: Seq<char>,
    suffix: Seq<char>,
    name: Seq<char>,
)
    ensures
        relative_key(prefix + name + suffix, prefix, suffix) == Some(name),
        relative_key(key, prefix, suffix) matches Some(found) ==> key == prefix + found + suffix,
        relative_key(key, prefix, suffix) is None ==> key != prefix + name + suffix,
{
    let whole = prefix + name + suffix;
    assert(whole.take(prefix.len() as int) =~= prefix);
    assert(whole.skip(whole.len() - suffix.len()) =~= suffix);
    assert(whole.subrange(prefix.len() as int, whole.len() - suffix.len()) =~= name);
    if let Some(found) = relative_key(key, prefix, suffix) {
        assert(key.take(prefix.len() as int) + found + key.skip(key.len() - suffix.len()) =~= key);
    }
}

/// A line that follows on whole lines makes one line more, with a line end behind it or without, and
/// a file without bytes has no line.
pub proof fn lemma_every_line_counts_once(lines: Seq<u8>, line: Seq<u8>)
    requires
        lines.len() == 0 || lines.last() == 10,
        !line.contains(10),
    ensures
        line_count(lines + line + seq![10u8]) == line_count(lines) + 1,
        line.len() > 0 ==> line_count(lines + line) == line_count(lines) + 1,
        line_count(Seq::empty()) == 0,
{
    lemma_line_ends_of_line(lines, line);
    let whole = lines + line + seq![10u8];
    assert(whole.drop_last() =~= lines + line);
    if line.len() > 0 {
        assert((lines + line).last() == line.last());
        assert(line.contains(line.last()));
    }
}

/// A line without its end adds no line end.
proof fn lemma_line_ends_of_line(lines: Seq<u8>, line: Seq<u8>)
    requires
        !line.contains(10),
    ensures
        line_ends(lines + line) == line_ends(lines),
    decreases line.len(),
{
    if line.len() == 0 {
        assert(lines + line =~= lines);
    } else {
        let before = line.drop_last();
        assert forall|i: int| 0 <= i < before.len() implies before[i] != 10 by {
            assert(line.contains(line[i]));
        }
        assert((lines + line).drop_last() =~= lines + before);
        assert((lines + line).last() == line.last());
        assert(line.contains(line.last()));
        lemma_line_ends_of_line(lines, before);
    }
}

} // verus!
