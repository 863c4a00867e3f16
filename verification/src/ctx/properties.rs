//! Properties text: records of the form `key=value`, one to a line or with
//! another separator between them, with comments and blank records.

use crate::utils::text::{
    chars_of, find, lemma_position, lemma_position_is, position, split, split_ranges, text_of,
    trim, trim_bounds,
};
use vstd::hash_map::StringHashMap;
use vstd::prelude::*;

verus! {

/// The texts of the values of a property map, key by key.
pub open spec fn texts(properties: Map<Seq<char>, String>) -> Map<Seq<char>, Seq<char>> {
    Map::new(|key: Seq<char>| properties.contains_key(key), |key: Seq<char>| properties[key]@)
}

/// The key and value that one record of properties text gives, if any. The
/// record is trimmed first. An empty record, a comment (one that starts with
/// `#`) and a record without `=` give nothing. Otherwise the key is what
/// stands before the first `=` and the value is all that follows it,
/// trimmed, so that a value may hold `=`.
pub open spec fn record_entry(record: Seq<char>) -> Option<(Seq<char>, Seq<char>)> {
    let line = trim(record);
    let cut = position(line, '=');
    if line.len() == 0 || line.first() == '#' || cut >= line.len() {
        None
    } else {
        Some((line.take(cut as int), trim(line.skip(cut as int + 1))))
    }
}

/// The property map that a list of records gives: the entries of the
/// records, where a later record overwrites an earlier one with the same
/// key.
pub open spec fn properties_of_records(records: Seq<Seq<char>>) -> Map<Seq<char>, Seq<char>>
    decreases records.len(),
{
    if records.len() == 0 {
        Map::empty()
    } else {
        let earlier = properties_of_records(records.drop_last());
        match record_entry(records.last()) {
            Some((key, value)) => earlier.insert(key, value),
            None => earlier,
        }
    }
}

/// The property map that properties text gives when its records are
/// separated by `separator`.
pub open spec fn properties_of(text: Seq<char>, separator: char) -> Map<Seq<char>, Seq<char>> {
    properties_of_records(split(text, separator))
}

/// A record that is empty once trimmed, or starts with `#` then, gives no
/// entry.
pub proof fn lemma_blank_or_comment_is_skipped(record: Seq<char>)
    requires
        trim(record).len() == 0 || trim(record).first() == '#',
    ensures
        record_entry(record) is None,
{
}

/// A record that holds no `=` gives no entry.
pub proof fn lemma_record_without_equals_is_skipped(record: Seq<char>)
    requires
        !trim(record).contains('='),
    ensures
        record_entry(record) is None,
{
    lemma_position(trim(record), '=');
}

/// A record without whitespace at its ends, which is no comment and whose
/// key holds no `=`, gives that key and all that follows the first `=`,
/// trimmed.
pub proof fn lemma_record_with_equals(key: Seq<char>, rest: Seq<char>)
    requires
        !key.contains('='),
        trim(key + seq!['='] + rest) == key + seq!['='] + rest,
        key.len() == 0 || key.first() != '#',
    ensures
        record_entry(key + seq!['='] + rest) == Some((key, trim(rest))),
{
    let line = key + seq!['='] + rest;
    lemma_position_is(line, '=', key.len() as int);
    assert(line.skip(key.len() as int + 1) =~= rest);
}

/// A later record overwrites what earlier records gave for its key, and
/// leaves every other key as it was.
pub proof fn lemma_last_record_wins(
    records: Seq<Seq<char>>,
    record: Seq<char>,
    key: Seq<char>,
    value: Seq<char>,
)
    requires
        record_entry(record) == Some((key, value)),
    ensures
        properties_of_records(records.push(record)) == properties_of_records(records).insert(
            key,
            value,
        ),
{
    assert(records.push(record).drop_last() =~= records);
}

/// Decodes properties text whose records are separated by `separator`.
/// Records are trimmed; empty records, records that start with `#` and
/// records without `=` are left out; a value may hold `=`; of two records
/// with the same key the later one counts. Neither keys nor values are
/// checked.
pub fn decode_properties(content: &str, separator: char) -> (properties: StringHashMap<String>)
    ensures
        texts(properties@) == properties_of(content@, separator),
{
    let v = chars_of(content);
    let n = v.len();
    assert(v@.subrange(0, n as int) =~= v@);
    let pieces = split_ranges(&v, 0, n, separator);
    let ghost records = split(content@, separator);
    let mut properties: StringHashMap<String> = StringHashMap::new();
    let mut i: usize = 0;
    while i < pieces.len()
        invariant
            i <= pieces.len(),
            n == v.len(),
            v@ == content@,
            records == split(content@, separator),
            pieces@.len() == records.len(),
            forall|k: int|
                0 <= k < pieces@.len() ==> (#[trigger] pieces@[k]).0 <= pieces@[k].1 <= n,
            forall|k: int|
                0 <= k < pieces@.len() ==> v@.subrange(
                    (#[trigger] pieces@[k]).0 as int,
                    pieces@[k].1 as int,
                ) == records[k],
            texts(properties@) == properties_of_records(records.take(i as int)),
        decreases pieces.len() - i,
    {
        let piece = pieces[i];
        let (start, end) = trim_bounds(&v, piece.0, piece.1);
        let ghost line = v@.subrange(start as int, end as int);
        proof {
            assert(records.take(i + 1).drop_last() =~= records.take(i as int));
        }
        if start < end && v[start] != '#' {
            let cut = find(&v, start, end, '=');
            if cut < end {
                let (from, to) = trim_bounds(&v, cut + 1, end);
                let key = text_of(&v, start, cut);
                let value = text_of(&v, from, to);
                proof {
                    assert(line.skip(cut - start + 1) =~= v@.subrange(cut + 1, end as int));
                    assert(record_entry(records[i as int]) == Some((key@, value@)));
                }
                properties.insert(key, value);
            }
        }
        i += 1;
    }
    assert(records.take(i as int) =~= records);
    properties
}

} // verus!
