//! The file table of a multi-file archive, once inflated: entry records one
//! after the other, up to the last byte.
use crate::entry::{
    scan_multiple_files_entry, spec_raw_multiple_files_entry, spec_record_len, EntryView,
    RawEntryView, ThorEntry,
};
use crate::error::ThorError;
use crate::index::{entry_map, fold_entries, lemma_fold_entries, EntryIndex};
use crate::text::{string_from_win_1252, win_1252_text};
use vstd::prelude::*;

verus! {

/// The records that `s` is made of, before their paths are decoded. `None`
/// where `s` does not end with the end of a record.
pub open spec fn spec_raw_entries(s: Seq<u8>) -> Option<Seq<RawEntryView>>
    decreases s.len(),
{
    if s.len() == 0 {
        Some(Seq::empty())
    } else {
        match spec_raw_multiple_files_entry(s) {
            Ok((raw, consumed)) => match spec_raw_entries(s.skip(consumed as int)) {
                Some(tail) => Some(seq![raw] + tail),
                None => None,
            },
            Err(_) => None,
        }
    }
}

/// The entry that a record is once its path is text.
pub open spec fn spec_decoded_record(raw: RawEntryView) -> EntryView {
    EntryView {
        size_compressed: raw.size_compressed,
        size_decompressed: raw.size_decompressed,
        relative_path: win_1252_text(raw.relative_path),
        is_removed: raw.is_removed,
        offset: raw.offset,
    }
}

/// The entries that the records of the table `s` are, in the order of the
/// table. `None` where the table is empty or does not end with the end of a
/// record.
pub open spec fn spec_entry_table(s: Seq<u8>) -> Option<Seq<EntryView>> {
    if s.len() == 0 {
        None
    } else {
        match spec_raw_entries(s) {
            Some(raws) => Some(Seq::new(raws.len(), |i: int| spec_decoded_record(raws[i]))),
            None => None,
        }
    }
}

/// The number of bytes that the records take together.
pub open spec fn spec_records_len(raws: Seq<RawEntryView>) -> nat
    decreases raws.len(),
{
    if raws.len() == 0 {
        0
    } else {
        spec_record_len(raws.first()) + spec_records_len(raws.drop_first())
    }
}

/// A table that is made of records is used up by them exactly: their
/// lengths add up to the length of the table, with no byte left over and
/// none missing.
pub proof fn lemma_entry_table_consumed_exactly(s: Seq<u8>)
    requires
        spec_raw_entries(s) is Some,
    ensures
        spec_records_len(spec_raw_entries(s)->0) == s.len(),
    decreases s.len(),
{
    if s.len() > 0 {
        let (raw, consumed) = spec_raw_multiple_files_entry(s)->Ok_0;
        let tail = spec_raw_entries(s.skip(consumed as int))->0;
        lemma_entry_table_consumed_exactly(s.skip(consumed as int));
        assert((seq![raw] + tail).drop_first() =~= tail);
    }
}

/// A table decodes exactly when it is not empty and its records use it up;
/// it then has one entry for each record.
pub proof fn lemma_entry_table_is_whole_records(s: Seq<u8>)
    ensures
        spec_entry_table(s) is Some <==> s.len() > 0 && spec_raw_entries(s) is Some,
        spec_entry_table(s) is Some ==> {
            &&& spec_entry_table(s)->0.len() == spec_raw_entries(s)->0.len()
            &&& spec_records_len(spec_raw_entries(s)->0) == s.len()
        },
{
    if spec_raw_entries(s) is Some {
        lemma_entry_table_consumed_exactly(s);
    }
}

/// Reads a whole file table into an index. A record whose path is already
/// listed replaces the earlier one.
///
/// A table that is empty or is not used up by its records is
/// `UnparseableEntryTable`. A path that the decoder refused would be
/// `DecodingFailure`; the decoder refuses none.
pub fn parse_multiple_files_entries(table: &[u8]) -> (r: Result<EntryIndex, ThorError>)
    ensures
        match r {
            Ok(index) => {
                &&& spec_entry_table(table@) matches Some(records)
                &&& index.listing() == fold_entries(records)
                &&& index@ == entry_map(records)
            },
            Err(e) => e == ThorError::UnparseableEntryTable && spec_entry_table(table@) is None,
        },
{
    if table.len() == 0 {
        return Err(ThorError::UnparseableEntryTable);
    }
    let mut index = EntryIndex::new();
    let mut rest: &[u8] = table;
    let ghost mut raws: Seq<RawEntryView> = Seq::empty();
    let ghost mut records: Seq<EntryView> = Seq::empty();
    proof {
        assert(raws + spec_raw_entries(table@)->0 =~= spec_raw_entries(table@)->0);
    }
    while rest.len() > 0
        invariant
            table@.len() > 0,
            spec_raw_entries(table@) == match spec_raw_entries(rest@) {
                Some(tail) => Some(raws + tail),
                None => None,
            },
            raws.len() == records.len(),
            forall|i: int|
                0 <= i < raws.len() ==> spec_decoded_record(#[trigger] raws[i]) == records[i],
            index.listing() == fold_entries(records),
        decreases rest@.len(),
    {
        let ghost before = rest@;
        let (next, raw) = match scan_multiple_files_entry(rest) {
            Ok(scanned) => scanned,
            Err(_) => {
                return Err(ThorError::UnparseableEntryTable);
            },
        };
        let path = string_from_win_1252(raw.relative_path);
        let entry = ThorEntry::from_raw(raw, path)?;
        proof {
            if spec_raw_entries(next@) is Some {
                let tail = spec_raw_entries(next@)->0;
                assert(raws + (seq![raw@] + tail) =~= raws.push(raw@) + tail);
            }
            assert(records.push(entry@).drop_last() =~= records);
            raws = raws.push(raw@);
            records = records.push(entry@);
        }
        index.insert(entry);
        rest = next;
    }
    proof {
        assert(raws + Seq::<RawEntryView>::empty() =~= raws);
        assert(records =~= Seq::new(raws.len(), |i: int| spec_decoded_record(raws[i])));
        lemma_fold_entries(records);
    }
    Ok(index)
}

} // verus!
