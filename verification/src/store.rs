//! The record store as a list of files: which of them are link files of this
//! library, and which records they hold.

use vstd::prelude::*;
use crate::link::{spec_from_link_file, spec_is_link_file_name, LinkConfig, NamingRecord};

verus! {

/// A file of the record store: its name and its text.
#[derive(Debug, PartialEq, Eq)]
pub struct LinkFile {
    pub file_name: String,
    pub content: String,
}

/// A file of the record store as contracts see it.
pub struct LinkFileView {
    pub file_name: Seq<char>,
    pub content: Seq<char>,
}

impl View for LinkFile {
    type V = LinkFileView;

    open spec fn view(&self) -> LinkFileView {
        LinkFileView { file_name: self.file_name@, content: self.content@ }
    }
}

impl DeepView for LinkFile {
    type V = LinkFileView;

    open spec fn deep_view(&self) -> LinkFileView {
        self@
    }
}

/// The records that a list of files holds, and the files that hold none.
#[derive(Debug, PartialEq, Eq)]
pub struct RecordListing {
    /// The records, in the order of their files.
    pub records: Vec<LinkConfig>,
    /// The places in the list of the files that were passed over.
    pub skipped: Vec<usize>,
}

/// Whether a file yields a record: it is named as a link file of this library
/// and its text holds a record.
pub open spec fn spec_yields_record(file: LinkFileView) -> bool {
    spec_is_link_file_name(file.file_name) && spec_from_link_file(file.content) is Ok
}

/// The records of the files that yield one, in the order of the files.
pub open spec fn spec_records(files: Seq<LinkFileView>) -> Seq<NamingRecord>
    decreases files.len(),
{
    if files.len() == 0 {
        Seq::empty()
    } else if spec_yields_record(files.last()) {
        spec_records(files.drop_last()).push(spec_from_link_file(files.last().content)->Ok_0)
    } else {
        spec_records(files.drop_last())
    }
}

/// The places of the files that yield no record, in rising order.
pub open spec fn spec_skipped(files: Seq<LinkFileView>) -> Seq<usize>
    decreases files.len(),
{
    if files.len() == 0 {
        Seq::empty()
    } else if spec_yields_record(files.last()) {
        spec_skipped(files.drop_last())
    } else {
        spec_skipped(files.drop_last()).push((files.len() - 1) as usize)
    }
}

/// Reads the records out of the files of the store. A file that is not named
/// as a link file of this library, or whose text holds no record, is passed
/// over: it does not stand in the way of the others.
pub fn list_records(files: &Vec<LinkFile>) -> (listing: RecordListing)
    ensures
        listing.records.deep_view() == spec_records(files.deep_view()),
        listing.skipped@ == spec_skipped(files.deep_view()),
{
    let mut records: Vec<LinkConfig> = Vec::new();
    let mut skipped: Vec<usize> = Vec::new();
    let ghost all = files.deep_view();
    proof {
        assert(records.deep_view() =~= spec_records(all.take(0)));
    }
    let mut i: usize = 0;
    while i < files.len()
        invariant
            i <= files.len(),
            all == files.deep_view(),
            records.deep_view() == spec_records(all.take(i as int)),
            skipped@ == spec_skipped(all.take(i as int)),
        decreases files.len() - i,
    {
        let file = &files[i];
        let ghost before = records.deep_view();
        proof {
            assert(all.take(i + 1).drop_last() =~= all.take(i as int));
            assert(all.take(i + 1).last() == file@);
        }
        let mut taken = false;
        if LinkConfig::is_link_file_name(file.file_name.as_str()) {
            if let Ok(record) = LinkConfig::from_link_file(file.content.as_str()) {
                records.push(record);
                taken = true;
                proof {
                    assert(records.deep_view() =~= before.push(record@));
                }
            }
        }
        if !taken {
            skipped.push(i);
        }
        i += 1;
    }
    proof {
        assert(all.take(i as int) =~= all);
    }
    RecordListing { records, skipped }
}

} // verus!
