//! The running index: one entry for each document that was written, added
//! to a file beside the output directory.

use vstd::prelude::*;
use vstd::string::*;
use crate::process::{ProcessedItem, ProcessedItemView};

verus! {

/// The entry of one document: a heading that links to its file, and a
/// drawer with the address of the page and the times of the record; then an
/// empty line.
pub open spec fn entry_text(item: ProcessedItemView) -> Seq<char> {
    "** [[file:"@ + item.dir + "/"@ + item.file_name + "]["@ + item.title
        + "]]\n:PROPERTIES:\n:URL: [["@ + item.url + "][url]]\n:CREATED_AT: "@
        + item.record.created.text() + "\n:MODIFIED_ON: "@ + item.record.modified.text()
        + "\n:END:\n\n"@
}

/// The entries of the items in their order, with a line feed between one
/// entry and the next.
pub open spec fn index_text(items: Seq<ProcessedItem>) -> Seq<char>
    decreases items.len(),
{
    if items.len() == 0 {
        Seq::empty()
    } else if items.len() == 1 {
        entry_text(items[0]@)
    } else {
        index_text(items.drop_last()) + "\n"@ + entry_text(items.last()@)
    }
}

/// The name of the index file of an output directory: the directory's own
/// name with the extension of the documents, so that it lies beside it.
pub open spec fn index_file_name_of(dir: Seq<char>) -> Seq<char> {
    dir + ".org"@
}

/// Writes the entry of one document.
pub fn format_entry(item: &ProcessedItem) -> (out: String)
    ensures
        out@ == entry_text(item@),
{
    let mut out = String::new();
    out.append("** [[file:");
    out.append(item.dir.as_str());
    out.append("/");
    out.append(item.file_name.as_str());
    out.append("][");
    out.append(item.title.as_str());
    out.append("]]\n:PROPERTIES:\n:URL: [[");
    out.append(item.url.as_str());
    out.append("][url]]\n:CREATED_AT: ");
    let created = item.record.created.to_text();
    out.append(created.as_str());
    out.append("\n:MODIFIED_ON: ");
    let modified = item.record.modified.to_text();
    out.append(modified.as_str());
    out.append("\n:END:\n\n");
    assert(out@ =~= entry_text(item@));
    out
}

/// Writes what one run adds to the index: the entries of its documents.
/// Nothing for a run without documents.
pub fn format_entries(items: &Vec<ProcessedItem>) -> (out: String)
    ensures
        out@ == index_text(items@),
{
    let n = items.len();
    let mut out = String::new();
    let mut i: usize = 0;
    proof {
        assert(items@.take(0) =~= Seq::<ProcessedItem>::empty());
    }
    while i < n
        invariant
            n == items@.len(),
            0 <= i <= n,
            out@ == index_text(items@.take(i as int)),
        decreases n - i,
    {
        proof {
            assert(items@.take(i as int + 1).drop_last() =~= items@.take(i as int));
            assert(items@.take(i as int + 1).last() == items@[i as int]);
            assert(items@.take(i as int + 1)[0] == items@[0]);
        }
        if i > 0 {
            out.append("\n");
        }
        let entry = format_entry(&items[i]);
        out.append(entry.as_str());
        assert(out@ =~= index_text(items@.take(i as int + 1)));
        i = i + 1;
    }
    proof {
        assert(items@.take(n as int) =~= items@);
    }
    out
}

/// The name of the index file of an output directory.
pub fn index_file_name(dir: &str) -> (name: String)
    ensures
        name@ == index_file_name_of(dir@),
{
    let mut name = dir.to_owned();
    name.append(".org");
    name
}

} // verus!
