//! Formatting directory entries into fixed-width listing records.
//!
//! One entry becomes one text record, `\r\n`-terminated. Entries whose
//! metadata lookup failed, or whose name could not be decoded, are
//! represented as absent and contribute no record at all.

use vstd::prelude::*;
use crate::numeric::{dec_digits, u64_to_string};

verus! {

/// What one directory entry's metadata reduces to for the listing:
/// the displayed name, the directory and read-only flags, the byte
/// size, and the modification time's components as the platform
/// reports them.
pub struct DirectoryEntry {
    pub name: String,
    pub is_dir: bool,
    pub is_readonly: bool,
    pub size: u64,
    pub month: u8,
    pub day: u8,
    pub hour: u8,
    pub minute: u8,
}

/// The mathematical shape of a directory entry.
pub ghost struct SpecEntry {
    pub name: Seq<char>,
    pub is_dir: bool,
    pub is_readonly: bool,
    pub size: u64,
    pub month: u8,
    pub day: u8,
    pub hour: u8,
    pub minute: u8,
}

impl View for DirectoryEntry {
    type V = SpecEntry;

    open spec fn view(&self) -> SpecEntry {
        SpecEntry {
            name: self.name@,
            is_dir: self.is_dir,
            is_readonly: self.is_readonly,
            size: self.size,
            month: self.month,
            day: self.day,
            hour: self.hour,
            minute: self.minute,
        }
    }
}

impl DeepView for DirectoryEntry {
    type V = SpecEntry;

    open spec fn deep_view(&self) -> SpecEntry {
        self.view()
    }
}

/// The one record an entry produces: type flag, rights, a fixed link
/// count and owner, the size, the time components, and the name with a
/// trailing slash for directories.
pub open spec fn entry_record(e: SpecEntry) -> Seq<char> {
    (if e.is_dir {
        "d"@
    } else {
        "-"@
    }) + " "@ + (if e.is_readonly {
        "r--r--r--"@
    } else {
        "rw-rw-rw-"@
    }) + "  1  anonymous anonymous  "@ + dec_digits(e.size as nat) + "  "@ + dec_digits(
        e.month as nat,
    ) + " "@ + dec_digits(e.day as nat) + " "@ + dec_digits(e.hour as nat) + ":"@ + dec_digits(
        e.minute as nat,
    ) + "  "@ + e.name + (if e.is_dir {
        "/"@
    } else {
        Seq::<char>::empty()
    }) + "\r\n"@
}

/// Formats one directory entry as its listing record.
pub fn format_entry(e: &DirectoryEntry) -> (s: String)
    ensures
        s@ == entry_record(e@),
{
    let mut s = String::new();
    s.append(if e.is_dir {
        "d"
    } else {
        "-"
    });
    s.append(" ");
    s.append(if e.is_readonly {
        "r--r--r--"
    } else {
        "rw-rw-rw-"
    });
    s.append("  1  anonymous anonymous  ");
    let size = u64_to_string(e.size);
    s.append(size.as_str());
    s.append("  ");
    let month = u64_to_string(e.month as u64);
    s.append(month.as_str());
    s.append(" ");
    let day = u64_to_string(e.day as u64);
    s.append(day.as_str());
    s.append(" ");
    let hour = u64_to_string(e.hour as u64);
    s.append(hour.as_str());
    s.append(":");
    let minute = u64_to_string(e.minute as u64);
    s.append(minute.as_str());
    s.append("  ");
    s.append(e.name.as_str());
    if e.is_dir {
        s.append("/");
    }
    s.append("\r\n");
    proof {
        assert(s@ =~= entry_record(e@));
    }
    s
}

/// Index right after the last `/` of a path, or zero when it has none.
pub open spec fn seg_start(s: Seq<char>) -> int
    decreases s.len(),
{
    if s.len() == 0 {
        0
    } else if s[s.len() - 1] == '/' {
        s.len() as int
    } else {
        seg_start(s.drop_last())
    }
}

/// The final path segment: the text after the last `/`.
pub open spec fn spec_last_segment(s: Seq<char>) -> Seq<char> {
    s.subrange(seg_start(s), s.len() as int)
}

pub proof fn lemma_seg_start_unique(s: Seq<char>, i: int)
    requires
        0 <= i <= s.len(),
        i > 0 ==> s[i - 1] == '/',
        forall|j: int| i <= j < s.len() ==> s[j] != '/',
    ensures
        seg_start(s) == i,
    decreases s.len(),
{
    if s.len() == 0 {
    } else if s[s.len() - 1] == '/' {
        assert(i == s.len());
    } else {
        assert(i < s.len());
        let t = s.drop_last();
        assert forall|j: int| i <= j < t.len() implies t[j] != '/' by {
            assert(s[j] != '/');
        }
        lemma_seg_start_unique(t, i);
    }
}

/// The displayed name of a path: its final segment.
pub fn last_segment(path: &str) -> (r: String)
    ensures
        r@ == spec_last_segment(path@),
{
    let len = path.unicode_len();
    let mut start: usize = 0;
    let mut idx: usize = 0;
    while idx < len
        invariant
            idx <= len == path@.len(),
            start <= idx,
            start > 0 ==> path@[start - 1] == '/',
            forall|j: int| start <= j < idx ==> path@[j] != '/',
        decreases len - idx,
    {
        if path.get_char(idx) == '/' {
            start = idx + 1;
        }
        idx += 1;
    }
    proof {
        lemma_seg_start_unique(path@, start as int);
    }
    let seg = path.substring_char(start, len);
    String::from_str(seg)
}

/// The whole listing: the records of the present entries, in order,
/// concatenated; absent entries contribute nothing.
pub open spec fn listing_of(entries: Seq<Option<SpecEntry>>) -> Seq<char>
    decreases entries.len(),
{
    if entries.len() == 0 {
        Seq::empty()
    } else {
        listing_of(entries.drop_last()) + (match entries.last() {
            Some(e) => entry_record(e),
            None => Seq::empty(),
        })
    }
}

/// How many entries are present (their metadata lookup succeeded).
pub open spec fn count_present(entries: Seq<Option<SpecEntry>>) -> int
    decreases entries.len(),
{
    if entries.len() == 0 {
        0
    } else {
        count_present(entries.drop_last()) + (if entries.last() is Some {
            1int
        } else {
            0int
        })
    }
}

/// The individual records of the present entries, in order.
pub open spec fn records_of(entries: Seq<Option<SpecEntry>>) -> Seq<Seq<char>>
    decreases entries.len(),
{
    if entries.len() == 0 {
        Seq::empty()
    } else {
        records_of(entries.drop_last()) + (match entries.last() {
            Some(e) => seq![entry_record(e)],
            None => Seq::<Seq<char>>::empty(),
        })
    }
}

/// Concatenation of a sequence of records.
pub open spec fn join(rs: Seq<Seq<char>>) -> Seq<char>
    decreases rs.len(),
{
    if rs.len() == 0 {
        Seq::empty()
    } else {
        join(rs.drop_last()) + rs.last()
    }
}

/// Law: listing under partial failure. The listing is the concatenation
/// of one well-formed record per present entry — exactly
/// `count_present` of them — and every record is the record of some
/// present entry; entries whose lookup failed leave no trace.
pub proof fn lemma_listing_partial_failure(entries: Seq<Option<SpecEntry>>)
    ensures
        records_of(entries).len() == count_present(entries),
        listing_of(entries) == join(records_of(entries)),
        forall|k: int|
            #![trigger records_of(entries)[k]]
            0 <= k < records_of(entries).len() ==> exists|j: int|
                #![trigger entries[j]]
                0 <= j < entries.len() && entries[j] is Some && records_of(entries)[k]
                    == entry_record(entries[j]->Some_0),
    decreases entries.len(),
{
    if entries.len() == 0 {
        assert(listing_of(entries) =~= join(records_of(entries)));
    } else {
        let pre = entries.drop_last();
        lemma_listing_partial_failure(pre);
        assert(records_of(pre).len() == count_present(pre));
        match entries.last() {
            Some(e) => {
                assert(records_of(entries) =~= records_of(pre) + seq![entry_record(e)]);
                assert(records_of(entries).drop_last() =~= records_of(pre));
                assert(join(records_of(entries)) =~= join(records_of(pre)) + entry_record(e));
            },
            None => {
                assert(records_of(entries) =~= records_of(pre));
            },
        }
        assert forall|k: int|
            #![trigger records_of(entries)[k]]
            0 <= k < records_of(entries).len() implies exists|j: int|
            #![trigger entries[j]]
            0 <= j < entries.len() && entries[j] is Some && records_of(entries)[k] == entry_record(
            entries[j]->Some_0,
        ) by {
            if k < records_of(pre).len() {
                let j = choose|j: int|
                    #![trigger pre[j]]
                    0 <= j < pre.len() && pre[j] is Some && records_of(pre)[k] == entry_record(
                        pre[j]->Some_0,
                    );
                assert(entries[j] == pre[j]);
                assert(0 <= j < entries.len() && entries[j] is Some && records_of(entries)[k]
                    == entry_record(entries[j]->Some_0));
            } else {
                let j = entries.len() - 1;
                assert(0 <= j < entries.len() && entries[j] is Some && records_of(entries)[k]
                    == entry_record(entries[j]->Some_0));
            }
        }
    }
}

/// Formats a whole directory: one record per present entry, in order.
pub fn format_listing(entries: &Vec<Option<DirectoryEntry>>) -> (out: String)
    ensures
        out@ == listing_of(entries.deep_view()),
{
    let ghost all = entries.deep_view();
    let mut out = String::new();
    let mut i: usize = 0;
    while i < entries.len()
        invariant
            i <= entries@.len(),
            all == entries.deep_view(),
            all.len() == entries@.len(),
            out@ == listing_of(all.take(i as int)),
        decreases entries@.len() - i,
    {
        match &entries[i] {
            Some(e) => {
                let rec = format_entry(e);
                out.append(rec.as_str());
            },
            None => {},
        }
        proof {
            assert(all.take(i + 1).drop_last() =~= all.take(i as int));
            assert(all.take(i + 1).last() == all[i as int]);
        }
        i += 1;
    }
    proof {
        assert(all.take(all.len() as int) =~= all);
    }
    out
}

} // verus!
