//! The PSU archive model: a save directory as a list of entries (the
//! directory itself, `.` and `..`, then its files), and its listing.

use crate::text::{
    decimal_string, decimal_text, left_aligned, push_left_aligned, push_right_aligned,
    right_aligned,
};
use chrono::NaiveDateTime;
use vstd::prelude::*;
use vstd::string::StringExecFns;

verus! {

/// Entry id of a directory.
pub const DIR_ID: u16 = 0x8427;

/// Entry id of a file.
pub const FILE_ID: u16 = 0x8497;

/// Size of a memory-card page, the unit in which file contents are laid out.
pub const PAGE_SIZE: u32 = 0x400;

/// `chrono::NaiveDateTime`, the creation and modification times of entries.
#[verifier::external_type_specification]
#[verifier::external_body]
pub struct ExNaiveDateTime(NaiveDateTime);

/// `NaiveDateTime::clone`: the type derives `Clone` and `Copy`, so a clone
/// is the same time.
pub assume_specification[ <NaiveDateTime as Clone>::clone ](t: &NaiveDateTime) -> (res:
    NaiveDateTime)
    ensures
        res == *t,
;

/// What `chrono` writes for a time with the format `%Y-%m-%d %H:%M:%S`.
pub uninterp spec fn datetime_text(t: NaiveDateTime) -> Seq<char>;

/// `NaiveDateTime::format("%Y-%m-%d %H:%M:%S")`, written out: the text
/// depends on the time alone, and is named, not stated. The pattern is
/// fixed here: with a pattern that `chrono` rejects, writing the text out
/// panics, and no clause could tell such patterns apart.
#[verifier::external_body]
fn format_datetime(t: &NaiveDateTime) -> (s: String)
    ensures
        s@ == datetime_text(*t),
{
    t.format("%Y-%m-%d %H:%M:%S").to_string()
}

/// Whether an entry is a directory or a file.
#[derive(Debug, Clone, Copy)]
pub enum PSUEntryKind {
    Directory,
    File,
}

/// The word that listings show for a kind of entry.
pub open spec fn kind_text(kind: PSUEntryKind) -> Seq<char> {
    match kind {
        PSUEntryKind::Directory => seq!['d', 'i', 'r', 'e', 'c', 't', 'o', 'r', 'y'],
        PSUEntryKind::File => seq!['f', 'i', 'l', 'e'],
    }
}

impl PSUEntryKind {
    /// `directory` or `file`.
    pub fn to_string(&self) -> (s: String)
        ensures
            s@ == kind_text(*self),
    {
        match self {
            PSUEntryKind::Directory => {
                let s = String::from_str("directory");
                proof {
                    reveal_strlit("directory");
                }
                assert(s@ =~= kind_text(*self));
                s
            },
            PSUEntryKind::File => {
                let s = String::from_str("file");
                proof {
                    reveal_strlit("file");
                }
                assert(s@ =~= kind_text(*self));
                s
            },
        }
    }
}

/// One entry of a PSU archive.
#[derive(Debug, Clone)]
pub struct PSUEntry {
    pub id: u16,
    pub size: u32,
    pub created: NaiveDateTime,
    pub sector: u16,
    pub modified: NaiveDateTime,
    pub name: String,
    pub kind: PSUEntryKind,
    pub contents: Option<Vec<u8>>,
}

/// A PSU archive: the entries of one save directory.
#[derive(Clone)]
pub struct PSU {
    pub entries: Vec<PSUEntry>,
}

impl Default for PSU {
    /// An archive without entries.
    fn default() -> (psu: Self)
        ensures
            psu.entries@.len() == 0,
    {
        PSU { entries: Vec::new() }
    }
}

/// `e` is the directory entry named `name`, of `size`, stamped `timestamp`.
pub open spec fn is_directory_entry(
    e: PSUEntry,
    name: Seq<char>,
    size: u32,
    timestamp: NaiveDateTime,
) -> bool {
    &&& e.id == DIR_ID
    &&& e.size == size
    &&& e.created == timestamp
    &&& e.sector == 0
    &&& e.modified == timestamp
    &&& e.name@ == name
    &&& e.kind == PSUEntryKind::Directory
    &&& e.contents is None
}

/// `e` is the file entry named `name` that holds `contents`; its size is
/// the contents' length taken modulo 2^32.
pub open spec fn is_file_entry(
    e: PSUEntry,
    name: Seq<char>,
    contents: Seq<u8>,
    created: NaiveDateTime,
    modified: NaiveDateTime,
) -> bool {
    &&& e.id == FILE_ID
    &&& e.size == #[verifier::truncate] (contents.len() as u32)
    &&& e.created == created
    &&& e.sector == 0
    &&& e.modified == modified
    &&& e.name@ == name
    &&& e.kind == PSUEntryKind::File
    &&& e.contents matches Some(c) && c@ == contents
}

/// The name `.`.
pub open spec fn dot_name() -> Seq<char> {
    seq!['.']
}

/// The name `..`.
pub open spec fn dot_dot_name() -> Seq<char> {
    seq!['.', '.']
}

impl PSU {
    /// Appends the three directory entries that open an archive: the save
    /// directory `name`, whose size counts its `file_count` files and the
    /// two that follow, then `.` and `..`, all stamped `timestamp`.
    pub fn add_defaults(&mut self, name: &str, file_count: usize, timestamp: NaiveDateTime)
        requires
            #[verifier::truncate] (file_count as u32) <= u32::MAX - 2,
        ensures
            final(self).entries@.len() == old(self).entries@.len() + 3,
            final(self).entries@.take(old(self).entries@.len() as int) == old(self).entries@,
            is_directory_entry(
                final(self).entries@[old(self).entries@.len() as int],
                name@,
                ((#[verifier::truncate] (file_count as u32)) + 2) as u32,
                timestamp,
            ),
            is_directory_entry(
                final(self).entries@[old(self).entries@.len() + 1int],
                dot_name(),
                0,
                timestamp,
            ),
            is_directory_entry(
                final(self).entries@[old(self).entries@.len() + 2int],
                dot_dot_name(),
                0,
                timestamp,
            ),
    {
        let size = #[verifier::truncate] (file_count as u32) + 2;
        self.entries.push(
            PSUEntry {
                id: DIR_ID,
                size,
                created: timestamp,
                sector: 0,
                modified: timestamp,
                name: name.to_owned(),
                kind: PSUEntryKind::Directory,
                contents: None,
            },
        );
        let dot = String::from_str(".");
        let dot_dot = String::from_str("..");
        proof {
            reveal_strlit(".");
            reveal_strlit("..");
        }
        assert(dot@ =~= dot_name());
        assert(dot_dot@ =~= dot_dot_name());
        self.entries.push(
            PSUEntry {
                id: DIR_ID,
                size: 0,
                created: timestamp,
                sector: 0,
                modified: timestamp,
                name: dot,
                kind: PSUEntryKind::Directory,
                contents: None,
            },
        );
        self.entries.push(
            PSUEntry {
                id: DIR_ID,
                size: 0,
                created: timestamp,
                sector: 0,
                modified: timestamp,
                name: dot_dot,
                kind: PSUEntryKind::Directory,
                contents: None,
            },
        );
        assert(self.entries@.take(old(self).entries@.len() as int) =~= old(self).entries@);
    }
}

/// A file to put into an archive: its name, contents and times.
pub struct PSUFile {
    pub name: String,
    pub contents: Vec<u8>,
    pub created: NaiveDateTime,
    pub modified: NaiveDateTime,
}

impl PSU {
    /// Appends the entry of a file.
    pub fn add_file(&mut self, file: PSUFile)
        ensures
            final(self).entries@.len() == old(self).entries@.len() + 1,
            final(self).entries@.take(old(self).entries@.len() as int) == old(self).entries@,
            is_file_entry(
                final(self).entries@.last(),
                file.name@,
                file.contents@,
                file.created,
                file.modified,
            ),
    {
        let size = #[verifier::truncate] (file.contents.len() as u32);
        self.entries.push(
            PSUEntry {
                id: FILE_ID,
                size,
                created: file.created,
                sector: 0,
                modified: file.modified,
                name: file.name,
                kind: PSUEntryKind::File,
                contents: Some(file.contents),
            },
        );
        assert(self.entries@.take(old(self).entries@.len() as int) =~= old(self).entries@);
    }

    /// The archive of the save directory `name` that holds `files`: the
    /// three directory entries, then one entry per file, in order. A given
    /// `timestamp` is applied to every entry, files included; without one,
    /// the directory entries are stamped `now` and each file keeps its own
    /// creation and modification times.
    pub fn with_files(
        name: &str,
        timestamp: Option<NaiveDateTime>,
        now: NaiveDateTime,
        files: Vec<PSUFile>,
    ) -> (psu: PSU)
        requires
            #[verifier::truncate] (files@.len() as u32) <= u32::MAX - 2,
        ensures
            psu.entries@.len() == files@.len() + 3,
            is_directory_entry(
                psu.entries@[0],
                name@,
                ((#[verifier::truncate] (files@.len() as u32)) + 2) as u32,
                stamp_or(timestamp, now),
            ),
            is_directory_entry(psu.entries@[1], dot_name(), 0, stamp_or(timestamp, now)),
            is_directory_entry(psu.entries@[2], dot_dot_name(), 0, stamp_or(timestamp, now)),
            forall|i: int|
                0 <= i < files@.len() ==> is_file_entry(
                    #[trigger] psu.entries@[i + 3],
                    files@[i].name@,
                    files@[i].contents@,
                    stamp_or(timestamp, files@[i].created),
                    stamp_or(timestamp, files@[i].modified),
                ),
    {
        let stamp = match timestamp {
            Some(t) => t,
            None => now,
        };
        let mut psu = PSU::default();
        psu.add_defaults(name, files.len(), stamp);
        let ghost all = files@;
        let ghost defaults = psu.entries@;
        for file in it: files.into_iter()
            invariant
                it.seq() == all,
                defaults.len() == 3,
                psu.entries@.len() == 3 + it.index(),
                psu.entries@.take(3) == defaults,
                forall|i: int|
                    0 <= i < it.index() ==> is_file_entry(
                        #[trigger] psu.entries@[i + 3],
                        all[i].name@,
                        all[i].contents@,
                        stamp_or(timestamp, all[i].created),
                        stamp_or(timestamp, all[i].modified),
                    ),
        {
            let ghost before = psu.entries@;
            let ghost k = before.len() - 3;
            let ghost f = file;
            assert(f == all[k]);
            let mut file = file;
            if let Some(t) = timestamp {
                file.created = t;
                file.modified = t;
            }
            psu.add_file(file);
            assert(psu.entries@.take(3) =~= before.take(3));
            assert forall|i: int| 0 <= i < k + 1 implies is_file_entry(
                #[trigger] psu.entries@[i + 3],
                all[i].name@,
                all[i].contents@,
                stamp_or(timestamp, all[i].created),
                stamp_or(timestamp, all[i].modified),
            ) by {
                if i < k {
                    assert(psu.entries@[i + 3] == psu.entries@.take(before.len() as int)[i + 3]);
                }
            }
        }
        psu
    }
}

/// The given time stamp if there is one, else `otherwise`.
pub open spec fn stamp_or(timestamp: Option<NaiveDateTime>, otherwise: NaiveDateTime) -> NaiveDateTime {
    match timestamp {
        Some(t) => t,
        None => otherwise,
    }
}

/// The heading of a listing: the column titles, then a rule of 99 dashes.
pub open spec fn listing_heading() -> Seq<char> {
    left_aligned("Type"@, 12) + "| "@ + left_aligned("Name"@, 16) + "| "@ + left_aligned(
        "Size"@,
        9,
    ) + "| "@ + left_aligned("Created"@, 25) + "| "@ + left_aligned("Modified"@, 25) + "\n"@
        + Seq::new(99, |i: int| '-')
}

/// The line of a listing for one entry, after a line break: kind, name,
/// size (aligned right), creation and modification times.
pub open spec fn listing_row(e: PSUEntry) -> Seq<char> {
    "\n"@ + left_aligned(kind_text(e.kind), 12) + "| "@ + left_aligned(e.name@, 16) + "| "@
        + right_aligned(decimal_text(e.size as nat), 9) + "| "@ + left_aligned(
        datetime_text(e.created),
        25,
    ) + "| "@ + left_aligned(datetime_text(e.modified), 25)
}

/// The listing of `entries`: the heading, then a line per entry, in order.
pub open spec fn listing_text(entries: Seq<PSUEntry>) -> Seq<char>
    decreases entries.len(),
{
    if entries.len() == 0 {
        listing_heading()
    } else {
        listing_text(entries.drop_last()) + listing_row(entries.last())
    }
}

/// Appends `n` dashes.
fn push_dashes(out: &mut String, n: usize)
    ensures
        final(out)@ == old(out)@ + Seq::new(n as nat, |i: int| '-'),
{
    let mut i: usize = 0;
    while i < n
        invariant
            i <= n,
            out@ == old(out)@ + Seq::new(i as nat, |j: int| '-'),
        decreases n - i,
    {
        out.append("-");
        proof {
            reveal_strlit("-");
        }
        i = i + 1;
        assert(out@ =~= old(out)@ + Seq::new(i as nat, |j: int| '-'));
    }
}

/// Appends the listing line of `e`.
fn push_listing_row(out: &mut String, e: &PSUEntry)
    ensures
        final(out)@ == old(out)@ + listing_row(*e),
{
    out.append("\n");
    push_left_aligned(out, e.kind.to_string().as_str(), 12);
    out.append("| ");
    push_left_aligned(out, e.name.as_str(), 16);
    out.append("| ");
    push_right_aligned(out, decimal_string(e.size).as_str(), 9);
    out.append("| ");
    push_left_aligned(out, format_datetime(&e.created).as_str(), 25);
    out.append("| ");
    push_left_aligned(out, format_datetime(&e.modified).as_str(), 25);
    assert(out@ =~= old(out)@ + listing_row(*e));
}

impl PSU {
    /// The listing of the archive, as a table with a line per entry.
    pub fn to_string(&self) -> (s: String)
        ensures
            s@ == listing_text(self.entries@),
    {
        let mut out = String::new();
        push_left_aligned(&mut out, "Type", 12);
        out.append("| ");
        push_left_aligned(&mut out, "Name", 16);
        out.append("| ");
        push_left_aligned(&mut out, "Size", 9);
        out.append("| ");
        push_left_aligned(&mut out, "Created", 25);
        out.append("| ");
        push_left_aligned(&mut out, "Modified", 25);
        out.append("\n");
        push_dashes(&mut out, 99);
        assert(out@ =~= listing_text(self.entries@.take(0)));
        let n = self.entries.len();
        let mut i: usize = 0;
        while i < n
            invariant
                i <= n,
                n == self.entries@.len(),
                out@ == listing_text(self.entries@.take(i as int)),
            decreases n - i,
        {
            push_listing_row(&mut out, &self.entries[i]);
            assert(self.entries@.take(i + 1).drop_last() =~= self.entries@.take(i as int));
            i = i + 1;
        }
        assert(self.entries@.take(n as int) =~= self.entries@);
        out
    }
}

} // verus!
