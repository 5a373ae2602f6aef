//! Building one directory listing: classification of raw children,
//! the hidden-entry filter, folder item counts, display formatting and
//! the folders-before-files ordering.

use vstd::prelude::*;
use crate::size_format::spec_format_size;
use crate::size_format::spec_items_count;
use crate::size_format::format_size;
use crate::size_format::format_items_count;
use crate::time_format::spec_timestamp_display;
use crate::time_format::format_timestamp;
use vstd::string::StrSliceExecFns;

verus! {

/// What a directory entry is shown as.
#[derive(Clone, Copy, Debug, PartialEq, Eq, Structural)]
pub enum EntryKind {
    Folder,
    File,
}

/// One row of a directory listing, immutable once built.
pub struct ListingEntry {
    /// Base name of the entry.
    pub name: String,
    /// Whether the entry is a folder or a file.
    pub kind: EntryKind,
    /// For a file, the scaled byte size; for a folder, its visible-child
    /// count as `<N> items`.
    pub size_display: String,
    /// Last modification time, `DD-MM-YYYY HH:MM` in UTC.
    pub modified_display: String,
}

/// The mathematical content of a [`ListingEntry`].
pub struct ListingEntryV {
    pub name: Seq<char>,
    pub kind: EntryKind,
    pub size_display: Seq<char>,
    pub modified_display: Seq<char>,
}

impl View for ListingEntry {
    type V = ListingEntryV;

    open spec fn view(&self) -> ListingEntryV {
        ListingEntryV {
            name: self.name@,
            kind: self.kind,
            size_display: self.size_display@,
            modified_display: self.modified_display@,
        }
    }
}

impl ListingEntry {
    /// Builds one row from already formatted columns.
    pub fn new(
        name: String,
        kind: EntryKind,
        size_display: String,
        modified_display: String,
    ) -> (r: Self)
        ensures
            r@ == (ListingEntryV {
                name: name@,
                kind,
                size_display: size_display@,
                modified_display: modified_display@,
            }),
    {
        ListingEntry { name, kind, size_display, modified_display }
    }
}

/// The rows shown for one directory at one point in time, folders grouped
/// before files.
pub struct DirectoryListing {
    pub entries: Vec<ListingEntry>,
}

/// The views of a run of rows.
pub open spec fn views_of_rows(rows: Seq<ListingEntry>) -> Seq<ListingEntryV> {
    rows.map_values(|r: ListingEntry| r@)
}

impl View for DirectoryListing {
    type V = Seq<ListingEntryV>;

    open spec fn view(&self) -> Seq<ListingEntryV> {
        views_of_rows(self.entries@)
    }
}

/// A child of a folder entry, as far as the item count needs it: its name
/// and whether it was classified (readable metadata naming a file or a
/// folder).
pub struct RawChild {
    pub name: String,
    pub classified: bool,
}

/// The metadata of one enumerated child, as the enumerating caller read it.
pub enum RawMeta {
    /// A file and its byte length, with its modification time in non-leap
    /// seconds since the Unix epoch.
    FileMeta { size: u64, modified_secs: u64 },
    /// A folder and its own immediate children, with its modification time.
    FolderMeta { children: Vec<RawChild>, modified_secs: u64 },
    /// Something else (a special file): never listed.
    OtherMeta,
}

/// One enumerated child of the directory being listed. `meta` is `None`
/// when the child's metadata could not be read; such a child is skipped.
pub struct RawEntry {
    pub name: String,
    pub meta: Option<RawMeta>,
}

/// A point-in-time enumeration of one directory, handed in by the caller.
pub struct RawDir {
    pub entries: Vec<RawEntry>,
}

/// A name beginning with a dot marks a hidden entry.
pub open spec fn is_hidden_name(name: Seq<char>) -> bool {
    name.len() > 0 && name[0] == '.'
}

/// Whether an entry of this name appears under the given visibility flag.
pub open spec fn name_visible(name: Seq<char>, show_hidden: bool) -> bool {
    show_hidden || !is_hidden_name(name)
}

/// How many children of a folder are counted for its `<N> items` column:
/// the classified ones whose names the flag lets through.
pub open spec fn spec_visible_count(children: Seq<RawChild>, show_hidden: bool) -> nat
    decreases children.len(),
{
    if children.len() == 0 {
        0
    } else {
        spec_visible_count(children.drop_last(), show_hidden) + (if children.last().classified
            && name_visible(children.last().name@, show_hidden) {
            1nat
        } else {
            0nat
        })
    }
}

/// Whether an enumerated child makes it past classification: its metadata
/// was readable and named a file or a folder.
pub open spec fn spec_classified(e: RawEntry) -> bool {
    match e.meta {
        Some(RawMeta::FileMeta { .. }) => true,
        Some(RawMeta::FolderMeta { .. }) => true,
        Some(RawMeta::OtherMeta) => false,
        None => false,
    }
}

/// Whether an enumerated child appears in the listing.
pub open spec fn spec_kept(e: RawEntry, show_hidden: bool) -> bool {
    spec_classified(e) && name_visible(e.name@, show_hidden)
}

/// The row a classified child turns into.
pub open spec fn spec_row(e: RawEntry, show_hidden: bool) -> ListingEntryV
    recommends
        spec_classified(e),
{
    match e.meta {
        Some(RawMeta::FileMeta { size, modified_secs }) => ListingEntryV {
            name: e.name@,
            kind: EntryKind::File,
            size_display: spec_format_size(size as nat),
            modified_display: spec_timestamp_display(modified_secs as int),
        },
        Some(RawMeta::FolderMeta { children, modified_secs }) => ListingEntryV {
            name: e.name@,
            kind: EntryKind::Folder,
            size_display: spec_items_count(spec_visible_count(children@, show_hidden)),
            modified_display: spec_timestamp_display(modified_secs as int),
        },
        _ => arbitrary(),
    }
}

/// The kept rows of one kind, in enumeration order.
pub open spec fn spec_group_rows(
    entries: Seq<RawEntry>,
    show_hidden: bool,
    kind: EntryKind,
) -> Seq<ListingEntryV>
    decreases entries.len(),
{
    if entries.len() == 0 {
        Seq::empty()
    } else {
        let init = spec_group_rows(entries.drop_last(), show_hidden, kind);
        let e = entries.last();
        if spec_kept(e, show_hidden) && spec_row(e, show_hidden).kind == kind {
            init.push(spec_row(e, show_hidden))
        } else {
            init
        }
    }
}

/// The listing built from an enumeration: folder rows first, then file
/// rows, each group keeping enumeration order.
pub open spec fn spec_listing(entries: Seq<RawEntry>, show_hidden: bool) -> Seq<ListingEntryV> {
    spec_group_rows(entries, show_hidden, EntryKind::Folder) + spec_group_rows(
        entries,
        show_hidden,
        EntryKind::File,
    )
}

/// Tests whether a name marks a hidden entry.
pub fn name_is_hidden(name: &String) -> (r: bool)
    ensures
        r == is_hidden_name(name@),
{
    let s: &str = name.as_str();
    if s.unicode_len() == 0 {
        false
    } else {
        s.get_char(0) == '.'
    }
}

/// Counts the children a folder's `<N> items` column reports.
pub fn count_visible_children(children: &Vec<RawChild>, show_hidden: bool) -> (n: u64)
    ensures
        n as nat == spec_visible_count(children@, show_hidden),
{
    let mut n: u64 = 0;
    let mut i: usize = 0;
    while i < children.len()
        invariant
            i <= children@.len(),
            n <= i,
            n as nat == spec_visible_count(children@.take(i as int), show_hidden),
        decreases children@.len() - i,
    {
        let c = &children[i];
        if c.classified && (show_hidden || !name_is_hidden(&c.name)) {
            n = n + 1;
        }
        proof {
            assert(children@.take(i + 1).drop_last() =~= children@.take(i as int));
            assert(children@.take(i + 1).last() == children@[i as int]);
        }
        i = i + 1;
    }
    proof {
        assert(children@.take(children@.len() as int) =~= children@);
    }
    n
}

/// Classifies one enumerated child and formats its row; `None` when the
/// child is skipped (unreadable metadata or an unsupported kind).
fn entry_row(e: &RawEntry, show_hidden: bool) -> (r: Option<ListingEntry>)
    ensures
        match r {
            Some(row) => spec_classified(*e) && row@ == spec_row(*e, show_hidden),
            None => !spec_classified(*e),
        },
{
    match &e.meta {
        Some(RawMeta::FileMeta { size, modified_secs }) => Some(
            ListingEntry::new(
                e.name.clone(),
                EntryKind::File,
                format_size(*size),
                format_timestamp(*modified_secs),
            ),
        ),
        Some(RawMeta::FolderMeta { children, modified_secs }) => {
            let count = count_visible_children(children, show_hidden);
            Some(
                ListingEntry::new(
                    e.name.clone(),
                    EntryKind::Folder,
                    format_items_count(count),
                    format_timestamp(*modified_secs),
                ),
            )
        },
        Some(RawMeta::OtherMeta) => None,
        None => None,
    }
}

/// Builds the listing for one enumerated directory under the given
/// visibility flag: unreadable and unsupported children are skipped, hidden
/// names are filtered unless shown, folder rows carry their visible-child
/// count, and folders are grouped before files, each group in enumeration
/// order.
pub fn build_listing(raw: &RawDir, show_hidden: bool) -> (r: DirectoryListing)
    ensures
        r@ == spec_listing(raw.entries@, show_hidden),
{
    let mut folders: Vec<ListingEntry> = Vec::new();
    let mut files: Vec<ListingEntry> = Vec::new();
    let mut i: usize = 0;
    while i < raw.entries.len()
        invariant
            i <= raw.entries@.len(),
            views_of_rows(folders@) == spec_group_rows(
                raw.entries@.take(i as int),
                show_hidden,
                EntryKind::Folder,
            ),
            views_of_rows(files@) == spec_group_rows(
                raw.entries@.take(i as int),
                show_hidden,
                EntryKind::File,
            ),
        decreases raw.entries@.len() - i,
    {
        let e = &raw.entries[i];
        let ghost prev_folders = folders@;
        let ghost prev_files = files@;
        if show_hidden || !name_is_hidden(&e.name) {
            match entry_row(e, show_hidden) {
                Some(row) => {
                    match row.kind {
                        EntryKind::Folder => folders.push(row),
                        EntryKind::File => files.push(row),
                    }
                },
                None => {},
            }
        }
        proof {
            assert(raw.entries@.take(i + 1).drop_last() =~= raw.entries@.take(i as int));
            assert(raw.entries@.take(i + 1).last() == raw.entries@[i as int]);
            if folders@ != prev_folders {
                assert(views_of_rows(folders@) =~= views_of_rows(prev_folders).push(
                    folders@.last()@,
                ));
            }
            if files@ != prev_files {
                assert(views_of_rows(files@) =~= views_of_rows(prev_files).push(files@.last()@));
            }
        }
        i = i + 1;
    }
    proof {
        assert(raw.entries@.take(raw.entries@.len() as int) =~= raw.entries@);
    }
    let mut out = folders;
    out.append(&mut files);
    proof {
        assert(views_of_rows(out@) =~= spec_listing(raw.entries@, show_hidden));
    }
    DirectoryListing { entries: out }
}

proof fn lemma_group_rows_kind(entries: Seq<RawEntry>, show_hidden: bool, kind: EntryKind)
    ensures
        forall|i: int|
            0 <= i < spec_group_rows(entries, show_hidden, kind).len() ==> (#[trigger] spec_group_rows(
                entries,
                show_hidden,
                kind,
            )[i]).kind == kind,
    decreases entries.len(),
{
    if entries.len() > 0 {
        lemma_group_rows_kind(entries.drop_last(), show_hidden, kind);
    }
}

proof fn lemma_group_rows_not_hidden(entries: Seq<RawEntry>, kind: EntryKind)
    ensures
        forall|i: int|
            0 <= i < spec_group_rows(entries, false, kind).len() ==> !is_hidden_name(
                (#[trigger] spec_group_rows(entries, false, kind)[i]).name,
            ),
    decreases entries.len(),
{
    if entries.len() > 0 {
        lemma_group_rows_not_hidden(entries.drop_last(), kind);
        let e = entries.last();
        if spec_kept(e, false) && spec_row(e, false).kind == kind {
            assert(spec_row(e, false).name == e.name@);
        }
    }
}

/// With hidden entries not shown, no row of the listing bears a name that
/// starts with a dot.
pub proof fn lemma_listing_excludes_hidden(entries: Seq<RawEntry>)
    ensures
        forall|i: int|
            0 <= i < spec_listing(entries, false).len() ==> !is_hidden_name(
                (#[trigger] spec_listing(entries, false)[i]).name,
            ),
{
    lemma_group_rows_not_hidden(entries, EntryKind::Folder);
    lemma_group_rows_not_hidden(entries, EntryKind::File);
}

/// How many enumerated children make it past classification.
pub open spec fn spec_classified_count(entries: Seq<RawEntry>) -> nat
    decreases entries.len(),
{
    if entries.len() == 0 {
        0
    } else {
        spec_classified_count(entries.drop_last()) + (if spec_classified(entries.last()) {
            1nat
        } else {
            0nat
        })
    }
}

/// With hidden entries shown, the listing holds one row for every
/// successfully classified child: nothing else is filtered out.
pub proof fn lemma_listing_complete_when_shown(entries: Seq<RawEntry>)
    ensures
        spec_listing(entries, true).len() == spec_classified_count(entries),
    decreases entries.len(),
{
    if entries.len() > 0 {
        lemma_listing_complete_when_shown(entries.drop_last());
        let e = entries.last();
        if spec_classified(e) {
            assert(spec_row(e, true).kind == EntryKind::Folder || spec_row(e, true).kind
                == EntryKind::File);
        }
    }
}

/// Every classified child is present in the listing when hidden entries
/// are shown: its row is a member of the listing.
pub proof fn lemma_listing_contains_classified(entries: Seq<RawEntry>, j: int)
    requires
        0 <= j < entries.len(),
        spec_classified(entries[j]),
    ensures
        spec_listing(entries, true).contains(spec_row(entries[j], true)),
{
    let row = spec_row(entries[j], true);
    if row.kind == EntryKind::Folder {
        lemma_group_rows_contains(entries, true, EntryKind::Folder, j);
        let i = choose|i: int|
            0 <= i < spec_group_rows(entries, true, EntryKind::Folder).len()
                && spec_group_rows(entries, true, EntryKind::Folder)[i] == row;
        assert(spec_listing(entries, true)[i] == row);
    } else {
        lemma_group_rows_contains(entries, true, EntryKind::File, j);
        let i = choose|i: int|
            0 <= i < spec_group_rows(entries, true, EntryKind::File).len() && spec_group_rows(
                entries,
                true,
                EntryKind::File,
            )[i] == row;
        assert(spec_listing(entries, true)[spec_group_rows(
            entries,
            true,
            EntryKind::Folder,
        ).len() + i] == row);
    }
}

proof fn lemma_group_rows_contains(entries: Seq<RawEntry>, show_hidden: bool, kind: EntryKind, j: int)
    requires
        0 <= j < entries.len(),
        spec_kept(entries[j], show_hidden),
        spec_row(entries[j], show_hidden).kind == kind,
    ensures
        spec_group_rows(entries, show_hidden, kind).contains(spec_row(entries[j], show_hidden)),
    decreases entries.len(),
{
    let rows = spec_group_rows(entries, show_hidden, kind);
    if j == entries.len() - 1 {
        assert(rows.last() == spec_row(entries[j], show_hidden));
        assert(rows.contains(rows.last()));
    } else {
        lemma_group_rows_contains(entries.drop_last(), show_hidden, kind, j);
        let init = spec_group_rows(entries.drop_last(), show_hidden, kind);
        let row = spec_row(entries[j], show_hidden);
        let i = choose|i: int| 0 <= i < init.len() && init[i] == row;
        assert(rows[i] == row);
    }
}

/// Every name an enumeration offers is a usable path component.
pub open spec fn raw_names_valid(entries: Seq<RawEntry>) -> bool {
    forall|i: int|
        0 <= i < entries.len() ==> crate::navigation::valid_name((#[trigger] entries[i]).name@)
}

proof fn lemma_group_rows_names_valid(entries: Seq<RawEntry>, show_hidden: bool, kind: EntryKind)
    requires
        raw_names_valid(entries),
    ensures
        forall|i: int|
            0 <= i < spec_group_rows(entries, show_hidden, kind).len()
                ==> crate::navigation::valid_name(
                (#[trigger] spec_group_rows(entries, show_hidden, kind)[i]).name,
            ),
    decreases entries.len(),
{
    if entries.len() > 0 {
        assert(raw_names_valid(entries.drop_last())) by {
            assert(forall|i: int|
                0 <= i < entries.len() - 1 ==> entries.drop_last()[i] == entries[i]);
        };
        lemma_group_rows_names_valid(entries.drop_last(), show_hidden, kind);
        let e = entries.last();
        if spec_kept(e, show_hidden) && spec_row(e, show_hidden).kind == kind {
            assert(spec_row(e, show_hidden).name == e.name@);
            assert(e == entries[entries.len() - 1]);
        }
    }
}

/// A listing built from valid names shows only valid names.
pub proof fn lemma_listing_names_valid(entries: Seq<RawEntry>, show_hidden: bool)
    requires
        raw_names_valid(entries),
    ensures
        forall|i: int|
            0 <= i < spec_listing(entries, show_hidden).len() ==> crate::navigation::valid_name(
                (#[trigger] spec_listing(entries, show_hidden)[i]).name,
            ),
{
    lemma_group_rows_names_valid(entries, show_hidden, EntryKind::Folder);
    lemma_group_rows_names_valid(entries, show_hidden, EntryKind::File);
}

/// Folder rows stand before file rows: the listing never shows a file
/// above a folder.
pub proof fn lemma_listing_grouped(entries: Seq<RawEntry>, show_hidden: bool)
    ensures
        forall|i: int, j: int|
            0 <= i <= j < spec_listing(entries, show_hidden).len() && (#[trigger] spec_listing(
                entries,
                show_hidden,
            )[i]).kind == EntryKind::File ==> (#[trigger] spec_listing(entries, show_hidden)[j]).kind
                == EntryKind::File,
{
    lemma_group_rows_kind(entries, show_hidden, EntryKind::Folder);
    lemma_group_rows_kind(entries, show_hidden, EntryKind::File);
}

} // verus!
