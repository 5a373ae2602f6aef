//! The listing session: the navigation state together with the most
//! recently built listing, and the transitions that drive recomputation.
//!
//! Enumeration of a directory is the caller's: a transition is planned
//! with [`ListingSession::go_up`], [`ListingSession::enter`],
//! [`ListingSession::activate`] or [`ListingSession::toggle_hidden`],
//! the caller enumerates the planned location, and
//! [`ListingSession::commit`] applies the outcome. A failed plan or a
//! failed enumeration leaves the session exactly as it was.

use vstd::prelude::*;
use crate::listing::DirectoryListing;
use crate::listing::EntryKind;
use crate::listing::ListingEntryV;
use crate::listing::RawDir;
use crate::listing::build_listing;
use crate::listing::lemma_listing_names_valid;
use crate::listing::raw_names_valid;
use crate::listing::spec_listing;
use crate::navigation::FilesystemError;
use crate::navigation::Location;
use crate::navigation::NavigationError;
use crate::navigation::NavigationState;
use crate::navigation::spec_location_display;
use crate::navigation::valid_name;
use crate::navigation::valid_path;

verus! {

/// What activating a named row asks the caller to do.
pub enum Activation {
    /// The row is a file: hand this absolute path to the external opener.
    /// No navigation takes place.
    OpenFile(String),
    /// The row is a folder: descend into this location.
    EnterFolder(Location),
}

/// The kind under which a name appears in a listing, at its first
/// occurrence from the top.
pub open spec fn spec_lookup(rows: Seq<ListingEntryV>, name: Seq<char>) -> Option<EntryKind>
    decreases rows.len(),
{
    if rows.len() == 0 {
        None
    } else if rows.first().name == name {
        Some(rows.first().kind)
    } else {
        spec_lookup(rows.drop_first(), name)
    }
}

proof fn lemma_lookup_found(rows: Seq<ListingEntryV>, name: Seq<char>)
    requires
        spec_lookup(rows, name) is Some,
    ensures
        exists|i: int| 0 <= i < rows.len() && (#[trigger] rows[i]).name == name,
    decreases rows.len(),
{
    if rows.first().name == name {
        assert(rows[0].name == name);
    } else {
        lemma_lookup_found(rows.drop_first(), name);
        let i = choose|i: int|
            0 <= i < rows.drop_first().len() && (#[trigger] rows.drop_first()[i]).name == name;
        assert(rows[i + 1].name == name);
    }
}

/// One browsing session: the navigation state and the listing last built
/// for it.
pub struct ListingSession {
    pub nav: NavigationState,
    pub listing: DirectoryListing,
}

impl ListingSession {
    /// The session's invariant: the location and every listed name are
    /// usable path components.
    pub open spec fn wf(self) -> bool {
        valid_path(self.nav.location@) && forall|i: int|
            0 <= i < self.listing@.len() ==> valid_name((#[trigger] self.listing@[i]).name)
    }

    /// Opens a session at a location whose enumeration the caller already
    /// performed.
    pub fn new(location: Location, show_hidden: bool, raw: &RawDir) -> (r: Self)
        requires
            valid_path(location@),
            raw_names_valid(raw.entries@),
        ensures
            r.nav.location@ == location@,
            r.nav.show_hidden == show_hidden,
            r.listing@ == spec_listing(raw.entries@, show_hidden),
            r.wf(),
    {
        let listing = build_listing(raw, show_hidden);
        proof {
            lemma_listing_names_valid(raw.entries@, show_hidden);
        }
        ListingSession { nav: NavigationState { location, show_hidden }, listing }
    }

    /// The location being browsed, for the caller to enumerate or show.
    pub fn current_location(&self) -> (r: Location)
        ensures
            r@ == self.nav.location@,
    {
        self.nav.location.duplicate()
    }

    /// The snapshot handed to the presentation layer: the location's
    /// display string and the current listing.
    pub fn get_current_listing(&self) -> (r: (String, &DirectoryListing))
        ensures
            r.0@ == spec_location_display(self.nav.location@),
            r.1@ == self.listing@,
    {
        (self.nav.location.display(), &self.listing)
    }

    /// Plans moving one level up: the parent location to enumerate, or
    /// `AtRoot` when the current location has no parent. The session
    /// itself is untouched either way.
    pub fn go_up(&self) -> (r: Result<Location, NavigationError>)
        ensures
            match r {
                Ok(l) => self.nav.location@.len() > 0 && l@ == self.nav.location@.drop_last() && (
                self.wf() ==> valid_path(l@)),
                Err(e) => self.nav.location@.len() == 0 && e == NavigationError::AtRoot,
            },
    {
        if self.nav.location.is_root() {
            Err(NavigationError::AtRoot)
        } else {
            let parent = self.nav.location.to_parent();
            proof {
                if self.wf() {
                    assert(forall|j: int|
                        0 <= j < parent@.len() ==> #[trigger] parent@[j] == self.nav.location@[j]);
                }
            }
            Ok(parent)
        }
    }

    /// Plans descending into a named row of the current listing: the
    /// child location to enumerate when the name is listed as a folder,
    /// `NotAFolder` when it is listed as a file, and `NoSuchEntry` when it
    /// is not listed. The session itself is untouched either way.
    pub fn enter(&self, name: &String) -> (r: Result<Location, NavigationError>)
        requires
            self.wf(),
        ensures
            match r {
                Ok(l) => spec_lookup(self.listing@, name@) == Some(EntryKind::Folder) && l@
                    == self.nav.location@.push(name@) && valid_path(l@),
                Err(e) => (e == NavigationError::NoSuchEntry && spec_lookup(
                    self.listing@,
                    name@,
                ) is None) || (e == NavigationError::NotAFolder && spec_lookup(
                    self.listing@,
                    name@,
                ) == Some(EntryKind::File)),
            },
    {
        match self.lookup(name) {
            Some(EntryKind::Folder) => {
                let l = self.nav.location.child(name);
                proof {
                    self.lemma_planned_child_valid(name@);
                }
                Ok(l)
            },
            Some(EntryKind::File) => Err(NavigationError::NotAFolder),
            None => Err(NavigationError::NoSuchEntry),
        }
    }

    /// A name the listing holds is a valid component, so the planned child
    /// location is a valid path.
    proof fn lemma_planned_child_valid(self, name: Seq<char>)
        requires
            self.wf(),
            spec_lookup(self.listing@, name) is Some,
        ensures
            valid_path(self.nav.location@.push(name)),
    {
        lemma_lookup_found(self.listing@, name);
        let pushed = self.nav.location@.push(name);
        assert(forall|j: int|
            0 <= j < self.nav.location@.len() ==> #[trigger] pushed[j] == self.nav.location@[j]);
        assert(pushed[self.nav.location@.len() as int] == name);
    }

    /// Plans activating a named row: a file yields the absolute path to
    /// hand to the external opener, with no navigation at all; a folder
    /// behaves as `enter`. The session itself is untouched either way.
    pub fn activate(&self, name: &String) -> (r: Result<Activation, NavigationError>)
        requires
            self.wf(),
        ensures
            match r {
                Ok(a) => match a {
                    Activation::OpenFile(p) => spec_lookup(self.listing@, name@) == Some(
                        EntryKind::File,
                    ) && p@ == spec_location_display(self.nav.location@.push(name@)),
                    Activation::EnterFolder(l) => spec_lookup(self.listing@, name@) == Some(
                        EntryKind::Folder,
                    ) && l@ == self.nav.location@.push(name@) && valid_path(l@),
                },
                Err(e) => e == NavigationError::NoSuchEntry && spec_lookup(
                    self.listing@,
                    name@,
                ) is None,
            },
    {
        match self.lookup(name) {
            Some(EntryKind::Folder) => {
                let l = self.nav.location.child(name);
                proof {
                    self.lemma_planned_child_valid(name@);
                }
                Ok(Activation::EnterFolder(l))
            },
            Some(EntryKind::File) => {
                let child = self.nav.location.child(name);
                Ok(Activation::OpenFile(child.display()))
            },
            None => Err(NavigationError::NoSuchEntry),
        }
    }

    /// The flag a visibility toggle switches to; the unchanged current
    /// location is the one to re-enumerate. Toggling always succeeds.
    pub fn toggle_hidden(&self) -> (r: bool)
        ensures
            r == !self.nav.show_hidden,
    {
        !self.nav.show_hidden
    }

    /// Applies a planned transition once the caller has enumerated the
    /// planned location. A successful read moves the session there and
    /// replaces the listing wholesale; a failed read changes nothing and
    /// hands the error back.
    pub fn commit(
        &mut self,
        location: Location,
        show_hidden: bool,
        read: Result<RawDir, FilesystemError>,
    ) -> (r: Result<(), FilesystemError>)
        requires
            old(self).wf(),
            valid_path(location@),
            read matches Ok(raw) ==> raw_names_valid(raw.entries@),
        ensures
            final(self).wf(),
            match read {
                Ok(raw) => r == Ok::<(), FilesystemError>(()) && final(self).nav.location@
                    == location@ && final(self).nav.show_hidden == show_hidden
                    && final(self).listing@ == spec_listing(raw.entries@, show_hidden),
                Err(e) => r == Err::<(), FilesystemError>(e) && *final(self) == *old(self),
            },
    {
        match read {
            Ok(raw) => {
                let listing = build_listing(&raw, show_hidden);
                proof {
                    lemma_listing_names_valid(raw.entries@, show_hidden);
                }
                self.nav = NavigationState { location, show_hidden };
                self.listing = listing;
                Ok(())
            },
            Err(e) => Err(e),
        }
    }

    fn lookup(&self, name: &String) -> (r: Option<EntryKind>)
        ensures
            r == spec_lookup(self.listing@, name@),
    {
        let mut i: usize = 0;
        proof {
            assert(self.listing@.skip(0) =~= self.listing@);
        }
        while i < self.listing.entries.len()
            invariant
                i <= self.listing.entries@.len(),
                spec_lookup(self.listing@, name@) == spec_lookup(self.listing@.skip(i as int), name@),
            decreases self.listing.entries@.len() - i,
        {
            proof {
                assert(self.listing@.len() == self.listing.entries@.len());
                assert(self.listing@.skip(i as int).first() == self.listing@[i as int]);
                assert(self.listing@.skip(i as int).drop_first() =~= self.listing@.skip(i + 1));
            }
            if self.listing.entries[i].name.eq(name) {
                return Some(self.listing.entries[i].kind);
            }
            i = i + 1;
        }
        proof {
            assert(self.listing@.skip(self.listing.entries@.len() as int) =~= Seq::<
                ListingEntryV,
            >::empty());
        }
        None
    }
}

/// Toggling the visibility flag twice and rebuilding from the same
/// enumeration yields the identical listing: a visibility round trip
/// leaves nothing behind.
pub proof fn lemma_toggle_round_trip(entries: Seq<crate::listing::RawEntry>, show_hidden: bool)
    ensures
        spec_listing(entries, !!show_hidden) == spec_listing(entries, show_hidden),
{
}

} // verus!

