//! The browsed location: an absolute path held as its components, with the
//! transitions' error kinds.

use vstd::prelude::*;
use vstd::string::StringExecFns;

verus! {

/// A failure of a navigation transition. Non-fatal: the state is left as
/// it was and the caller keeps the current listing.
#[derive(Clone, Copy, Debug, PartialEq, Eq, Structural)]
pub enum NavigationError {
    /// `go_up` at a filesystem root.
    AtRoot,
    /// `enter` or `activate` of a name the current listing does not hold.
    NoSuchEntry,
    /// `enter` of a name that resolves to a file.
    NotAFolder,
}

/// A directory that could not be opened for enumeration. Surfaced as a
/// failed transition; the state is left unchanged.
#[derive(Clone, Copy, Debug, PartialEq, Eq, Structural)]
pub enum FilesystemError {
    NotFound,
    NotADirectory,
    PermissionDenied,
    Other,
}

/// A path component: non-empty and free of separators.
pub open spec fn valid_name(name: Seq<char>) -> bool {
    name.len() > 0 && !name.contains('/')
}

/// Every component of the path is a valid name.
pub open spec fn valid_path(parts: Seq<Seq<char>>) -> bool {
    forall|i: int| 0 <= i < parts.len() ==> valid_name(#[trigger] parts[i])
}

/// An absolute directory path, held as its components below the root.
/// The root itself is the empty sequence of components.
pub struct Location {
    pub parts: Vec<String>,
}

impl View for Location {
    type V = Seq<Seq<char>>;

    open spec fn view(&self) -> Seq<Seq<char>> {
        self.parts@.map_values(|p: String| p@)
    }
}

/// The components of a non-root path, each preceded by a separator.
pub open spec fn spec_joined(parts: Seq<Seq<char>>) -> Seq<char>
    decreases parts.len(),
{
    if parts.len() == 0 {
        Seq::empty()
    } else {
        spec_joined(parts.drop_last()) + "/"@ + parts.last()
    }
}

/// The display string of a location: `/` for the root, otherwise each
/// component preceded by a separator.
pub open spec fn spec_location_display(parts: Seq<Seq<char>>) -> Seq<char> {
    if parts.len() == 0 {
        "/"@
    } else {
        spec_joined(parts)
    }
}

impl Location {
    /// The filesystem root.
    pub fn root() -> (r: Self)
        ensures
            r@ == Seq::<Seq<char>>::empty(),
    {
        let r = Location { parts: Vec::new() };
        proof {
            assert(r@ =~= Seq::<Seq<char>>::empty());
        }
        r
    }

    /// Whether this location has no parent.
    pub fn is_root(&self) -> (r: bool)
        ensures
            r == (self@.len() == 0),
    {
        self.parts.len() == 0
    }

    /// A copy of this location.
    pub fn duplicate(&self) -> (r: Self)
        ensures
            r@ == self@,
    {
        let mut parts: Vec<String> = Vec::new();
        let mut i: usize = 0;
        while i < self.parts.len()
            invariant
                i <= self.parts@.len(),
                parts@.map_values(|p: String| p@) == self@.take(i as int),
            decreases self.parts@.len() - i,
        {
            let ghost prev = parts@;
            parts.push(self.parts[i].clone());
            proof {
                assert(parts@.map_values(|p: String| p@) =~= prev.map_values(|p: String| p@).push(
                    self.parts@[i as int]@,
                ));
                assert(self@.take(i + 1) =~= self@.take(i as int).push(self@[i as int]));
            }
            i = i + 1;
        }
        let r = Location { parts };
        proof {
            assert(self@.take(self@.len() as int) =~= self@);
        }
        r
    }

    /// The location one level up.
    pub fn to_parent(&self) -> (r: Self)
        requires
            self@.len() > 0,
        ensures
            r@ == self@.drop_last(),
    {
        let mut r = self.duplicate();
        r.parts.pop();
        proof {
            assert(r@ =~= self@.drop_last());
        }
        r
    }

    /// The location of a child of this directory.
    pub fn child(&self, name: &String) -> (r: Self)
        ensures
            r@ == self@.push(name@),
    {
        let mut r = self.duplicate();
        r.parts.push(name.clone());
        proof {
            assert(r@ =~= self@.push(name@));
        }
        r
    }

    /// Renders the location for display.
    pub fn display(&self) -> (r: String)
        ensures
            r@ == spec_location_display(self@),
    {
        if self.parts.len() == 0 {
            let r = "/".to_owned();
            return r;
        }
        let mut s = String::new();
        let mut i: usize = 0;
        while i < self.parts.len()
            invariant
                i <= self.parts@.len(),
                s@ == spec_joined(self@.take(i as int)),
            decreases self.parts@.len() - i,
        {
            s.append("/");
            s.append(self.parts[i].as_str());
            proof {
                assert(self@.take(i + 1).drop_last() =~= self@.take(i as int));
                assert(self@.take(i + 1).last() == self@[i as int]);
            }
            i = i + 1;
        }
        proof {
            assert(self@.take(self@.len() as int) =~= self@);
        }
        s
    }
}

/// The navigation state: the directory being browsed and whether hidden
/// entries are shown.
pub struct NavigationState {
    pub location: Location,
    pub show_hidden: bool,
}

} // verus!
