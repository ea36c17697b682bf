//! The downloads in flight, each registered under its track id with the
//! handle that cancels it. A track is downloaded at most once at a time.
use vstd::prelude::*;

use crate::text::str_eq;

verus! {

/// The refusal of a second download of a track that is downloading.
pub open spec fn already_downloading() -> Seq<char> {
    "This track is already downloading"@
}

/// The track ids in the registry, in the order they were registered.
pub open spec fn ids_of<T>(entries: Seq<(String, T)>) -> Seq<Seq<char>> {
    entries.map_values(|e: (String, T)| e.0@)
}

/// The downloads in flight.
pub struct DownloadRegistry<T> {
    entries: Vec<(String, T)>,
}

impl<T> DownloadRegistry<T> {
    /// The registered track ids.
    pub closed spec fn ids(&self) -> Seq<Seq<char>> {
        ids_of(self.entries@)
    }

    /// The handle registered under the id at index `i`.
    pub closed spec fn handle_at(&self, i: int) -> T {
        self.entries@[i].1
    }

    /// No track id is registered twice.
    pub closed spec fn wf(&self) -> bool {
        forall|i: int, j: int|
            0 <= i < j < self.ids().len() ==> #[trigger] self.ids()[i] != #[trigger] self.ids()[j]
    }

    /// Whether a track is downloading.
    pub open spec fn active(&self, id: Seq<char>) -> bool {
        self.ids().contains(id)
    }

    pub fn new() -> (r: Self)
        ensures
            r.wf(),
            r.ids() == Seq::<Seq<char>>::empty(),
    {
        let r = DownloadRegistry { entries: Vec::new() };
        assert(r.ids() =~= Seq::<Seq<char>>::empty());
        r
    }

    fn find(&self, id: &str) -> (r: Option<usize>)
        ensures
            match r {
                Some(i) => i < self.ids().len() && self.ids()[i as int] == id@,
                None => !self.active(id@),
            },
    {
        let mut i: usize = 0;
        while i < self.entries.len()
            invariant
                i <= self.entries@.len(),
                self.ids() == ids_of(self.entries@),
                forall|k: int| 0 <= k < i ==> self.ids()[k] != id@,
            decreases self.entries.len() - i,
        {
            if str_eq(self.entries[i].0.as_str(), id) {
                return Some(i);
            }
            i += 1;
        }
        proof {
            if self.ids().contains(id@) {
                let k = choose|k: int| 0 <= k < self.ids().len() && self.ids()[k] == id@;
                assert(self.ids()[k] != id@);
            }
        }
        None
    }

    /// Registers a download of `id` with its cancel handle; refused, with
    /// the registry unchanged, when that track is already downloading.
    pub fn begin(&mut self, id: &str, handle: T) -> (r: Result<(), String>)
        requires
            old(self).wf(),
        ensures
            final(self).wf(),
            old(self).active(id@) ==> (r matches Err(e) && e@ == already_downloading())
                && final(self).ids() == old(self).ids(),
            !old(self).active(id@) ==> r is Ok && final(self).ids() == old(self).ids().push(id@)
                && final(self).handle_at(old(self).ids().len() as int) == handle,
            forall|i: int| 0 <= i < old(self).ids().len() ==> final(self).handle_at(i) == old(self).handle_at(i),
    {
        match self.find(id) {
            Some(_) => Err(String::from_str("This track is already downloading")),
            None => {
                let ghost before = self.ids();
                self.entries.push((String::from_str(id), handle));
                assert(self.ids() =~= before.push(id@));
                Ok(())
            },
        }
    }

    /// The cancel handle of a track that is downloading.
    pub fn handle(&self, id: &str) -> (r: Option<&T>)
        ensures
            self.active(id@) <==> r is Some,
            r matches Some(h) ==> exists|i: int|
                0 <= i < self.ids().len() && self.ids()[i] == id@ && *h == self.handle_at(i),
    {
        match self.find(id) {
            Some(i) => {
                let h = &self.entries[i].1;
                assert(self.ids()[i as int] == id@ && *h == self.handle_at(i as int));
                Some(h)
            },
            None => None,
        }
    }

    /// How many downloads are registered.
    pub fn len(&self) -> (r: usize)
        ensures
            r == self.ids().len(),
    {
        self.entries.len()
    }

    /// The handle of the download registered `i`-th.
    pub fn handle_at_index(&self, i: usize) -> (r: &T)
        requires
            i < self.ids().len(),
        ensures
            *r == self.handle_at(i as int),
    {
        &self.entries[i].1
    }

    /// Removes the registration of a track, when there is one; the others
    /// stay, in order.
    pub fn end(&mut self, id: &str)
        requires
            old(self).wf(),
        ensures
            final(self).wf(),
            !final(self).active(id@),
            old(self).active(id@) ==> exists|k: int|
                0 <= k < old(self).ids().len() && old(self).ids()[k] == id@ && final(self).ids()
                    == old(self).ids().remove(k) && forall|i: int|
                    0 <= i < final(self).ids().len() ==> #[trigger] final(self).handle_at(i)
                        == old(self).handle_at(if i < k { i } else { i + 1 }),
            !old(self).active(id@) ==> final(self).ids() == old(self).ids() && forall|i: int|
                0 <= i < final(self).ids().len() ==> #[trigger] final(self).handle_at(i)
                    == old(self).handle_at(i),
    {
        match self.find(id) {
            Some(i) => {
                let ghost before = self.ids();
                let ghost old_entries = self.entries@;
                self.entries.remove(i);
                proof {
                    assert(self.ids() =~= before.remove(i as int));
                    lemma_remove_unique(before, i as int);
                    assert forall|j: int| 0 <= j < self.ids().len() implies #[trigger] self.handle_at(j)
                        == old_entries[if j < i { j } else { j + 1 }].1 by {
                        assert(self.entries@ == old_entries.remove(i as int));
                    }
                }
            },
            None => {},
        }
    }
}

/// Removing the only occurrence of an element leaves the others distinct
/// and the element gone.
proof fn lemma_remove_unique(s: Seq<Seq<char>>, i: int)
    requires
        0 <= i < s.len(),
        forall|a: int, b: int| 0 <= a < b < s.len() ==> #[trigger] s[a] != #[trigger] s[b],
    ensures
        !s.remove(i).contains(s[i]),
        forall|a: int, b: int|
            0 <= a < b < s.remove(i).len() ==> #[trigger] s.remove(i)[a] != #[trigger] s.remove(i)[b],
{
    let r = s.remove(i);
    assert forall|a: int| 0 <= a < r.len() implies r[a] != s[i] by {
        if a < i {
            assert(r[a] == s[a]);
        } else {
            assert(r[a] == s[a + 1]);
        }
    }
    assert forall|a: int, b: int| 0 <= a < b < r.len() implies #[trigger] r[a] != #[trigger] r[b] by {
        if a < i {
            assert(r[a] == s[a]);
        } else {
            assert(r[a] == s[a + 1]);
        }
        if b < i {
            assert(r[b] == s[b]);
        } else {
            assert(r[b] == s[b + 1]);
        }
    }
}

} // verus!
