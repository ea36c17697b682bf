//! The files and folders that the user chose through the application's own
//! pickers, which are the only ones the tag editor and downloads may use.
use vstd::prelude::*;

use crate::text::{chars_eq, chars_of};

verus! {

/// Paths approved by the user, already made canonical.
pub struct FileGrants {
    pub audio: Vec<String>,
    pub images: Vec<String>,
    pub folders: Vec<String>,
}

/// The paths of a list, as a set.
pub open spec fn path_set(v: Seq<String>) -> Set<Seq<char>> {
    Set::new(|p: Seq<char>| exists|i: int| 0 <= i < v.len() && #[trigger] v[i]@ == p)
}

fn contains_path(v: &Vec<String>, path: &str) -> (r: bool)
    ensures
        r == path_set(v@).contains(path@),
{
    let p = chars_of(path);
    let mut i: usize = 0;
    while i < v.len()
        invariant
            i <= v.len(),
            p@ == path@,
            forall|k: int| 0 <= k < i ==> #[trigger] v@[k]@ != path@,
        decreases v.len() - i,
    {
        let e = chars_of(v[i].as_str());
        if chars_eq(e.as_slice(), p.as_slice()) {
            assert(v@[i as int]@ == path@);
            return true;
        }
        i += 1;
    }
    false
}

fn insert_path(v: &mut Vec<String>, path: String)
    ensures
        path_set(final(v)@) == path_set(old(v)@).insert(path@),
{
    if contains_path(v, path.as_str()) {
        assert(path_set(old(v)@).insert(path@) =~= path_set(v@));
        return;
    }
    let ghost before = v@;
    v.push(path);
    assert forall|p: Seq<char>| path_set(v@).contains(p) <==> path_set(before).insert(path@).contains(p) by {
        if path_set(v@).contains(p) {
            let i = choose|i: int| 0 <= i < v@.len() && #[trigger] v@[i]@ == p;
            if i < before.len() {
                assert(before[i]@ == p);
            }
        }
        if path_set(before).contains(p) {
            let i = choose|i: int| 0 <= i < before.len() && #[trigger] before[i]@ == p;
            assert(v@[i]@ == p);
        }
        if p == path@ {
            assert(v@[before.len() as int]@ == p);
        }
    }
    assert(path_set(v@) =~= path_set(before).insert(path@));
}

/// Why a path is refused.
#[derive(Debug, Clone, Copy, PartialEq, Eq, Structural)]
pub enum GrantError {
    AudioNotApproved,
    ImageNotApproved,
    FolderNotApproved,
}

impl GrantError {
    pub open spec fn message_spec(&self) -> Seq<char> {
        match *self {
            GrantError::AudioNotApproved => "Audio file has not been approved by Deezy"@,
            GrantError::ImageNotApproved => "Cover image has not been approved by Deezy"@,
            GrantError::FolderNotApproved => "Download folder has not been approved by Deezy"@,
        }
    }

    /// The error's text, as the user sees it.
    pub fn message(&self) -> (r: String)
        ensures
            r@ == self.message_spec(),
    {
        match *self {
            GrantError::AudioNotApproved => String::from_str(
                "Audio file has not been approved by Deezy",
            ),
            GrantError::ImageNotApproved => String::from_str(
                "Cover image has not been approved by Deezy",
            ),
            GrantError::FolderNotApproved => String::from_str(
                "Download folder has not been approved by Deezy",
            ),
        }
    }
}

pub open spec fn string_views(v: Seq<String>) -> Seq<Seq<char>> {
    v.map_values(|s: String| s@)
}

/// `dir` is a leading run of the components of `file` (`Path::starts_with`).
pub open spec fn is_component_prefix(dir: Seq<Seq<char>>, file: Seq<Seq<char>>) -> bool {
    dir.len() <= file.len() && file.take(dir.len() as int) == dir
}

/// Whether the path with components `file` lies in the folder with
/// components `dir`.
pub fn path_starts_with(file: &Vec<String>, dir: &Vec<String>) -> (r: bool)
    ensures
        r == is_component_prefix(string_views(dir@), string_views(file@)),
{
    if dir.len() > file.len() {
        return false;
    }
    let mut i: usize = 0;
    while i < dir.len()
        invariant
            dir.len() <= file.len(),
            i <= dir.len(),
            forall|k: int| 0 <= k < i ==> #[trigger] file@[k]@ == dir@[k]@,
        decreases dir.len() - i,
    {
        let a = chars_of(file[i].as_str());
        let b = chars_of(dir[i].as_str());
        if !chars_eq(a.as_slice(), b.as_slice()) {
            assert(string_views(file@).take(dir@.len() as int)[i as int] == file@[i as int]@);
            return false;
        }
        i += 1;
    }
    assert(string_views(file@).take(dir@.len() as int) =~= string_views(dir@));
    true
}

impl FileGrants {
    pub open spec fn audio_set(&self) -> Set<Seq<char>> {
        path_set(self.audio@)
    }

    pub open spec fn image_set(&self) -> Set<Seq<char>> {
        path_set(self.images@)
    }

    pub open spec fn folder_set(&self) -> Set<Seq<char>> {
        path_set(self.folders@)
    }

    /// No path approved yet.
    pub fn new() -> (r: Self)
        ensures
            r.audio_set() == Set::<Seq<char>>::empty(),
            r.image_set() == Set::<Seq<char>>::empty(),
            r.folder_set() == Set::<Seq<char>>::empty(),
    {
        let r = FileGrants { audio: Vec::new(), images: Vec::new(), folders: Vec::new() };
        assert(r.audio_set() =~= Set::<Seq<char>>::empty());
        assert(r.image_set() =~= Set::<Seq<char>>::empty());
        assert(r.folder_set() =~= Set::<Seq<char>>::empty());
        r
    }

    /// Approves an audio file that the user picked.
    pub fn grant_audio(&mut self, path: String)
        ensures
            final(self).audio_set() == old(self).audio_set().insert(path@),
            final(self).image_set() == old(self).image_set(),
            final(self).folder_set() == old(self).folder_set(),
    {
        insert_path(&mut self.audio, path);
    }

    /// Approves a cover image that the user picked.
    pub fn grant_image(&mut self, path: String)
        ensures
            final(self).image_set() == old(self).image_set().insert(path@),
            final(self).audio_set() == old(self).audio_set(),
            final(self).folder_set() == old(self).folder_set(),
    {
        insert_path(&mut self.images, path);
    }

    /// Approves a download folder that the user picked.
    pub fn grant_folder(&mut self, path: String)
        ensures
            final(self).folder_set() == old(self).folder_set().insert(path@),
            final(self).audio_set() == old(self).audio_set(),
            final(self).image_set() == old(self).image_set(),
    {
        insert_path(&mut self.folders, path);
    }

    /// An audio file may be edited when it was picked, or when it lies in the
    /// output directory (`output_dir`: its components, when it could be made
    /// canonical).
    pub fn require_audio_file(
        &self,
        path: &str,
        path_components: &Vec<String>,
        output_dir: &Option<Vec<String>>,
    ) -> (r: Result<(), GrantError>)
        ensures
            r is Ok <==> (self.audio_set().contains(path@) || (output_dir matches Some(d)
                && is_component_prefix(string_views(d@), string_views(path_components@)))),
            r is Err ==> r == Err::<(), GrantError>(GrantError::AudioNotApproved),
    {
        if contains_path(&self.audio, path) {
            return Ok(());
        }
        match output_dir {
            Some(d) => if path_starts_with(path_components, d) {
                return Ok(());
            },
            None => {},
        }
        Err(GrantError::AudioNotApproved)
    }

    /// A cover image may be used only when it was picked.
    pub fn require_image_file(&self, path: &str) -> (r: Result<(), GrantError>)
        ensures
            r is Ok <==> self.image_set().contains(path@),
            r is Err ==> r == Err::<(), GrantError>(GrantError::ImageNotApproved),
    {
        if contains_path(&self.images, path) {
            Ok(())
        } else {
            Err(GrantError::ImageNotApproved)
        }
    }

    /// A download folder may be chosen only when it was picked.
    pub fn require_granted_folder(&self, path: &str) -> (r: Result<(), GrantError>)
        ensures
            r is Ok <==> self.folder_set().contains(path@),
            r is Err ==> r == Err::<(), GrantError>(GrantError::FolderNotApproved),
    {
        if contains_path(&self.folders, path) {
            Ok(())
        } else {
            Err(GrantError::FolderNotApproved)
        }
    }
}

/// A granted path stays granted: approving another path of any kind never
/// withdraws an approval, and an approved path is accepted afterwards.
pub proof fn lemma_grants_only_grow(before: Set<Seq<char>>, p: Seq<char>, q: Seq<char>)
    requires
        before.contains(p),
    ensures
        before.insert(q).contains(p),
        before.insert(q).contains(q),
{
}

} // verus!
