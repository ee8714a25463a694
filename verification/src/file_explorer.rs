//! The interactive browser's state: the current directory listing, the
//! selected image, and the output name, mutated only by named actions.  All
//! file-system reading stays with the caller, which hands in plain directory
//! entries; everything the state does with them is exact.

use vstd::prelude::*;
use crate::paths::{
    ext_spec,
    file_name_spec,
    file_name_of,
    join_path,
    join_path_spec,
    path_components_spec,
    split_path,
    split_stem_ext,
    stem_spec,
};

verus! {

/// One directory entry, as the caller read it: the full path, the final
/// component, and what kind of entry it is.
pub struct FsEntry {
    pub path: String,
    pub name: String,
    pub is_dir: bool,
    pub is_file: bool,
}

/// An entry the listing keeps as an image file: a plain file whose
/// extension is on the allow-list.
pub open spec fn is_image_entry(e: FsEntry, exts: Seq<Seq<char>>) -> bool {
    &&& !e.is_dir
    &&& e.is_file
    &&& exts.contains(ext_spec(file_name_spec(e.path@)))
}

/// Paths of the subdirectories among `entries`, in listing order.
pub open spec fn dir_paths_of(entries: Seq<FsEntry>) -> Seq<String>
    decreases entries.len(),
{
    if entries.len() == 0 {
        Seq::empty()
    } else {
        let rest = dir_paths_of(entries.drop_last());
        if entries.last().is_dir {
            rest.push(entries.last().path)
        } else {
            rest
        }
    }
}

/// Names of the subdirectories among `entries`, in listing order.
pub open spec fn dir_names_of(entries: Seq<FsEntry>) -> Seq<String>
    decreases entries.len(),
{
    if entries.len() == 0 {
        Seq::empty()
    } else {
        let rest = dir_names_of(entries.drop_last());
        if entries.last().is_dir {
            rest.push(entries.last().name)
        } else {
            rest
        }
    }
}

/// Paths of the image files among `entries`, in listing order.
pub open spec fn image_paths_of(entries: Seq<FsEntry>, exts: Seq<Seq<char>>) -> Seq<String>
    decreases entries.len(),
{
    if entries.len() == 0 {
        Seq::empty()
    } else {
        let rest = image_paths_of(entries.drop_last(), exts);
        if is_image_entry(entries.last(), exts) {
            rest.push(entries.last().path)
        } else {
            rest
        }
    }
}

/// Names of the image files among `entries`, in listing order.
pub open spec fn image_names_of(entries: Seq<FsEntry>, exts: Seq<Seq<char>>) -> Seq<String>
    decreases entries.len(),
{
    if entries.len() == 0 {
        Seq::empty()
    } else {
        let rest = image_names_of(entries.drop_last(), exts);
        if is_image_entry(entries.last(), exts) {
            rest.push(entries.last().name)
        } else {
            rest
        }
    }
}

/// The extensions a candidate input image may carry.
pub open spec fn default_extensions_spec() -> Seq<Seq<char>> {
    seq![
        "bmp"@,
        "dib"@,
        "jpeg"@,
        "jpg"@,
        "jpe"@,
        "jp2"@,
        "png"@,
        "webp"@,
        "avif"@,
        "pbm"@,
        "pgm"@,
        "ppm"@,
        "pxm"@,
        "pnm"@,
        "pfm"@,
        "sr"@,
        "ras"@,
        "tiff"@,
        "tif"@,
        "exr"@,
        "hdr"@,
        "pic"@,
    ]
}

/// The browser state.  The four listing vectors stay paired: one name per
/// path, and a selection index always inside the file listing.
pub struct FileExplorer {
    pub current_dir: String,
    pub split_current_dir: Vec<String>,
    pub selected_file: Option<String>,
    pub selected_file_index: Option<usize>,
    pub output_img_name: String,
    pub output_img_dir: String,
    pub dir_vec: Vec<String>,
    pub file_vec: Vec<String>,
    pub dirnames: Vec<String>,
    pub filenames: Vec<String>,
    pub allowed_extensions: Vec<String>,
    pub err: Option<String>,
}

proof fn lemma_listing_lengths(entries: Seq<FsEntry>, exts: Seq<Seq<char>>)
    ensures
        image_paths_of(entries, exts).len() == image_names_of(entries, exts).len(),
        dir_paths_of(entries).len() == dir_names_of(entries).len(),
    decreases entries.len(),
{
    if entries.len() > 0 {
        lemma_listing_lengths(entries.drop_last(), exts);
    }
}

/// The selection index points at the first file whose path matches the
/// selected one, and is absent exactly when none matches (or nothing is
/// selected).
pub open spec fn selection_index_matches(
    files: Seq<String>,
    sel: Option<String>,
    idx: Option<usize>,
) -> bool {
    match sel {
        None => idx is None,
        Some(s) => match idx {
            Some(j) => {
                &&& j < files.len()
                &&& files[j as int]@ == s@
                &&& forall|k: int| 0 <= k < j ==> files[k]@ != s@
            },
            None => forall|k: int| 0 <= k < files.len() ==> files[k]@ != s@,
        },
    }
}

/// Everything but the selection agrees between the two states.
pub open spec fn same_but_selection(a: FileExplorer, b: FileExplorer) -> bool {
    &&& b.current_dir == a.current_dir
    &&& b.split_current_dir == a.split_current_dir
    &&& b.output_img_name == a.output_img_name
    &&& b.output_img_dir == a.output_img_dir
    &&& b.spec_files() == a.spec_files()
    &&& b.spec_filenames() == a.spec_filenames()
    &&& b.spec_dirs() == a.spec_dirs()
    &&& b.spec_dirnames() == a.spec_dirnames()
    &&& b.allowed_extensions == a.allowed_extensions
    &&& b.err == a.err
}

impl FileExplorer {
    pub open spec fn spec_files(self) -> Seq<String> {
        self.file_vec@
    }

    pub open spec fn spec_filenames(self) -> Seq<String> {
        self.filenames@
    }

    pub open spec fn spec_dirs(self) -> Seq<String> {
        self.dir_vec@
    }

    pub open spec fn spec_dirnames(self) -> Seq<String> {
        self.dirnames@
    }

    /// The allow-list, by character content.
    pub open spec fn spec_extensions(self) -> Seq<Seq<char>> {
        self.allowed_extensions@.map_values(|s: String| s@)
    }

    pub open spec fn wf(self) -> bool {
        &&& self.spec_files().len() == self.spec_filenames().len()
        &&& self.spec_dirs().len() == self.spec_dirnames().len()
        &&& match self.selected_file_index {
            Some(i) => i < self.spec_files().len(),
            None => true,
        }
    }

    /// A fresh browser with nothing listed or selected and the default
    /// extension allow-list.  The caller points it at a directory with
    /// [`FileExplorer::change_dir`].
    pub fn new() -> (r: FileExplorer)
        ensures
            r.wf(),
            r.current_dir@ == Seq::<char>::empty(),
            r.split_current_dir@ == Seq::<String>::empty(),
            r.selected_file is None,
            r.selected_file_index is None,
            r.output_img_name@ == Seq::<char>::empty(),
            r.output_img_dir@ == Seq::<char>::empty(),
            r.spec_files() == Seq::<String>::empty(),
            r.spec_filenames() == Seq::<String>::empty(),
            r.spec_dirs() == Seq::<String>::empty(),
            r.spec_dirnames() == Seq::<String>::empty(),
            r.spec_extensions() == default_extensions_spec(),
            r.err is None,
    {
        let mut exts: Vec<String> = Vec::new();
        exts.push(String::from_str("bmp"));
        exts.push(String::from_str("dib"));
        exts.push(String::from_str("jpeg"));
        exts.push(String::from_str("jpg"));
        exts.push(String::from_str("jpe"));
        exts.push(String::from_str("jp2"));
        exts.push(String::from_str("png"));
        exts.push(String::from_str("webp"));
        exts.push(String::from_str("avif"));
        exts.push(String::from_str("pbm"));
        exts.push(String::from_str("pgm"));
        exts.push(String::from_str("ppm"));
        exts.push(String::from_str("pxm"));
        exts.push(String::from_str("pnm"));
        exts.push(String::from_str("pfm"));
        exts.push(String::from_str("sr"));
        exts.push(String::from_str("ras"));
        exts.push(String::from_str("tiff"));
        exts.push(String::from_str("tif"));
        exts.push(String::from_str("exr"));
        exts.push(String::from_str("hdr"));
        exts.push(String::from_str("pic"));
        let r = FileExplorer {
            current_dir: String::new(),
            split_current_dir: Vec::new(),
            selected_file: None,
            selected_file_index: None,
            output_img_name: String::new(),
            output_img_dir: String::new(),
            dir_vec: Vec::new(),
            file_vec: Vec::new(),
            dirnames: Vec::new(),
            filenames: Vec::new(),
            allowed_extensions: exts,
            err: None,
        };
        proof {
            assert(r.spec_extensions() =~= default_extensions_spec());
        }
        r
    }

    /// Whether the path names a file the browser treats as an image: its
    /// extension is on the allow-list.
    pub fn is_file_valid_image_ext(&self, img_path: &str) -> (r: bool)
        ensures
            r == self.spec_extensions().contains(ext_spec(file_name_spec(img_path@))),
    {
        let name = file_name_of(img_path);
        let (_stem, ext) = split_stem_ext(name.as_str());
        let mut i: usize = 0;
        while i < self.allowed_extensions.len()
            invariant
                i <= self.allowed_extensions@.len(),
                ext@ == ext_spec(file_name_spec(img_path@)),
                forall|j: int| 0 <= j < i ==> self.spec_extensions()[j] != ext@,
            decreases self.allowed_extensions@.len() - i,
        {
            if self.allowed_extensions[i].eq(&ext) {
                proof {
                    assert(self.spec_extensions()[i as int] == ext@);
                }
                return true;
            }
            i = i + 1;
        }
        proof {
            assert(forall|j: int|
                0 <= j < self.spec_extensions().len() ==> self.spec_extensions()[j] != ext@);
        }
        false
    }

    /// The selected file's path, if one is selected.
    pub fn get_filepath(&self) -> (r: Option<String>)
        ensures
            r is Some <==> self.selected_file is Some,
            r is Some ==> r.unwrap() == self.selected_file.unwrap(),
    {
        match &self.selected_file {
            Some(p) => Some(p.clone()),
            None => None,
        }
    }

    /// Moves the selection one file back, clamped at the first file; with
    /// nothing selected yet, selects the first file.  Does nothing while the
    /// listing is empty.
    pub fn previous_file(&mut self)
        requires
            old(self).wf(),
        ensures
            final(self).wf(),
            old(self).spec_files().len() == 0 ==> *final(self) == *old(self),
            old(self).spec_files().len() > 0 ==> {
                let ni: int = match old(self).selected_file_index {
                    Some(i) => if i > 0 {
                        i - 1
                    } else {
                        0int
                    },
                    None => 0int,
                };
                &&& same_but_selection(*old(self), *final(self))
                &&& final(self).selected_file_index == Some(ni as usize)
                &&& final(self).selected_file == Some(
                    old(self).spec_files()[
                        match old(self).selected_file {
                            Some(_) => ni,
                            None => 0int,
                        }
                    ],
                )
            },
    {
        if self.file_vec.len() > 0 {
            let new_index: usize = match self.selected_file_index {
                Some(index) => if index > 0 {
                    index - 1
                } else {
                    0
                },
                None => 0,
            };
            self.selected_file_index = Some(new_index);
            let new_selected_file = match self.selected_file {
                Some(_) => self.file_vec[new_index].clone(),
                None => self.file_vec[0].clone(),
            };
            self.selected_file = Some(new_selected_file);
        }
    }

    /// Moves the selection one file forward, clamped at the last file; with
    /// nothing selected yet, selects the first file.  Does nothing while the
    /// listing is empty.
    pub fn next_file(&mut self)
        requires
            old(self).wf(),
        ensures
            final(self).wf(),
            old(self).spec_files().len() == 0 ==> *final(self) == *old(self),
            old(self).spec_files().len() > 0 ==> {
                let last: int = old(self).spec_files().len() - 1;
                let ni: int = match old(self).selected_file_index {
                    Some(i) => if i + 1 < last {
                        i + 1
                    } else {
                        last
                    },
                    None => 0int,
                };
                &&& same_but_selection(*old(self), *final(self))
                &&& final(self).selected_file_index == Some(ni as usize)
                &&& final(self).selected_file == Some(
                    old(self).spec_files()[
                        match old(self).selected_file {
                            Some(_) => ni,
                            None => 0int,
                        }
                    ],
                )
            },
    {
        if self.file_vec.len() > 0 {
            let last = self.file_vec.len() - 1;
            let new_index: usize = match self.selected_file_index {
                Some(index) => if index + 1 < last {
                    index + 1
                } else {
                    last
                },
                None => 0,
            };
            self.selected_file_index = Some(new_index);
            let new_selected_file = match self.selected_file {
                Some(_) => self.file_vec[new_index].clone(),
                None => self.file_vec[0].clone(),
            };
            self.selected_file = Some(new_selected_file);
        }
    }

    /// Rebuilds the directory and image listings from a fresh set of
    /// directory entries, keeping an entry as an image only when it is a
    /// plain file with an allow-listed extension, and re-finds the selected
    /// file in the new listing by path.
    pub fn update_paths(&mut self, entries: &Vec<FsEntry>)
        ensures
            final(self).wf(),
            final(self).spec_dirs() == dir_paths_of(entries@),
            final(self).spec_dirnames() == dir_names_of(entries@),
            final(self).spec_files() == image_paths_of(entries@, old(self).spec_extensions()),
            final(self).spec_filenames() == image_names_of(
                entries@,
                old(self).spec_extensions(),
            ),
            final(self).current_dir == old(self).current_dir,
            final(self).split_current_dir == old(self).split_current_dir,
            final(self).output_img_name == old(self).output_img_name,
            final(self).output_img_dir == old(self).output_img_dir,
            final(self).allowed_extensions == old(self).allowed_extensions,
            final(self).selected_file == old(self).selected_file,
            final(self).err is None,
            selection_index_matches(
                final(self).spec_files(),
                old(self).selected_file,
                final(self).selected_file_index,
            ),
    {
        self.selected_file_index = None;
        self.dir_vec = Vec::new();
        self.file_vec = Vec::new();
        self.dirnames = Vec::new();
        self.filenames = Vec::new();
        let mut i: usize = 0;
        while i < entries.len()
            invariant
                i <= entries@.len(),
                self.allowed_extensions == old(self).allowed_extensions,
                self.current_dir == old(self).current_dir,
                self.split_current_dir == old(self).split_current_dir,
                self.output_img_name == old(self).output_img_name,
                self.output_img_dir == old(self).output_img_dir,
                self.selected_file == old(self).selected_file,
                self.err == old(self).err,
                self.selected_file_index is None,
                self.spec_dirs() == dir_paths_of(entries@.take(i as int)),
                self.spec_dirnames() == dir_names_of(entries@.take(i as int)),
                self.spec_files() == image_paths_of(
                    entries@.take(i as int),
                    old(self).spec_extensions(),
                ),
                self.spec_filenames() == image_names_of(
                    entries@.take(i as int),
                    old(self).spec_extensions(),
                ),
            decreases entries@.len() - i,
        {
            proof {
                assert(entries@.take(i + 1 as int).drop_last() =~= entries@.take(i as int));
                assert(entries@.take(i + 1 as int).last() == entries@[i as int]);
            }
            let e = &entries[i];
            if e.is_dir {
                self.dir_vec.push(e.path.clone());
                self.dirnames.push(e.name.clone());
            } else {
                let keep = e.is_file && self.is_file_valid_image_ext(e.path.as_str());
                if keep {
                    self.file_vec.push(e.path.clone());
                    self.filenames.push(e.name.clone());
                }
            }
            i = i + 1;
        }
        proof {
            assert(entries@.take(entries@.len() as int) =~= entries@);
            lemma_listing_lengths(entries@, old(self).spec_extensions());
        }
        let mut idx: Option<usize> = None;
        match &self.selected_file {
            Some(sel) => {
                let mut j: usize = 0;
                while j < self.file_vec.len() && idx.is_none()
                    invariant
                        j <= self.spec_files().len(),
                        match idx {
                            Some(jj) => jj < self.spec_files().len()
                                && self.spec_files()[jj as int]@ == sel@ && (forall|k: int|
                                0 <= k < jj ==> self.spec_files()[k]@ != sel@),
                            None => forall|k: int|
                                0 <= k < j ==> self.spec_files()[k]@ != sel@,
                        },
                    decreases self.spec_files().len() - j,
                {
                    if self.file_vec[j].eq(sel) {
                        idx = Some(j);
                    }
                    j = j + 1;
                }
            },
            None => {},
        }
        self.selected_file_index = idx;
        self.err = None;
    }

    /// Selects the file at position `i` of the image listing and resets the
    /// output name to the default derived from it.
    pub fn select_file(&mut self, i: usize)
        requires
            old(self).wf(),
            i < old(self).spec_files().len(),
        ensures
            final(self).wf(),
            final(self).selected_file == Some(old(self).spec_files()[i as int]),
            final(self).selected_file_index == Some(i),
            final(self).output_img_name@ == stem_spec(
                file_name_spec(old(self).spec_files()[i as int]@),
            ) + "_crop."@ + ext_spec(file_name_spec(old(self).spec_files()[i as int]@)),
            final(self).current_dir == old(self).current_dir,
            final(self).split_current_dir == old(self).split_current_dir,
            final(self).output_img_dir == old(self).output_img_dir,
            final(self).spec_files() == old(self).spec_files(),
            final(self).spec_filenames() == old(self).spec_filenames(),
            final(self).spec_dirs() == old(self).spec_dirs(),
            final(self).spec_dirnames() == old(self).spec_dirnames(),
            final(self).allowed_extensions == old(self).allowed_extensions,
            final(self).err == old(self).err,
    {
        self.selected_file = Some(self.file_vec[i].clone());
        self.selected_file_index = Some(i);
        self.output_img_name = self.get_default_output_filename();
    }

    /// Recomputes the breadcrumb components of the current directory.
    pub fn set_split_current_dir(&mut self)
        ensures
            final(self).split_current_dir@.map_values(|s: String| s@) == path_components_spec(
                old(self).current_dir@,
            ),
            *final(self) == (FileExplorer {
                split_current_dir: final(self).split_current_dir,
                ..*old(self)
            }),
    {
        let parts = split_path(self.current_dir.as_str());
        self.split_current_dir = parts;
    }

    /// Points the browser at a directory.  The caller resolves the path and
    /// lists the directory; the state takes the resolved path as the current
    /// directory, remembers the requested one as the output directory, and
    /// rebuilds breadcrumbs and listings.
    pub fn change_dir(&mut self, new_dir: &str, canonical_dir: &str, entries: &Vec<FsEntry>)
        ensures
            final(self).wf(),
            final(self).current_dir@ == canonical_dir@,
            final(self).output_img_dir@ == new_dir@,
            final(self).split_current_dir@.map_values(|s: String| s@) == path_components_spec(
                canonical_dir@,
            ),
            final(self).spec_dirs() == dir_paths_of(entries@),
            final(self).spec_dirnames() == dir_names_of(entries@),
            final(self).spec_files() == image_paths_of(entries@, old(self).spec_extensions()),
            final(self).spec_filenames() == image_names_of(
                entries@,
                old(self).spec_extensions(),
            ),
            final(self).allowed_extensions == old(self).allowed_extensions,
            final(self).selected_file == old(self).selected_file,
            final(self).output_img_name == old(self).output_img_name,
            final(self).err is None,
            selection_index_matches(
                final(self).spec_files(),
                old(self).selected_file,
                final(self).selected_file_index,
            ),
    {
        self.current_dir = String::from_str(canonical_dir);
        self.output_img_dir = String::from_str(new_dir);
        self.set_split_current_dir();
        self.update_paths(entries);
    }

    /// Where the cropped image is saved: the chosen output directory with
    /// the output name appended.
    pub fn output_full_path(&self) -> (r: String)
        ensures
            r@ == join_path_spec(self.output_img_dir@, self.output_img_name@),
    {
        join_path(self.output_img_dir.as_str(), self.output_img_name.as_str())
    }

    /// The default output name for the selected file: its stem with `_crop`
    /// appended before the extension; empty while nothing is selected.
    pub fn get_default_output_filename(&self) -> (r: String)
        ensures
            match self.selected_file {
                Some(p) => r@ == stem_spec(file_name_spec(p@)) + "_crop."@ + ext_spec(
                    file_name_spec(p@),
                ),
                None => r@ == Seq::<char>::empty(),
            },
    {
        match &self.selected_file {
            Some(p) => {
                let name = file_name_of(p.as_str());
                let (stem, ext) = split_stem_ext(name.as_str());
                let mut out = stem;
                out.append("_crop.");
                out.append(ext.as_str());
                out
            },
            None => String::new(),
        }
    }
}

} // verus!
