//! The file entity: validated construction, read access, and transitions that
//! give a new value and leave the receiver as it was.

use crate::clock::unix_now;
use crate::storage_path::{
    clean_segments, lemma_render_then_split, lemma_split_at_separator,
    lemma_split_without_separator, render_segments, split_segments, StoragePath,
};
use vstd::prelude::*;
use vstd::std_specs::iter::IteratorSpec;

verus! {

/// What can go wrong when a file is built or changed.
#[derive(Debug)]
pub enum FileError {
    /// The name is empty or holds a path separator. Carries the name.
    InvalidFileName(String),
    /// Another attribute was refused. No operation here gives it.
    ValidationError(String),
}

pub type FileResult<T> = Result<T, FileError>;

/// A stored file: who it is, where it lies, and what is known of it.
#[derive(Debug)]
pub struct File {
    id: String,
    name: String,
    storage_path: StoragePath,
    path_string: String,
    size: u64,
    mime_type: String,
    folder_id: Option<String>,
    created_at: u64,
    modified_at: u64,
}

/// A file as a mathematical value.
pub struct FileView {
    pub id: Seq<char>,
    pub name: Seq<char>,
    /// The segments of the storage path, root first.
    pub storage_path: Seq<Seq<char>>,
    /// The string kept beside the storage path.
    pub path_string: Seq<char>,
    pub size: u64,
    pub mime_type: Seq<char>,
    /// The folder that holds the file; `None` at the root.
    pub folder_id: Option<Seq<char>>,
    pub created_at: u64,
    pub modified_at: u64,
}

/// A file name is not empty and holds neither `/` nor `\`.
pub open spec fn valid_file_name(name: Seq<char>) -> bool {
    name.len() > 0 && !name.contains('/') && !name.contains('\\')
}

/// The view of an optional path.
pub open spec fn optional_path_view(path: Option<StoragePath>) -> Option<Seq<Seq<char>>> {
    match path {
        Some(p) => Some(p@),
        None => None,
    }
}

/// The view of an optional string.
pub open spec fn optional_view(text: Option<String>) -> Option<Seq<char>> {
    match text {
        Some(s) => Some(s@),
        None => None,
    }
}

impl FileView {
    /// The kept string is the string form of the storage path.
    pub open spec fn path_in_sync(self) -> bool {
        self.path_string == render_segments(self.storage_path)
    }

    /// The file was not modified before it was created.
    pub open spec fn timestamps_ordered(self) -> bool {
        self.created_at <= self.modified_at
    }

    /// All that holds of a file that was built with validation and changed
    /// by transitions only.
    pub open spec fn well_formed(self) -> bool {
        &&& valid_file_name(self.name)
        &&& self.path_in_sync()
        &&& self.timestamps_ordered()
    }

    /// The file that validated construction gives.
    pub open spec fn created(
        id: Seq<char>,
        name: Seq<char>,
        storage_path: Seq<Seq<char>>,
        size: u64,
        mime_type: Seq<char>,
        folder_id: Option<Seq<char>>,
        created_at: u64,
        modified_at: u64,
    ) -> FileView {
        FileView {
            id,
            name,
            storage_path,
            path_string: render_segments(storage_path),
            size,
            mime_type,
            folder_id,
            created_at,
            modified_at,
        }
    }

    /// The path of this file under another name: beside its old place, or at
    /// the root where the old path has no parent.
    pub open spec fn renamed_path(self, new_name: Seq<char>) -> Seq<Seq<char>> {
        if self.storage_path.len() > 0 {
            self.storage_path.drop_last().push(new_name)
        } else {
            split_segments(new_name)
        }
    }

    /// This file under another name, changed at `now`.
    pub open spec fn renamed(self, new_name: Seq<char>, now: u64) -> FileView {
        FileView {
            name: new_name,
            storage_path: self.renamed_path(new_name),
            path_string: render_segments(self.renamed_path(new_name)),
            modified_at: now,
            ..self
        }
    }

    /// The path of this file in a folder with the given path, or at the root
    /// where none is given.
    pub open spec fn moved_path(self, folder_path: Option<Seq<Seq<char>>>) -> Seq<Seq<char>> {
        match folder_path {
            Some(folder) => folder.push(self.name),
            None => split_segments(self.name),
        }
    }

    /// This file in another folder, changed at `now`.
    pub open spec fn moved(
        self,
        folder_id: Option<Seq<char>>,
        folder_path: Option<Seq<Seq<char>>>,
        now: u64,
    ) -> FileView {
        FileView {
            storage_path: self.moved_path(folder_path),
            path_string: render_segments(self.moved_path(folder_path)),
            folder_id,
            modified_at: now,
            ..self
        }
    }

    /// This file with another size, changed at `now`.
    pub open spec fn resized(self, new_size: u64, now: u64) -> FileView {
        FileView { size: new_size, modified_at: now, ..self }
    }
}

impl View for File {
    type V = FileView;

    closed spec fn view(&self) -> FileView {
        FileView {
            id: self.id@,
            name: self.name@,
            storage_path: self.storage_path@,
            path_string: self.path_string@,
            size: self.size,
            mime_type: self.mime_type@,
            folder_id: optional_view(self.folder_id),
            created_at: self.created_at,
            modified_at: self.modified_at,
        }
    }
}

/// Whether `text` holds the character `wanted`.
pub fn contains_char(text: &str, wanted: char) -> (found: bool)
    ensures
        found == text@.contains(wanted),
{
    let mut chars = text.chars();
    let ghost mut seen: int = 0;
    assert(text@.skip(0) =~= text@);
    loop
        invariant
            0 <= seen <= text@.len(),
            chars.remaining() == text@.skip(seen),
            forall|i: int| 0 <= i < seen ==> text@[i] != wanted,
        ensures
            !text@.contains(wanted),
        decreases text@.len() - seen,
    {
        let ghost before = chars.remaining();
        match chars.next() {
            None => {
                break ;
            },
            Some(c) => {
                assert(c == text@[seen]);
                assert(before.drop_first() =~= text@.skip(seen + 1));
                if c == wanted {
                    return true;
                }
                proof {
                    seen = seen + 1;
                }
            },
        }
    }
    false
}

/// Whether `name` can be the name of a file.
pub fn is_valid_file_name(name: &str) -> (valid: bool)
    ensures
        valid == valid_file_name(name@),
{
    !name.is_empty() && !contains_char(name, '/') && !contains_char(name, '\\')
}

impl File {
    /// Builds a file with the timestamps given, as when one that was stored
    /// is read back. The name is validated; the timestamps are not.
    pub fn with_timestamps(
        id: String,
        name: String,
        storage_path: StoragePath,
        size: u64,
        mime_type: String,
        folder_id: Option<String>,
        created_at: u64,
        modified_at: u64,
    ) -> (built: FileResult<File>)
        ensures
            valid_file_name(name@) ==> built is Ok && built->Ok_0@ == FileView::created(
                id@,
                name@,
                storage_path@,
                size,
                mime_type@,
                optional_view(folder_id),
                created_at,
                modified_at,
            ),
            !valid_file_name(name@) ==> built == FileResult::<File>::Err(
                FileError::InvalidFileName(name),
            ),
    {
        if !is_valid_file_name(name.as_str()) {
            return Err(FileError::InvalidFileName(name));
        }
        let path_string = storage_path.to_string();
        Ok(
            File {
                id,
                name,
                storage_path,
                path_string,
                size,
                mime_type,
                folder_id,
                created_at,
                modified_at,
            },
        )
    }

    /// Builds a file from values that are already trusted: the name is not
    /// validated, and the path string is kept as it is given, beside the path
    /// read from it.
    pub fn from_dto(
        id: String,
        name: String,
        path: String,
        size: u64,
        mime_type: String,
        folder_id: Option<String>,
        created_at: u64,
        modified_at: u64,
    ) -> (built: File)
        ensures
            built@ == (FileView {
                id: id@,
                name: name@,
                storage_path: split_segments(path@),
                path_string: path@,
                size,
                mime_type: mime_type@,
                folder_id: optional_view(folder_id),
                created_at,
                modified_at,
            }),
    {
        let storage_path = StoragePath::from_string(path.as_str());
        File {
            id,
            name,
            storage_path,
            path_string: path,
            size,
            mime_type,
            folder_id,
            created_at,
            modified_at,
        }
    }

    /// Builds a file that is created now. The name is validated; both
    /// timestamps are the one reading of the clock.
    pub fn new(
        id: String,
        name: String,
        storage_path: StoragePath,
        size: u64,
        mime_type: String,
        folder_id: Option<String>,
    ) -> (built: FileResult<File>)
        ensures
            valid_file_name(name@) ==> built is Ok && built->Ok_0@ == FileView::created(
                id@,
                name@,
                storage_path@,
                size,
                mime_type@,
                optional_view(folder_id),
                built->Ok_0@.created_at,
                built->Ok_0@.created_at,
            ),
            valid_file_name(name@) ==> built->Ok_0@.well_formed(),
            !valid_file_name(name@) ==> built == FileResult::<File>::Err(
                FileError::InvalidFileName(name),
            ),
    {
        let now = unix_now();
        File::with_timestamps(id, name, storage_path, size, mime_type, folder_id, now, now)
    }

    /// This file under another name, as changed at `now`. The new name is
    /// validated as at construction. The file stays where it was: the new
    /// path is the old one with its last segment replaced, or the name alone
    /// where the old path is the root.
    pub fn renamed_at(&self, new_name: String, now: u64) -> (renamed: FileResult<File>)
        ensures
            valid_file_name(new_name@) ==> renamed is Ok && renamed->Ok_0@ == self@.renamed(
                new_name@,
                now,
            ),
            !valid_file_name(new_name@) ==> renamed == FileResult::<File>::Err(
                FileError::InvalidFileName(new_name),
            ),
    {
        if !is_valid_file_name(new_name.as_str()) {
            return Err(FileError::InvalidFileName(new_name));
        }
        let storage_path = match self.storage_path.parent() {
            Some(parent) => parent.join(new_name.as_str()),
            None => StoragePath::from_string(new_name.as_str()),
        };
        let path_string = storage_path.to_string();
        Ok(
            File {
                id: self.id.clone(),
                name: new_name,
                storage_path,
                path_string,
                size: self.size,
                mime_type: self.mime_type.clone(),
                folder_id: copy_of(&self.folder_id),
                created_at: self.created_at,
                modified_at: now,
            },
        )
    }

    /// This file under another name, as changed now. Whatever the clock
    /// reads becomes the time of modification; the identifier and the time of
    /// creation stay.
    pub fn with_name(&self, new_name: String) -> (renamed: FileResult<File>)
        ensures
            valid_file_name(new_name@) ==> renamed is Ok && renamed->Ok_0@ == self@.renamed(
                new_name@,
                renamed->Ok_0@.modified_at,
            ),
            valid_file_name(new_name@) ==> renamed->Ok_0@.id == self@.id
                && renamed->Ok_0@.created_at == self@.created_at
                && renamed->Ok_0@.path_in_sync(),
            !valid_file_name(new_name@) ==> renamed == FileResult::<File>::Err(
                FileError::InvalidFileName(new_name),
            ),
    {
        self.renamed_at(new_name, unix_now())
    }

    /// This file in another folder, as changed at `now`. Its path is the
    /// folder's path with the file's name joined on, or the name alone where
    /// no folder path is given. The name is not validated again.
    pub fn moved_at(
        &self,
        folder_id: Option<String>,
        folder_path: Option<StoragePath>,
        now: u64,
    ) -> (moved: File)
        ensures
            moved@ == self@.moved(optional_view(folder_id), optional_path_view(folder_path), now),
    {
        let storage_path = match folder_path {
            Some(folder) => folder.join(self.name.as_str()),
            None => StoragePath::from_string(self.name.as_str()),
        };
        let path_string = storage_path.to_string();
        File {
            id: self.id.clone(),
            name: self.name.clone(),
            storage_path,
            path_string,
            size: self.size,
            mime_type: self.mime_type.clone(),
            folder_id,
            created_at: self.created_at,
            modified_at: now,
        }
    }

    /// This file in another folder, as changed now. It never fails.
    pub fn with_folder(&self, folder_id: Option<String>, folder_path: Option<StoragePath>) -> (moved:
        FileResult<File>)
        ensures
            moved is Ok,
            moved->Ok_0@ == self@.moved(
                optional_view(folder_id),
                optional_path_view(folder_path),
                moved->Ok_0@.modified_at,
            ),
            moved->Ok_0@.storage_path == match folder_path {
                Some(folder) => folder@.push(self@.name),
                None => split_segments(self@.name),
            },
            moved->Ok_0@.path_in_sync(),
            moved->Ok_0@.id == self@.id,
            moved->Ok_0@.name == self@.name,
            moved->Ok_0@.created_at == self@.created_at,
    {
        Ok(self.moved_at(folder_id, folder_path, unix_now()))
    }

    /// This file with another size, as changed at `now`.
    pub fn resized_at(&self, new_size: u64, now: u64) -> (resized: File)
        ensures
            resized@ == self@.resized(new_size, now),
    {
        File {
            id: self.id.clone(),
            name: self.name.clone(),
            storage_path: self.storage_path.clone(),
            path_string: self.path_string.clone(),
            size: new_size,
            mime_type: self.mime_type.clone(),
            folder_id: copy_of(&self.folder_id),
            created_at: self.created_at,
            modified_at: now,
        }
    }

    /// This file with another size, as changed now. Nothing but the size and
    /// the time of modification differs from the receiver.
    pub fn with_size(&self, new_size: u64) -> (resized: File)
        ensures
            resized@ == (FileView {
                size: new_size,
                modified_at: resized@.modified_at,
                ..self@
            }),
    {
        self.resized_at(new_size, unix_now())
    }

    /// The identifier, which no transition changes.
    pub fn id(&self) -> (id: &str)
        ensures
            id@ == self@.id,
    {
        self.id.as_str()
    }

    /// The base name, without any folder.
    pub fn name(&self) -> (name: &str)
        ensures
            name@ == self@.name,
    {
        self.name.as_str()
    }

    /// Where the file lies.
    pub fn storage_path(&self) -> (path: &StoragePath)
        ensures
            path@ == self@.storage_path,
    {
        &self.storage_path
    }

    /// The path as a string, as it is written out.
    pub fn path_string(&self) -> (path: &str)
        ensures
            path@ == self@.path_string,
    {
        self.path_string.as_str()
    }

    /// The size in bytes.
    pub fn size(&self) -> (size: u64)
        ensures
            size == self@.size,
    {
        self.size
    }

    /// The MIME type, as it was given.
    pub fn mime_type(&self) -> (mime_type: &str)
        ensures
            mime_type@ == self@.mime_type,
    {
        self.mime_type.as_str()
    }

    /// The folder that holds the file; `None` at the root.
    pub fn folder_id(&self) -> (folder_id: Option<&str>)
        ensures
            folder_id is Some == self@.folder_id is Some,
            folder_id is Some ==> folder_id->Some_0@ == self@.folder_id->Some_0,
    {
        match &self.folder_id {
            Some(id) => Some(id.as_str()),
            None => None,
        }
    }

    /// When the file was created, in seconds since the epoch.
    pub fn created_at(&self) -> (created_at: u64)
        ensures
            created_at == self@.created_at,
    {
        self.created_at
    }

    /// When the file was last changed, in seconds since the epoch.
    pub fn modified_at(&self) -> (modified_at: u64)
        ensures
            modified_at == self@.modified_at,
    {
        self.modified_at
    }
}

/// A copy of an optional string.
fn copy_of(text: &Option<String>) -> (copy: Option<String>)
    ensures
        optional_view(copy) == optional_view(*text),
{
    match text {
        Some(s) => Some(s.clone()),
        None => None,
    }
}

impl Clone for File {
    fn clone(&self) -> (copy: File)
        ensures
            copy@ == self@,
    {
        File {
            id: self.id.clone(),
            name: self.name.clone(),
            storage_path: self.storage_path.clone(),
            path_string: self.path_string.clone(),
            size: self.size,
            mime_type: self.mime_type.clone(),
            folder_id: copy_of(&self.folder_id),
            created_at: self.created_at,
            modified_at: self.modified_at,
        }
    }
}

/// Whether two optional strings hold the same text, or both none.
fn same_text(left: &Option<String>, right: &Option<String>) -> (same: bool)
    ensures
        same == (optional_view(*left) == optional_view(*right)),
{
    match (left, right) {
        (Some(l), Some(r)) => *l == *r,
        (None, None) => true,
        _ => false,
    }
}

impl PartialEq for File {
    /// Two files are equal where every field is.
    fn eq(&self, other: &File) -> (same: bool) {
        self.id == other.id && self.name == other.name && self.storage_path == other.storage_path
            && self.path_string == other.path_string && self.size == other.size
            && self.mime_type == other.mime_type && same_text(&self.folder_id, &other.folder_id)
            && self.created_at == other.created_at && self.modified_at == other.modified_at
    }
}

impl vstd::std_specs::cmp::PartialEqSpecImpl for File {
    open spec fn obeys_eq_spec() -> bool {
        true
    }

    open spec fn eq_spec(&self, other: &File) -> bool {
        self@ == other@
    }
}

impl Eq for File {

}

impl Default for File {
    /// A placeholder at the root, of no size, for where a value is needed and
    /// none is known. It is no real file.
    fn default() -> (stub: File)
        ensures
            stub@ == (FileView {
                id: "stub-id"@,
                name: "stub-file.txt"@,
                storage_path: Seq::empty(),
                path_string: seq!['/'],
                size: 0,
                mime_type: "application/octet-stream"@,
                folder_id: None,
                created_at: 0,
                modified_at: 0,
            }),
            stub@.path_in_sync(),
    {
        proof {
            reveal_strlit("/");
            lemma_split_at_separator("/"@, 0);
            assert("/"@.skip(1) =~= Seq::<char>::empty());
            assert("/"@ =~= seq!['/']);
        }
        File {
            id: "stub-id".to_owned(),
            name: "stub-file.txt".to_owned(),
            storage_path: StoragePath::from_string("/"),
            path_string: "/".to_owned(),
            size: 0,
            mime_type: "application/octet-stream".to_owned(),
            folder_id: None,
            created_at: 0,
            modified_at: 0,
        }
    }
}

/// A valid file name, read as a path, is the one segment that it spells: it
/// lies directly under the root.
pub proof fn lemma_valid_name_is_one_segment(name: Seq<char>)
    requires
        valid_file_name(name),
    ensures
        split_segments(name) == seq![name],
{
    lemma_split_without_separator(name);
}

/// Renaming keeps the identifier and the time of creation. The time of
/// modification becomes the clock's reading, so it does not go back where
/// the clock has not gone back behind it.
pub proof fn lemma_rename_keeps_identity(file: FileView, new_name: Seq<char>, now: u64)
    requires
        file.modified_at <= now,
    ensures
        file.renamed(new_name, now).id == file.id,
        file.renamed(new_name, now).created_at == file.created_at,
        file.renamed(new_name, now).modified_at >= file.modified_at,
{
}

/// Every transition carries the identifier and the time of creation forward
/// and sets the time of modification to the time it is given.
pub proof fn lemma_transitions_keep_identity(
    file: FileView,
    new_name: Seq<char>,
    folder_id: Option<Seq<char>>,
    folder_path: Option<Seq<Seq<char>>>,
    new_size: u64,
    now: u64,
)
    ensures
        file.renamed(new_name, now).id == file.id,
        file.renamed(new_name, now).created_at == file.created_at,
        file.renamed(new_name, now).modified_at == now,
        file.moved(folder_id, folder_path, now).id == file.id,
        file.moved(folder_id, folder_path, now).created_at == file.created_at,
        file.moved(folder_id, folder_path, now).modified_at == now,
        file.resized(new_size, now).id == file.id,
        file.resized(new_size, now).created_at == file.created_at,
        file.resized(new_size, now).modified_at == now,
{
}

/// A renamed file lies where it lay, under its new name: the path keeps all
/// segments but the last, which is the new name; a file whose path was the
/// root gets the new name as a path directly under the root.
pub proof fn lemma_rename_replaces_last_segment(file: FileView, new_name: Seq<char>, now: u64)
    requires
        valid_file_name(new_name),
    ensures
        file.renamed(new_name, now).storage_path.last() == new_name,
        file.storage_path.len() > 0 ==> file.renamed(new_name, now).storage_path.drop_last()
            == file.storage_path.drop_last(),
        file.storage_path.len() == 0 ==> file.renamed(new_name, now).storage_path
            == seq![new_name],
{
    lemma_valid_name_is_one_segment(new_name);
    if file.storage_path.len() > 0 {
        let parent = file.storage_path.drop_last();
        assert(parent.push(new_name).drop_last() =~= parent);
    }
}

/// A file moved into a folder lies at the folder's path with its name joined
/// on; one moved to the root lies at its name, read as a path, which for a
/// valid name is that one segment.
pub proof fn lemma_move_joins_name(
    file: FileView,
    folder_id: Option<Seq<char>>,
    folder_path: Option<Seq<Seq<char>>>,
    now: u64,
)
    ensures
        folder_path is Some ==> file.moved(folder_id, folder_path, now).storage_path
            == folder_path->Some_0.push(file.name),
        folder_path is None ==> file.moved(folder_id, folder_path, now).storage_path
            == split_segments(file.name),
        folder_path is None && valid_file_name(file.name) ==> file.moved(
            folder_id,
            folder_path,
            now,
        ).storage_path == seq![file.name],
{
    if valid_file_name(file.name) {
        lemma_valid_name_is_one_segment(file.name);
    }
}

/// Resizing changes the size and the time of modification, and no other
/// field.
pub proof fn lemma_resize_keeps_the_rest(file: FileView, new_size: u64, now: u64)
    ensures
        file.resized(new_size, now).size == new_size,
        file.resized(new_size, now).modified_at == now,
        file.resized(new_size, now).id == file.id,
        file.resized(new_size, now).name == file.name,
        file.resized(new_size, now).storage_path == file.storage_path,
        file.resized(new_size, now).path_string == file.path_string,
        file.resized(new_size, now).mime_type == file.mime_type,
        file.resized(new_size, now).folder_id == file.folder_id,
        file.resized(new_size, now).created_at == file.created_at,
{
}

/// Every transition of a well-formed file gives a well-formed file, as long
/// as the clock does not read a time before the file's creation.
pub proof fn lemma_transitions_keep_well_formed(
    file: FileView,
    new_name: Seq<char>,
    folder_id: Option<Seq<char>>,
    folder_path: Option<Seq<Seq<char>>>,
    new_size: u64,
    now: u64,
)
    requires
        file.well_formed(),
        file.created_at <= now,
    ensures
        valid_file_name(new_name) ==> file.renamed(new_name, now).well_formed(),
        file.moved(folder_id, folder_path, now).well_formed(),
        file.resized(new_size, now).well_formed(),
{
}

/// Transitions keep a clean path clean: with valid names, and a clean folder
/// path where one is given, no transition brings an empty segment or a
/// separator into the path.
pub proof fn lemma_transitions_keep_path_clean(
    file: FileView,
    new_name: Seq<char>,
    folder_id: Option<Seq<char>>,
    folder_path: Option<Seq<Seq<char>>>,
    new_size: u64,
    now: u64,
)
    requires
        clean_segments(file.storage_path),
    ensures
        valid_file_name(new_name) ==> clean_segments(file.renamed(new_name, now).storage_path),
        valid_file_name(file.name) && (folder_path is Some ==> clean_segments(folder_path->Some_0))
            ==> clean_segments(file.moved(folder_id, folder_path, now).storage_path),
        clean_segments(file.resized(new_size, now).storage_path),
{
    if valid_file_name(new_name) {
        lemma_valid_name_is_one_segment(new_name);
    }
    if valid_file_name(file.name) {
        lemma_valid_name_is_one_segment(file.name);
    }
}

/// What is kept of a file's place is its path string alone. For a file whose
/// path string is in sync and whose path is clean, reading that string gives
/// the path back.
pub proof fn lemma_path_string_restores_path(file: FileView)
    requires
        file.path_in_sync(),
        clean_segments(file.storage_path),
    ensures
        split_segments(file.path_string) == file.storage_path,
{
    lemma_render_then_split(file.storage_path);
}

} // verus!
