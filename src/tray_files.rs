use vstd::prelude::*;

use crate::kinds::kind_of_code;
use crate::constants::{
    BLUEPRINT_EXT, BPI_EXT, HHI_EXT, HOUSEHOLDBINARY_EXT, RMI_EXT, ROOM_EXT, SGI_EXT, TRAYITEM_EXT,
};
use crate::utils::{
    decode_stem, extract_id_and_type, file_extension, file_stem, name_field, parse_item_name,
    split_file_name,
};

verus! {

/// Why a file was left out of the gallery.
#[derive(Clone, Copy, Debug, PartialEq, Eq, Structural)]
pub enum TrayError {
    /// The stem does not split into a type code and an identifier that read as hexadecimal.
    MalformedFilename,
    /// The type code is not one of a household, a plot or a room.
    UnknownItemType,
    /// The file ends before its name field does.
    TruncatedHeader,
    /// The file's contents could not be read.
    UnreadableFile,
    /// The file has no extension, or one that belongs to no kind of gallery file.
    UnsupportedExtension,
}

/// What part a file plays in a gallery item, by its extension.
#[derive(Clone, Copy, Debug, PartialEq, Eq, Structural)]
pub enum FileRole {
    /// The item's descriptor, whose header holds the display name.
    Primary,
    /// A companion with the item's own identifier.
    Auxiliary,
    /// A companion whose identifier continues the item's.
    Sequel,
}

/// The role that an extension gives a file.
pub open spec fn role_of_extension(e: Seq<char>) -> Option<FileRole> {
    if e == TRAYITEM_EXT@ {
        Some(FileRole::Primary)
    } else if e == HOUSEHOLDBINARY_EXT@ || e == HHI_EXT@ || e == BLUEPRINT_EXT@ || e == BPI_EXT@
        || e == ROOM_EXT@ || e == RMI_EXT@ {
        Some(FileRole::Auxiliary)
    } else if e == SGI_EXT@ {
        Some(FileRole::Sequel)
    } else {
        None
    }
}

/// The role of a file by its name.
pub open spec fn role_of_file_name(name: Seq<char>) -> Result<FileRole, TrayError> {
    match file_extension(name) {
        None => Err(TrayError::UnsupportedExtension),
        Some(e) => match role_of_extension(e) {
            None => Err(TrayError::UnsupportedExtension),
            Some(role) => Ok(role),
        },
    }
}

/// Tells the role of a file by its name (extensions match exactly, case included).
pub fn file_role(file_name: &str) -> (r: Result<FileRole, TrayError>)
    ensures
        r == role_of_file_name(file_name@),
{
    let (_, ext) = split_file_name(file_name);
    let ext = match ext {
        Some(e) => e,
        None => return Err(TrayError::UnsupportedExtension),
    };
    if ext == String::from_str(TRAYITEM_EXT) {
        Ok(FileRole::Primary)
    } else if ext == String::from_str(HOUSEHOLDBINARY_EXT) || ext == String::from_str(HHI_EXT)
        || ext == String::from_str(BLUEPRINT_EXT) || ext == String::from_str(BPI_EXT)
        || ext == String::from_str(ROOM_EXT) || ext == String::from_str(RMI_EXT) {
        Ok(FileRole::Auxiliary)
    } else if ext == String::from_str(SGI_EXT) {
        Ok(FileRole::Sequel)
    } else {
        Err(TrayError::UnsupportedExtension)
    }
}

/// A value of a `Result`, seen through its view.
pub open spec fn view_result<T: View, E>(r: Result<T, E>) -> Result<T::V, E> {
    match r {
        Ok(v) => Ok(v@),
        Err(e) => Err(e),
    }
}

/// A primary item: the descriptor file of one gallery item and the name in its header.
pub struct TrayItem {
    pub path: String,
    pub name: String,
    pub id: u64,
    pub file_type: u32,
    pub filename: String,
}

/// What a primary item holds, as plain values.
pub struct TrayItemView {
    pub path: Seq<char>,
    pub name: Seq<char>,
    pub id: u64,
    pub file_type: u32,
    pub filename: Seq<char>,
}

impl View for TrayItem {
    type V = TrayItemView;

    open spec fn view(&self) -> TrayItemView {
        TrayItemView {
            path: self.path@,
            name: self.name@,
            id: self.id,
            file_type: self.file_type,
            filename: self.filename@,
        }
    }
}

/// The primary item that a file gives: its stem decodes and its header holds a name.
pub open spec fn primary_item(path: Seq<char>, filename: Seq<char>, content: Seq<u8>) -> Result<
    TrayItemView,
    TrayError,
> {
    match decode_stem(file_stem(filename)) {
        None => Err(TrayError::MalformedFilename),
        Some((file_type, id)) => match name_field(content, file_type) {
            Err(e) => Err(e),
            Ok(name) => Ok(TrayItemView { path, name, id, file_type, filename }),
        },
    }
}

impl TrayItem {
    /// Builds the primary item of the file at `path`, named `filename`, from its contents.
    pub fn new(path: String, filename: String, content: &Vec<u8>) -> (r: Result<TrayItem, TrayError>)
        ensures
            view_result(r) == primary_item(path@, filename@, content@),
    {
        let (stem, _) = split_file_name(filename.as_str());
        let (file_type, id) = match extract_id_and_type(stem.as_str()) {
            Some(pair) => pair,
            None => return Err(TrayError::MalformedFilename),
        };
        let name = match parse_item_name(content, file_type) {
            Ok(name) => name,
            Err(e) => return Err(e),
        };
        Ok(TrayItem { path, name, id, file_type, filename })
    }
}

/// An auxiliary or sequel file: known by its identifier alone.
pub struct TrayItemFile {
    pub path: String,
    pub id: u64,
    pub file_type: u32,
    pub filename: String,
}

/// What an auxiliary or sequel file holds, as plain values.
pub struct TrayFileView {
    pub path: Seq<char>,
    pub id: u64,
    pub file_type: u32,
    pub filename: Seq<char>,
}

impl View for TrayItemFile {
    type V = TrayFileView;

    open spec fn view(&self) -> TrayFileView {
        TrayFileView {
            path: self.path@,
            id: self.id,
            file_type: self.file_type,
            filename: self.filename@,
        }
    }
}

/// The companion file that a file gives: its stem decodes.
pub open spec fn companion_file(path: Seq<char>, filename: Seq<char>) -> Result<
    TrayFileView,
    TrayError,
> {
    match decode_stem(file_stem(filename)) {
        None => Err(TrayError::MalformedFilename),
        Some((file_type, id)) => Ok(TrayFileView { path, id, file_type, filename }),
    }
}

impl TrayItemFile {
    /// Builds the companion file at `path`, named `filename`.
    pub fn new(path: String, filename: String) -> (r: Result<TrayItemFile, TrayError>)
        ensures
            view_result(r) == companion_file(path@, filename@),
    {
        let (stem, _) = split_file_name(filename.as_str());
        match extract_id_and_type(stem.as_str()) {
            Some((file_type, id)) => Ok(TrayItemFile { path, id, file_type, filename }),
            None => Err(TrayError::MalformedFilename),
        }
    }
}

/// A regular file of the tray folder: where it is, its name, and its contents
/// where they were read (`None` where reading failed or was not needed).
pub struct TrayEntry {
    pub path: String,
    pub filename: String,
    pub content: Option<Vec<u8>>,
}

/// How one file of the folder is sorted.
pub enum Classified {
    Primary(TrayItemView),
    Auxiliary(TrayFileView),
    Sequel(TrayFileView),
}

/// How an entry is sorted, or why it is left out. A primary item needs its
/// contents; an auxiliary or sequel file needs its name alone.
pub open spec fn classify_entry(e: TrayEntry) -> Result<Classified, TrayError> {
    match role_of_file_name(e.filename@) {
        Err(err) => Err(err),
        Ok(FileRole::Primary) => match e.content {
            Some(c) => match primary_item(e.path@, e.filename@, c@) {
                Ok(v) => Ok(Classified::Primary(v)),
                Err(err) => Err(err),
            },
            None => if decode_stem(file_stem(e.filename@)) is None {
                Err(TrayError::MalformedFilename)
            } else {
                Err(TrayError::UnreadableFile)
            },
        },
        Ok(FileRole::Auxiliary) => match companion_file(e.path@, e.filename@) {
            Ok(v) => Ok(Classified::Auxiliary(v)),
            Err(err) => Err(err),
        },
        Ok(FileRole::Sequel) => match companion_file(e.path@, e.filename@) {
            Ok(v) => Ok(Classified::Sequel(v)),
            Err(err) => Err(err),
        },
    }
}

/// A file that was left out, and why.
pub struct SkippedFile {
    pub filename: String,
    pub error: TrayError,
}

/// The files of a tray folder, sorted into primary items, auxiliary files and
/// sequel files, with the files that were left out.
pub struct TrayFolderContent {
    pub trayitem_files: Vec<TrayItem>,
    pub unknown_files: Vec<TrayItemFile>,
    pub sgi_files: Vec<TrayItemFile>,
    pub skipped: Vec<SkippedFile>,
}

/// The primary items among `es`, in order.
pub open spec fn primaries_of(es: Seq<TrayEntry>) -> Seq<TrayItemView>
    decreases es.len(),
{
    if es.len() == 0 {
        seq![]
    } else {
        let rest = primaries_of(es.drop_last());
        match classify_entry(es.last()) {
            Ok(Classified::Primary(v)) => rest.push(v),
            _ => rest,
        }
    }
}

/// The auxiliary files among `es`, in order.
pub open spec fn auxiliaries_of(es: Seq<TrayEntry>) -> Seq<TrayFileView>
    decreases es.len(),
{
    if es.len() == 0 {
        seq![]
    } else {
        let rest = auxiliaries_of(es.drop_last());
        match classify_entry(es.last()) {
            Ok(Classified::Auxiliary(v)) => rest.push(v),
            _ => rest,
        }
    }
}

/// The sequel files among `es`, in order.
pub open spec fn sequels_of(es: Seq<TrayEntry>) -> Seq<TrayFileView>
    decreases es.len(),
{
    if es.len() == 0 {
        seq![]
    } else {
        let rest = sequels_of(es.drop_last());
        match classify_entry(es.last()) {
            Ok(Classified::Sequel(v)) => rest.push(v),
            _ => rest,
        }
    }
}

/// The names of the files left out of `es`, each with its reason, in order.
pub open spec fn skipped_of(es: Seq<TrayEntry>) -> Seq<(Seq<char>, TrayError)>
    decreases es.len(),
{
    if es.len() == 0 {
        seq![]
    } else {
        let rest = skipped_of(es.drop_last());
        match classify_entry(es.last()) {
            Err(err) => rest.push((es.last().filename@, err)),
            _ => rest,
        }
    }
}

/// A primary item file whose well-formed stem carries a type code of no
/// supported kind fails on its header, and adds no primary item.
pub proof fn lemma_unknown_type_excluded(es: Seq<TrayEntry>, e: TrayEntry)
    requires
        role_of_file_name(e.filename@) == Ok::<FileRole, TrayError>(FileRole::Primary),
        e.content is Some,
        decode_stem(file_stem(e.filename@)) is Some,
        kind_of_code(decode_stem(file_stem(e.filename@)).unwrap().0) is None,
    ensures
        classify_entry(e) == Err::<Classified, TrayError>(TrayError::UnknownItemType),
        primaries_of(es.push(e)) == primaries_of(es),
        skipped_of(es.push(e)) == skipped_of(es).push((e.filename@, TrayError::UnknownItemType)),
{
    assert(es.push(e).drop_last() =~= es);
}

impl TrayFolderContent {
    pub open spec fn primaries(&self) -> Seq<TrayItemView> {
        self.trayitem_files@.map_values(|x: TrayItem| x@)
    }

    pub open spec fn auxiliaries(&self) -> Seq<TrayFileView> {
        self.unknown_files@.map_values(|x: TrayItemFile| x@)
    }

    pub open spec fn sequels(&self) -> Seq<TrayFileView> {
        self.sgi_files@.map_values(|x: TrayItemFile| x@)
    }

    pub open spec fn skipped_files(&self) -> Seq<(Seq<char>, TrayError)> {
        self.skipped@.map_values(|x: SkippedFile| (x.filename@, x.error))
    }

    /// Whether the four collections are those sorted out of `es`.
    pub open spec fn sorted_from(&self, es: Seq<TrayEntry>) -> bool {
        &&& self.primaries() == primaries_of(es)
        &&& self.auxiliaries() == auxiliaries_of(es)
        &&& self.sequels() == sequels_of(es)
        &&& self.skipped_files() == skipped_of(es)
    }

    /// An empty folder.
    pub fn new() -> (r: TrayFolderContent)
        ensures
            r.sorted_from(seq![]),
    {
        let r = TrayFolderContent {
            trayitem_files: Vec::new(),
            unknown_files: Vec::new(),
            sgi_files: Vec::new(),
            skipped: Vec::new(),
        };
        assert(r.primaries() =~= seq![]);
        assert(r.auxiliaries() =~= seq![]);
        assert(r.sequels() =~= seq![]);
        assert(r.skipped_files() =~= seq![]);
        r
    }

    fn skip(&mut self, filename: &String, error: TrayError)
        ensures
            final(self).primaries() == old(self).primaries(),
            final(self).auxiliaries() == old(self).auxiliaries(),
            final(self).sequels() == old(self).sequels(),
            final(self).skipped_files() == old(self).skipped_files().push((filename@, error)),
    {
        self.skipped.push(SkippedFile { filename: filename.clone(), error });
        assert(self.skipped_files() =~= old(self).skipped_files().push((filename@, error)));
    }

    /// Sorts one more entry in.
    pub fn add_entry(&mut self, entry: &TrayEntry)
        ensures
            forall|es: Seq<TrayEntry>| #[trigger] old(self).sorted_from(es)
                ==> final(self).sorted_from(es.push(*entry)),
    {
        match file_role(entry.filename.as_str()) {
            Err(e) => {
                self.skip(&entry.filename, e);
            },
            Ok(FileRole::Primary) => match &entry.content {
                Some(content) => match TrayItem::new(entry.path.clone(), entry.filename.clone(), content) {
                    Ok(item) => {
                        self.trayitem_files.push(item);
                    },
                    Err(e) => {
                        self.skip(&entry.filename, e);
                    },
                },
                None => {
                    let (stem, _) = split_file_name(entry.filename.as_str());
                    if extract_id_and_type(stem.as_str()).is_none() {
                        self.skip(&entry.filename, TrayError::MalformedFilename);
                    } else {
                        self.skip(&entry.filename, TrayError::UnreadableFile);
                    }
                },
            },
            Ok(role) => match TrayItemFile::new(entry.path.clone(), entry.filename.clone()) {
                Ok(file) => {
                    if role == FileRole::Auxiliary {
                        self.unknown_files.push(file);
                    } else {
                        self.sgi_files.push(file);
                    }
                },
                Err(e) => {
                    self.skip(&entry.filename, e);
                },
            },
        }
        assert forall|es: Seq<TrayEntry>| #[trigger] old(self).sorted_from(es)
            implies self.sorted_from(es.push(*entry)) by {
            let es2 = es.push(*entry);
            assert(es2.drop_last() =~= es);
            assert(es2.last() == *entry);
            assert(self.primaries() =~= primaries_of(es2));
            assert(self.auxiliaries() =~= auxiliaries_of(es2));
            assert(self.sequels() =~= sequels_of(es2));
            assert(self.skipped_files() =~= skipped_of(es2));
        }
    }
}

} // verus!
