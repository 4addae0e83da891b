//! The namespace service: answers to resolve, get-attributes, list and read
//! requests, given what the remote service returned.

use vstd::prelude::*;
use crate::ino::{
    decode, encode, encode_spec, local_spec, tag_spec, Category, CORRESPONDENTS_DIR,
    DOCUMENT_TYPES_DIR, ROOT, TAGS_DIR, VIEWS_DIR,
};
use crate::names::{document_name, document_name_spec, sanitize, sanitized};
use crate::ino::lemma_decode_encode;
use crate::table::{insert_all, lemma_insert_all_get, NameTable};

verus! {

/// Whether a node is a directory or a regular file.
#[derive(Clone, Copy, Debug, PartialEq, Eq, Structural)]
pub enum FileKind {
    Directory,
    RegularFile,
}

/// The attributes of a node that this namespace decides. Owner and times
/// are the transport's to fill in.
#[derive(Clone, Copy, Debug, PartialEq, Eq, Structural)]
pub struct Attr {
    pub ino: u64,
    pub size: u64,
    pub kind: FileKind,
    pub perm: u16,
    pub nlink: u32,
    pub blksize: u32,
}

/// One entry of a directory listing. `offset` is the position of the entry
/// that follows it, from which a later listing call resumes.
#[derive(Clone, Debug)]
pub struct DirEntry {
    pub ino: u64,
    pub kind: FileKind,
    pub name: String,
    pub offset: u64,
}

/// A remote entity as this namespace sees it: its id and its name (or title).
#[derive(Clone, Debug)]
pub struct Remote {
    pub id: u64,
    pub name: String,
}

/// Constraints on a document query.
#[derive(Clone, Copy, Debug, PartialEq, Eq, Structural)]
pub struct Filter {
    pub tag_id: Option<u64>,
    pub document_type_id: Option<u64>,
    pub correspondent_id: Option<u64>,
}

/// What must be fetched from the remote service to list a directory.
#[derive(Clone, Copy, Debug, PartialEq, Eq, Structural)]
pub enum Listing {
    /// Nothing: the root holds the fixed directories.
    Root,
    /// All tags.
    Tags,
    /// All document types.
    DocumentTypes,
    /// All correspondents.
    Correspondents,
    /// All saved views.
    Views,
    /// The documents that match the filter.
    Documents(Filter),
    /// The documents that the rules of this saved view select, and nothing
    /// else constrains.
    ViewDocuments(u64),
}

/// The outcome of resolving a name in a directory.
#[derive(Clone, Copy, Debug, PartialEq, Eq, Structural)]
pub enum Lookup {
    NotFound,
    /// A directory with this node identifier.
    Directory(u64),
    /// A document file with this node identifier; its size is remote.
    Document(u64),
}

/// An entry of a listing as a value: node, kind and name.
pub type EntryView = (u64, FileKind, Seq<char>);

pub open spec fn entry_view(e: DirEntry) -> EntryView {
    (e.ino, e.kind, e.name@)
}

pub open spec fn entries_view(v: Seq<DirEntry>) -> Seq<EntryView> {
    v.map_values(|e: DirEntry| entry_view(e))
}

/// Remote entities as id and name.
pub open spec fn remote_views(v: Seq<Remote>) -> Seq<(u64, Seq<char>)> {
    v.map_values(|r: Remote| (r.id, r.name@))
}

/// The filter of a tag, document-type or correspondent directory; no
/// constraint for any other node.
pub open spec fn filter_spec(ino: u64) -> Filter {
    let t = tag_spec(ino);
    let x = local_spec(ino);
    Filter {
        tag_id: if t == 2 { Some(x) } else { None },
        document_type_id: if t == 3 { Some(x) } else { None },
        correspondent_id: if t == 4 { Some(x) } else { None },
    }
}

pub open spec fn listing_spec(ino: u64) -> Listing {
    if ino == ROOT {
        Listing::Root
    } else if ino == TAGS_DIR {
        Listing::Tags
    } else if ino == DOCUMENT_TYPES_DIR {
        Listing::DocumentTypes
    } else if ino == CORRESPONDENTS_DIR {
        Listing::Correspondents
    } else if ino == VIEWS_DIR {
        Listing::Views
    } else if tag_spec(ino) == 5 {
        Listing::ViewDocuments(local_spec(ino))
    } else {
        Listing::Documents(filter_spec(ino))
    }
}

/// The entries of the root: the four fixed directories.
pub open spec fn root_entries() -> Seq<EntryView> {
    seq![
        (TAGS_DIR, FileKind::Directory, "Tags"@),
        (DOCUMENT_TYPES_DIR, FileKind::Directory, "Document type"@),
        (CORRESPONDENTS_DIR, FileKind::Directory, "Correspondents"@),
        (VIEWS_DIR, FileKind::Directory, "Views"@),
    ]
}

/// `.` and `..`, which start every listing.
pub open spec fn dot_entries() -> Seq<EntryView> {
    seq![(ROOT, FileKind::Directory, "."@), (ROOT, FileKind::Directory, ".."@)]
}

/// One directory per remote entity of category `c`, under its sanitized name.
pub open spec fn directory_entries(c: Category, items: Seq<(u64, Seq<char>)>) -> Seq<EntryView> {
    items.map_values(
        |it: (u64, Seq<char>)| (encode_spec(c, it.0), FileKind::Directory, sanitized(it.1)),
    )
}

/// The name-table pairs of `directory_entries(c, items)`.
pub open spec fn directory_pairs(c: Category, items: Seq<(u64, Seq<char>)>) -> Seq<
    (Seq<char>, u64),
> {
    items.map_values(|it: (u64, Seq<char>)| (sanitized(it.1), encode_spec(c, it.0)))
}

/// One file per document, named by `document_name_spec`.
pub open spec fn document_entries(items: Seq<(u64, Seq<char>)>) -> Seq<EntryView> {
    items.map_values(
        |it: (u64, Seq<char>)|
            (
                encode_spec(Category::Document, it.0),
                FileKind::RegularFile,
                document_name_spec(it.0, it.1),
            ),
    )
}

/// The name-table pairs of `document_entries(items)`.
pub open spec fn document_pairs(items: Seq<(u64, Seq<char>)>) -> Seq<(Seq<char>, u64)> {
    items.map_values(
        |it: (u64, Seq<char>)|
            (document_name_spec(it.0, it.1), encode_spec(Category::Document, it.0)),
    )
}

/// The whole listing of `ino`, given the entities fetched for it.
pub open spec fn listing_entries(ino: u64, items: Seq<(u64, Seq<char>)>) -> Seq<EntryView> {
    dot_entries() + match listing_spec(ino) {
        Listing::Root => root_entries(),
        Listing::Tags => directory_entries(Category::Tag, items),
        Listing::DocumentTypes => directory_entries(Category::DocumentType, items),
        Listing::Correspondents => directory_entries(Category::Correspondent, items),
        Listing::Views => directory_entries(Category::SavedView, items),
        Listing::Documents(_) => document_entries(items),
        Listing::ViewDocuments(_) => document_entries(items),
    }
}

/// Whether listing `ino` fills the document table.
pub open spec fn lists_documents(ino: u64) -> bool {
    listing_spec(ino) is Documents || listing_spec(ino) is ViewDocuments
}

pub open spec fn directory_attr_spec(ino: u64) -> Attr {
    Attr { ino, size: 0, kind: FileKind::Directory, perm: 0o550, nlink: 2, blksize: 0 }
}

pub open spec fn document_entry_attr_spec(ino: u64, size: u64) -> Attr {
    Attr { ino, size, kind: FileKind::RegularFile, perm: 0o440, nlink: 1, blksize: 512 }
}

pub open spec fn getattr_spec(ino: u64, document_size: u64) -> Attr {
    let t = tag_spec(ino);
    if 1 <= ino <= 5 {
        directory_attr_spec(ino)
    } else if t == 1 {
        Attr { ino, size: document_size, kind: FileKind::RegularFile, perm: 0o550, nlink: 1, blksize: 0 }
    } else if 2 <= t <= 5 {
        directory_attr_spec(ino)
    } else {
        Attr { ino, size: 0, kind: FileKind::RegularFile, perm: 0, nlink: 0, blksize: 0 }
    }
}

pub open spec fn entry_attr_spec(found: Lookup, document_size: u64) -> Option<Attr> {
    match found {
        Lookup::NotFound => None,
        Lookup::Directory(n) => Some(directory_attr_spec(n)),
        Lookup::Document(n) => Some(document_entry_attr_spec(n, document_size)),
    }
}

/// The remote document that `ino` refers to, if it is a document.
pub open spec fn document_of_spec(ino: u64) -> Option<u64> {
    if tag_spec(ino) == 1 {
        Some(local_spec(ino))
    } else {
        None
    }
}

/// The bytes of `content` from `offset`, at most `size` of them.
pub open spec fn read_range_spec(content: Seq<u8>, offset: u64, size: u32) -> Seq<u8> {
    let len = content.len() as int;
    let lo = if offset as int <= len { offset as int } else { len };
    let hi = if offset as int + size as int <= len { offset as int + size as int } else { len };
    content.subrange(lo, hi)
}

/// What must be fetched to list `ino`.
pub fn listing(ino: u64) -> (r: Listing)
    ensures
        r == listing_spec(ino),
{
    if ino == ROOT {
        return Listing::Root;
    } else if ino == TAGS_DIR {
        return Listing::Tags;
    } else if ino == DOCUMENT_TYPES_DIR {
        return Listing::DocumentTypes;
    } else if ino == CORRESPONDENTS_DIR {
        return Listing::Correspondents;
    } else if ino == VIEWS_DIR {
        return Listing::Views;
    }
    let mut filter = Filter { tag_id: None, document_type_id: None, correspondent_id: None };
    match decode(ino) {
        Some((Category::Tag, x)) => {
            filter.tag_id = Some(x);
        },
        Some((Category::DocumentType, x)) => {
            filter.document_type_id = Some(x);
        },
        Some((Category::Correspondent, x)) => {
            filter.correspondent_id = Some(x);
        },
        Some((Category::SavedView, x)) => {
            return Listing::ViewDocuments(x);
        },
        _ => {},
    }
    Listing::Documents(filter)
}

/// The attributes of a directory.
pub fn directory_attr(ino: u64) -> (r: Attr)
    ensures
        r == directory_attr_spec(ino),
{
    Attr { ino, size: 0, kind: FileKind::Directory, perm: 0o550, nlink: 2, blksize: 0 }
}

/// The attributes of a node, where `document_size` is the remote size of
/// the document it refers to (read only where it is a document).
pub fn getattr(ino: u64, document_size: u64) -> (r: Attr)
    ensures
        r == getattr_spec(ino, document_size),
{
    if 1 <= ino && ino <= 5 {
        return directory_attr(ino);
    }
    match decode(ino) {
        Some((Category::Document, _)) => Attr {
            ino,
            size: document_size,
            kind: FileKind::RegularFile,
            perm: 0o550,
            nlink: 1,
            blksize: 0,
        },
        Some((Category::Tag, _))
        | Some((Category::DocumentType, _))
        | Some((Category::Correspondent, _))
        | Some((Category::SavedView, _)) => directory_attr(ino),
        _ => Attr { ino, size: 0, kind: FileKind::RegularFile, perm: 0, nlink: 0, blksize: 0 },
    }
}

/// The attributes of a resolved name, where `document_size` is the remote
/// size of the document found (read only where a document was found).
pub fn entry_attr(found: Lookup, document_size: u64) -> (r: Option<Attr>)
    ensures
        r == entry_attr_spec(found, document_size),
{
    match found {
        Lookup::NotFound => None,
        Lookup::Directory(n) => Some(directory_attr(n)),
        Lookup::Document(n) => Some(
            Attr {
                ino: n,
                size: document_size,
                kind: FileKind::RegularFile,
                perm: 0o440,
                nlink: 1,
                blksize: 512,
            },
        ),
    }
}

/// The remote document that `ino` refers to, if it is a document.
pub fn document_of(ino: u64) -> (r: Option<u64>)
    ensures
        r == document_of_spec(ino),
{
    match decode(ino) {
        Some((Category::Document, x)) => Some(x),
        _ => None,
    }
}

/// The bytes of `content` from `offset`, at most `size` of them; none where
/// `offset` lies at or past the end.
pub fn read_range(content: &Vec<u8>, offset: u64, size: u32) -> (r: Vec<u8>)
    ensures
        r@ == read_range_spec(content@, offset, size),
{
    let len = content.len();
    let lo: usize = if offset <= len as u64 { offset as usize } else { len };
    let hi: usize = if offset <= len as u64 && (size as u64) <= len as u64 - offset {
        (offset + size as u64) as usize
    } else {
        len
    };
    let mut r: Vec<u8> = Vec::new();
    let mut i: usize = lo;
    while i < hi
        invariant
            lo <= i <= hi,
            hi <= content@.len(),
            r@ == content@.subrange(lo as int, i as int),
        decreases hi - i,
    {
        r.push(content[i]);
        proof {
            assert(r@ =~= content@.subrange(lo as int, i + 1));
        }
        i = i + 1;
    }
    r
}

/// Appends one directory entry per item of category `c` to `entries`, and
/// lists each in `table` under its sanitized name.
fn push_directories(
    entries: &mut Vec<DirEntry>,
    table: &mut NameTable,
    c: Category,
    items: &Vec<Remote>,
)
    requires
        old(table).wf(),
    ensures
        final(table).wf(),
        entries_view(final(entries)@) == entries_view(old(entries)@) + directory_entries(
            c,
            remote_views(items@),
        ),
        final(table)@ == insert_all(old(table)@, directory_pairs(c, remote_views(items@))),
{
    let ghost es = directory_entries(c, remote_views(items@));
    let ghost ps = directory_pairs(c, remote_views(items@));
    let ghost start = entries_view(entries@);
    let ghost table0 = table@;
    let mut i: usize = 0;
    while i < items.len()
        invariant
            table.wf(),
            i <= items@.len(),
            es == directory_entries(c, remote_views(items@)),
            ps == directory_pairs(c, remote_views(items@)),
            entries_view(entries@) == start + es.take(i as int),
            table@ == insert_all(table0, ps.take(i as int)),
        decreases items@.len() - i,
    {
        let item = &items[i];
        let node = encode(c, item.id);
        let name = sanitize(&item.name);
        let listed = name.clone();
        let ghost before = entries@;
        entries.push(DirEntry { ino: node, kind: FileKind::Directory, name: listed, offset: 0 });
        table.insert(name, node);
        proof {
            assert(ps.take(i + 1).drop_last() =~= ps.take(i as int));
            assert(entries@ == before.push(entries@.last()));
            assert(entries_view(entries@) =~= entries_view(before).push(es[i as int]));
            assert(es.take(i + 1) =~= es.take(i as int).push(es[i as int]));
        }
        i = i + 1;
    }
    proof {
        assert(es.take(i as int) =~= es);
        assert(ps.take(i as int) =~= ps);
    }
}

/// Appends one file entry per document to `entries`, and lists each in
/// `table` under its document name.
fn push_documents(entries: &mut Vec<DirEntry>, table: &mut NameTable, items: &Vec<Remote>)
    requires
        old(table).wf(),
    ensures
        final(table).wf(),
        entries_view(final(entries)@) == entries_view(old(entries)@) + document_entries(
            remote_views(items@),
        ),
        final(table)@ == insert_all(old(table)@, document_pairs(remote_views(items@))),
{
    let ghost es = document_entries(remote_views(items@));
    let ghost ps = document_pairs(remote_views(items@));
    let ghost start = entries_view(entries@);
    let ghost table0 = table@;
    let mut i: usize = 0;
    while i < items.len()
        invariant
            table.wf(),
            i <= items@.len(),
            es == document_entries(remote_views(items@)),
            ps == document_pairs(remote_views(items@)),
            entries_view(entries@) == start + es.take(i as int),
            table@ == insert_all(table0, ps.take(i as int)),
        decreases items@.len() - i,
    {
        let item = &items[i];
        let node = encode(Category::Document, item.id);
        let name = document_name(item.id, &item.name);
        let listed = name.clone();
        let ghost before = entries@;
        entries.push(DirEntry { ino: node, kind: FileKind::RegularFile, name: listed, offset: 0 });
        table.insert(name, node);
        proof {
            assert(ps.take(i + 1).drop_last() =~= ps.take(i as int));
            assert(entries@ == before.push(entries@.last()));
            assert(entries_view(entries@) =~= entries_view(before).push(es[i as int]));
            assert(es.take(i + 1) =~= es.take(i as int).push(es[i as int]));
        }
        i = i + 1;
    }
    proof {
        assert(es.take(i as int) =~= es);
        assert(ps.take(i as int) =~= ps);
    }
}

/// The entries of `all` from position `offset` on, each with the position
/// of the entry after it.
fn page(all: &Vec<DirEntry>, offset: u64) -> (r: Vec<DirEntry>)
    ensures
        r@.len() == if offset < all@.len() { all@.len() - offset } else { 0 },
        forall|i: int|
            0 <= i < r@.len() ==> entry_view(#[trigger] r@[i]) == entry_view(all@[offset + i])
                && r@[i].offset == offset + i + 1,
{
    let mut r: Vec<DirEntry> = Vec::new();
    if offset >= all.len() as u64 {
        return r;
    }
    let mut i: usize = offset as usize;
    while i < all.len()
        invariant
            offset <= i <= all@.len(),
            r@.len() == i - offset,
            forall|j: int|
                0 <= j < r@.len() ==> entry_view(#[trigger] r@[j]) == entry_view(
                    all@[offset + j],
                ) && r@[j].offset == offset + j + 1,
        decreases all@.len() - i,
    {
        let e = &all[i];
        r.push(DirEntry { ino: e.ino, kind: e.kind, name: e.name.clone(), offset: (i + 1) as u64 });
        i = i + 1;
    }
    r
}

/// The namespace service: one name table per kind of directory, filled as
/// directories are listed.
pub struct HelloFS {
    tags: NameTable,
    document_types: NameTable,
    correspondents: NameTable,
    views: NameTable,
    documents: NameTable,
}

impl HelloFS {
    pub closed spec fn wf(&self) -> bool {
        &&& self.tags.wf()
        &&& self.document_types.wf()
        &&& self.correspondents.wf()
        &&& self.views.wf()
        &&& self.documents.wf()
    }

    /// Tag names listed so far, with their nodes.
    pub closed spec fn tags_view(&self) -> Map<Seq<char>, u64> {
        self.tags@
    }

    /// Document-type names listed so far, with their nodes.
    pub closed spec fn document_types_view(&self) -> Map<Seq<char>, u64> {
        self.document_types@
    }

    /// Correspondent names listed so far, with their nodes.
    pub closed spec fn correspondents_view(&self) -> Map<Seq<char>, u64> {
        self.correspondents@
    }

    /// Saved-view names listed so far, with their nodes.
    pub closed spec fn views_view(&self) -> Map<Seq<char>, u64> {
        self.views@
    }

    /// Document file names listed so far, with their nodes.
    pub closed spec fn documents_view(&self) -> Map<Seq<char>, u64> {
        self.documents@
    }

    /// What resolving `name` in `parent` finds, in the tables as they stand.
    pub open spec fn lookup_spec(&self, parent: u64, name: Seq<char>) -> Lookup {
        let t = tag_spec(parent);
        if parent == ROOT {
            if name == "Tags"@ {
                Lookup::Directory(TAGS_DIR)
            } else if name == "Document type"@ {
                Lookup::Directory(DOCUMENT_TYPES_DIR)
            } else if name == "Correspondents"@ {
                Lookup::Directory(CORRESPONDENTS_DIR)
            } else if name == "Views"@ {
                Lookup::Directory(VIEWS_DIR)
            } else {
                Lookup::NotFound
            }
        } else if parent == TAGS_DIR {
            directory_found(self.tags_view().get(name))
        } else if parent == DOCUMENT_TYPES_DIR {
            directory_found(self.document_types_view().get(name))
        } else if parent == CORRESPONDENTS_DIR {
            directory_found(self.correspondents_view().get(name))
        } else if parent == VIEWS_DIR {
            directory_found(self.views_view().get(name))
        } else if 2 <= t <= 5 {
            match self.documents_view().get(name) {
                Some(n) => Lookup::Document(n),
                None => Lookup::NotFound,
            }
        } else {
            Lookup::NotFound
        }
    }

    /// Resolves `name` in the directory `parent`: a fixed directory under the
    /// root; under a fixed directory, what its listing entered in its table;
    /// under a tag, document-type, correspondent or saved-view directory, a
    /// listed document. Names that were never listed are not found.
    pub fn lookup(&self, parent: u64, name: &String) -> (r: Lookup)
        requires
            self.wf(),
        ensures
            r == self.lookup_spec(parent, name@),
    {
        if parent == ROOT {
            let tags = "Tags".to_string();
            let document_types = "Document type".to_string();
            let correspondents = "Correspondents".to_string();
            let views = "Views".to_string();
            proof {
                reveal_strlit("Tags");
                reveal_strlit("Document type");
                reveal_strlit("Correspondents");
                reveal_strlit("Views");
            }
            if *name == tags {
                Lookup::Directory(TAGS_DIR)
            } else if *name == document_types {
                Lookup::Directory(DOCUMENT_TYPES_DIR)
            } else if *name == correspondents {
                Lookup::Directory(CORRESPONDENTS_DIR)
            } else if *name == views {
                Lookup::Directory(VIEWS_DIR)
            } else {
                Lookup::NotFound
            }
        } else if parent == TAGS_DIR {
            directory_in(self.tags.get(name))
        } else if parent == DOCUMENT_TYPES_DIR {
            directory_in(self.document_types.get(name))
        } else if parent == CORRESPONDENTS_DIR {
            directory_in(self.correspondents.get(name))
        } else if parent == VIEWS_DIR {
            directory_in(self.views.get(name))
        } else {
            match decode(parent) {
                Some((Category::Tag, _))
                | Some((Category::DocumentType, _))
                | Some((Category::Correspondent, _))
                | Some((Category::SavedView, _)) => match self.documents.get(name) {
                    Some(n) => Lookup::Document(n),
                    None => Lookup::NotFound,
                },
                _ => Lookup::NotFound,
            }
        }
    }

    /// Lists `ino` from position `offset` on. `items` is what the remote
    /// service returned for `listing(ino)`: the entities of a fixed
    /// directory, or the documents of any other (ignored for the root). The
    /// entries of a fixed directory are entered in its table, documents in
    /// the document table; a later entry overwrites an earlier one of the same
    /// name.
    pub fn readdir(&mut self, ino: u64, items: &Vec<Remote>, offset: u64) -> (r: Vec<DirEntry>)
        requires
            old(self).wf(),
        ensures
            final(self).wf(),
            ({
                let all = listing_entries(ino, remote_views(items@));
                &&& r@.len() == if offset < all.len() { all.len() - offset } else { 0 }
                &&& forall|i: int|
                    0 <= i < r@.len() ==> entry_view(#[trigger] r@[i]) == all[offset + i]
                        && r@[i].offset == offset + i + 1
            }),
            final(self).tags_view() == if listing_spec(ino) is Tags {
                insert_all(old(self).tags_view(), directory_pairs(Category::Tag, remote_views(items@)))
            } else {
                old(self).tags_view()
            },
            final(self).document_types_view() == if listing_spec(ino) is DocumentTypes {
                insert_all(
                    old(self).document_types_view(),
                    directory_pairs(Category::DocumentType, remote_views(items@)),
                )
            } else {
                old(self).document_types_view()
            },
            final(self).correspondents_view() == if listing_spec(ino) is Correspondents {
                insert_all(
                    old(self).correspondents_view(),
                    directory_pairs(Category::Correspondent, remote_views(items@)),
                )
            } else {
                old(self).correspondents_view()
            },
            final(self).views_view() == if listing_spec(ino) is Views {
                insert_all(
                    old(self).views_view(),
                    directory_pairs(Category::SavedView, remote_views(items@)),
                )
            } else {
                old(self).views_view()
            },
            final(self).documents_view() == if lists_documents(ino) {
                insert_all(old(self).documents_view(), document_pairs(remote_views(items@)))
            } else {
                old(self).documents_view()
            },
    {
        let mut all: Vec<DirEntry> = Vec::new();
        let dot = ".".to_string();
        let dotdot = "..".to_string();
        all.push(DirEntry { ino: ROOT, kind: FileKind::Directory, name: dot, offset: 0 });
        all.push(DirEntry { ino: ROOT, kind: FileKind::Directory, name: dotdot, offset: 0 });
        proof {
            reveal_strlit(".");
            reveal_strlit("..");
            assert(entries_view(all@) =~= dot_entries());
        }
        let plan = listing(ino);
        match plan {
            Listing::Root => {
                let names = vec![
                    "Tags".to_string(),
                    "Document type".to_string(),
                    "Correspondents".to_string(),
                    "Views".to_string(),
                ];
                let ghost before = entries_view(all@);
                let mut i: usize = 0;
                while i < 4
                    invariant
                        names@.len() == 4,
                        names@[0]@ == "Tags"@,
                        names@[1]@ == "Document type"@,
                        names@[2]@ == "Correspondents"@,
                        names@[3]@ == "Views"@,
                        i <= 4,
                        entries_view(all@) == before + root_entries().take(i as int),
                    decreases 4 - i,
                {
                    let ghost prev = all@;
                    let node = (i as u64) + 2;
                    all.push(
                        DirEntry {
                            ino: node,
                            kind: FileKind::Directory,
                            name: names[i].clone(),
                            offset: 0,
                        },
                    );
                    proof {
                        assert(all@ == prev.push(all@.last()));
                        assert(entries_view(all@) =~= entries_view(prev).push(
                            root_entries()[i as int],
                        ));
                        assert(root_entries().take(i + 1) =~= root_entries().take(i as int).push(
                            root_entries()[i as int],
                        ));
                    }
                    i = i + 1;
                }
                proof {
                    assert(root_entries().take(4) =~= root_entries());
                }
            },
            Listing::Tags => {
                push_directories(&mut all, &mut self.tags, Category::Tag, items);
            },
            Listing::DocumentTypes => {
                push_directories(&mut all, &mut self.document_types, Category::DocumentType, items);
            },
            Listing::Correspondents => {
                push_directories(&mut all, &mut self.correspondents, Category::Correspondent, items);
            },
            Listing::Views => {
                push_directories(&mut all, &mut self.views, Category::SavedView, items);
            },
            Listing::Documents(_) | Listing::ViewDocuments(_) => {
                push_documents(&mut all, &mut self.documents, items);
            },
        }
        let r = page(&all, offset);
        proof {
            assert(entries_view(all@) =~= listing_entries(ino, remote_views(items@)));
            assert forall|i: int| 0 <= i < r@.len() implies entry_view(#[trigger] r@[i])
                == listing_entries(ino, remote_views(items@))[offset + i] by {
                assert(entry_view(all@[offset + i]) == entries_view(all@)[offset + i]);
            }
        }
        r
    }

    /// A service whose tables are empty.
    pub fn new() -> (r: HelloFS)
        ensures
            r.wf(),
            r.tags_view() == Map::<Seq<char>, u64>::empty(),
            r.document_types_view() == Map::<Seq<char>, u64>::empty(),
            r.correspondents_view() == Map::<Seq<char>, u64>::empty(),
            r.views_view() == Map::<Seq<char>, u64>::empty(),
            r.documents_view() == Map::<Seq<char>, u64>::empty(),
    {
        HelloFS {
            tags: NameTable::new(),
            document_types: NameTable::new(),
            correspondents: NameTable::new(),
            views: NameTable::new(),
            documents: NameTable::new(),
        }
    }
}

/// A directory found under its node, or nothing.
fn directory_in(n: Option<u64>) -> (r: Lookup)
    ensures
        r == directory_found(n),
{
    match n {
        Some(n) => Lookup::Directory(n),
        None => Lookup::NotFound,
    }
}

/// A directory found under its node, or nothing.
pub open spec fn directory_found(n: Option<u64>) -> Lookup {
    match n {
        Some(n) => Lookup::Directory(n),
        None => Lookup::NotFound,
    }
}

/// After the tag directory is listed, each tag in the listing is found by
/// resolving its name in the tag directory, at the node it was listed with,
/// provided that no later tag in the listing has the same sanitized name.
pub proof fn lemma_listed_tags_resolve(
    before: HelloFS,
    after: HelloFS,
    items: Seq<(u64, Seq<char>)>,
    i: int,
)
    requires
        after.tags_view() == insert_all(before.tags_view(), directory_pairs(Category::Tag, items)),
        0 <= i < items.len(),
        forall|j: int| i < j < items.len() ==> sanitized(items[j].1) != sanitized(items[i].1),
    ensures
        listing_entries(TAGS_DIR, items)[i + 2] == (
            encode_spec(Category::Tag, items[i].0),
            FileKind::Directory,
            sanitized(items[i].1),
        ),
        after.tags_view().contains_key(sanitized(items[i].1)),
        after.lookup_spec(TAGS_DIR, sanitized(items[i].1)) == Lookup::Directory(
            encode_spec(Category::Tag, items[i].0),
        ),
{
    let ps = directory_pairs(Category::Tag, items);
    assert forall|j: int| i < j < ps.len() implies ps[j].0 != ps[i].0 by {}
    lemma_insert_all_get(before.tags_view(), ps, i);
}

/// A saved view's directory lists exactly the documents fetched for it, as
/// a tag's directory lists the same documents: the listing asks for the
/// view's own rules and adds no tag, type or correspondent constraint.
pub proof fn lemma_saved_view_lists_its_documents(
    view: u64,
    tag: u64,
    items: Seq<(u64, Seq<char>)>,
)
    requires
        view < crate::ino::local_space(),
        tag < crate::ino::local_space(),
    ensures
        listing_spec(encode_spec(Category::SavedView, view)) == Listing::ViewDocuments(view),
        listing_spec(encode_spec(Category::Tag, tag)) == Listing::Documents(
            Filter { tag_id: Some(tag), document_type_id: None, correspondent_id: None },
        ),
        listing_entries(encode_spec(Category::SavedView, view), items) == dot_entries()
            + document_entries(items),
        listing_entries(encode_spec(Category::SavedView, view), items) == listing_entries(
            encode_spec(Category::Tag, tag),
            items,
        ),
        lists_documents(encode_spec(Category::SavedView, view)),
{
    lemma_decode_encode(Category::SavedView, view);
    lemma_decode_encode(Category::Tag, tag);
    let v = encode_spec(Category::SavedView, view);
    let t = encode_spec(Category::Tag, tag);
    assert(tag_spec(v) == 5 && local_spec(v) == view);
    assert(tag_spec(t) == 2 && local_spec(t) == tag);
    assert(v > 5 && t > 5) by (nonlinear_arith)
        requires
            v as int == 5 * crate::ino::local_space() + view as int % crate::ino::local_space(),
            t as int == 2 * crate::ino::local_space() + tag as int % crate::ino::local_space(),
            crate::ino::local_space() == 0x1000_0000_0000_0000,
            view as int % crate::ino::local_space() >= 0,
            tag as int % crate::ino::local_space() >= 0,
    ;
}

} // verus!
