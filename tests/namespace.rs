use paperless_fs::fs::{
    directory_attr, document_of, entry_attr, getattr, listing, read_range, Attr, DirEntry,
    FileKind, Filter, HelloFS, Listing, Lookup, Remote,
};
use paperless_fs::ino::{
    decode, encode, Category, CORRESPONDENTS_DIR, DOCUMENT_TYPES_DIR, ROOT, TAGS_DIR, VIEWS_DIR,
};
use paperless_fs::names::{document_name, sanitize};

fn remote(id: u64, name: &str) -> Remote {
    Remote { id, name: name.to_string() }
}

fn triples(entries: &[DirEntry]) -> Vec<(u64, FileKind, String)> {
    entries.iter().map(|e| (e.ino, e.kind, e.name.clone())).collect()
}

#[test]
fn encode_decode_round_trip() {
    let cases = [
        (Category::Special, 1u64),
        (Category::Document, 42),
        (Category::Tag, 0),
        (Category::DocumentType, 7),
        (Category::Correspondent, 123_456),
        (Category::SavedView, (1u64 << 60) - 1),
    ];
    for (c, x) in cases {
        assert_eq!(decode(encode(c, x)), Some((c, x)));
    }
}

#[test]
fn encode_sets_top_nibble() {
    assert_eq!(encode(Category::Document, 42), 0x1000_0000_0000_002A);
    assert_eq!(encode(Category::Tag, 3), 0x2000_0000_0000_0003);
    assert_eq!(encode(Category::SavedView, 9), 0x5000_0000_0000_0009);
    assert_eq!(encode(Category::Special, 5), VIEWS_DIR);
}

#[test]
fn encode_drops_bits_above_sixty() {
    assert_eq!(encode(Category::Tag, (1u64 << 60) | 5), encode(Category::Tag, 5));
}

#[test]
fn decode_unknown_tag() {
    assert_eq!(decode(0x6000_0000_0000_0001), None);
    assert_eq!(decode(u64::MAX), None);
    assert_eq!(decode(3), Some((Category::Special, 3)));
}

#[test]
fn categories_never_collide() {
    let all = [
        Category::Special,
        Category::Document,
        Category::Tag,
        Category::DocumentType,
        Category::Correspondent,
        Category::SavedView,
    ];
    for x in [0u64, 1, 7, 1 << 40] {
        for (i, c) in all.iter().enumerate() {
            for d in all.iter().skip(i + 1) {
                assert_ne!(encode(*c, x), encode(*d, x));
            }
        }
    }
}

#[test]
fn sanitize_replaces_slashes_once_for_all() {
    let s = "a/b//c".to_string();
    let once = sanitize(&s);
    assert_eq!(once, "a_b__c");
    assert!(!once.contains('/'));
    assert_eq!(sanitize(&once), once);
    assert_eq!(sanitize(&"plain name".to_string()), "plain name");
    assert_eq!(sanitize(&String::new()), "");
}

#[test]
fn document_name_format() {
    assert_eq!(document_name(42, &"Invoice/March".to_string()), "42 - Invoice_March.pdf");
    assert_eq!(document_name(0, &String::new()), "0 - .pdf");
    assert_eq!(document_name(1007, &"a".to_string()), "1007 - a.pdf");
}

#[test]
fn root_listing() {
    let mut fs = HelloFS::new();
    let r = fs.readdir(ROOT, &Vec::new(), 0);
    assert_eq!(
        triples(&r),
        vec![
            (ROOT, FileKind::Directory, ".".to_string()),
            (ROOT, FileKind::Directory, "..".to_string()),
            (TAGS_DIR, FileKind::Directory, "Tags".to_string()),
            (DOCUMENT_TYPES_DIR, FileKind::Directory, "Document type".to_string()),
            (CORRESPONDENTS_DIR, FileKind::Directory, "Correspondents".to_string()),
            (VIEWS_DIR, FileKind::Directory, "Views".to_string()),
        ]
    );
    let offsets: Vec<u64> = r.iter().map(|e| e.offset).collect();
    assert_eq!(offsets, vec![1, 2, 3, 4, 5, 6]);
}

#[test]
fn listing_resumes_at_offset() {
    let mut fs = HelloFS::new();
    let r = fs.readdir(ROOT, &Vec::new(), 4);
    assert_eq!(r.len(), 2);
    assert_eq!(r[0].name, "Correspondents");
    assert_eq!(r[0].offset, 5);
    assert_eq!(r[1].name, "Views");
    assert_eq!(r[1].offset, 6);
    assert!(fs.readdir(ROOT, &Vec::new(), 6).is_empty());
    assert!(fs.readdir(ROOT, &Vec::new(), u64::MAX).is_empty());
}

#[test]
fn document_naming_in_listing() {
    let mut fs = HelloFS::new();
    let docs = vec![remote(42, "Invoice/March")];
    let r = fs.readdir(encode(Category::Tag, 1), &docs, 0);
    assert_eq!(r.len(), 3);
    assert_eq!(r[2].name, "42 - Invoice_March.pdf");
    assert_eq!(r[2].ino, encode(Category::Document, 42));
    assert_eq!(r[2].kind, FileKind::RegularFile);
}

#[test]
fn tag_listing_fills_table() {
    let mut fs = HelloFS::new();
    assert_eq!(fs.lookup(TAGS_DIR, &"Bills".to_string()), Lookup::NotFound);
    let tags = vec![remote(3, "Bills"), remote(8, "Home/Car")];
    let r = fs.readdir(TAGS_DIR, &tags, 0);
    assert_eq!(
        triples(&r[2..]),
        vec![
            (encode(Category::Tag, 3), FileKind::Directory, "Bills".to_string()),
            (encode(Category::Tag, 8), FileKind::Directory, "Home_Car".to_string()),
        ]
    );
    for e in &r[2..] {
        assert_eq!(fs.lookup(TAGS_DIR, &e.name), Lookup::Directory(e.ino));
    }
    assert_eq!(fs.lookup(TAGS_DIR, &"Home/Car".to_string()), Lookup::NotFound);
    assert_eq!(fs.lookup(DOCUMENT_TYPES_DIR, &"Bills".to_string()), Lookup::NotFound);
}

#[test]
fn other_fixed_directories_fill_their_tables() {
    let mut fs = HelloFS::new();
    fs.readdir(DOCUMENT_TYPES_DIR, &vec![remote(1, "Letter")], 0);
    fs.readdir(CORRESPONDENTS_DIR, &vec![remote(2, "Bank")], 0);
    fs.readdir(VIEWS_DIR, &vec![remote(3, "Inbox")], 0);
    assert_eq!(
        fs.lookup(DOCUMENT_TYPES_DIR, &"Letter".to_string()),
        Lookup::Directory(encode(Category::DocumentType, 1))
    );
    assert_eq!(
        fs.lookup(CORRESPONDENTS_DIR, &"Bank".to_string()),
        Lookup::Directory(encode(Category::Correspondent, 2))
    );
    assert_eq!(
        fs.lookup(VIEWS_DIR, &"Inbox".to_string()),
        Lookup::Directory(encode(Category::SavedView, 3))
    );
    assert_eq!(fs.lookup(TAGS_DIR, &"Letter".to_string()), Lookup::NotFound);
}

#[test]
fn later_duplicate_name_overwrites() {
    let mut fs = HelloFS::new();
    let tags = vec![remote(1, "a/b"), remote(2, "a_b")];
    fs.readdir(TAGS_DIR, &tags, 0);
    assert_eq!(
        fs.lookup(TAGS_DIR, &"a_b".to_string()),
        Lookup::Directory(encode(Category::Tag, 2))
    );
}

#[test]
fn stale_entries_persist() {
    let mut fs = HelloFS::new();
    fs.readdir(TAGS_DIR, &vec![remote(1, "old")], 0);
    fs.readdir(TAGS_DIR, &vec![remote(2, "new")], 0);
    assert_eq!(fs.lookup(TAGS_DIR, &"old".to_string()), Lookup::Directory(encode(Category::Tag, 1)));
    assert_eq!(fs.lookup(TAGS_DIR, &"new".to_string()), Lookup::Directory(encode(Category::Tag, 2)));
}

#[test]
fn saved_view_uses_its_rules_alone() {
    assert_eq!(listing(encode(Category::SavedView, 9)), Listing::ViewDocuments(9));
    assert_eq!(
        listing(encode(Category::Tag, 7)),
        Listing::Documents(Filter { tag_id: Some(7), document_type_id: None, correspondent_id: None })
    );
    let docs = vec![remote(10, "A"), remote(11, "B")];
    let mut fs = HelloFS::new();
    let by_view = fs.readdir(encode(Category::SavedView, 9), &docs, 0);
    let by_tag = fs.readdir(encode(Category::Tag, 7), &docs, 0);
    assert_eq!(triples(&by_view), triples(&by_tag));
    assert_eq!(by_view.len(), 4);
}

#[test]
fn listing_plans() {
    assert_eq!(listing(ROOT), Listing::Root);
    assert_eq!(listing(TAGS_DIR), Listing::Tags);
    assert_eq!(listing(DOCUMENT_TYPES_DIR), Listing::DocumentTypes);
    assert_eq!(listing(CORRESPONDENTS_DIR), Listing::Correspondents);
    assert_eq!(listing(VIEWS_DIR), Listing::Views);
    assert_eq!(
        listing(encode(Category::DocumentType, 4)),
        Listing::Documents(Filter { tag_id: None, document_type_id: Some(4), correspondent_id: None })
    );
    assert_eq!(
        listing(encode(Category::Correspondent, 6)),
        Listing::Documents(Filter { tag_id: None, document_type_id: None, correspondent_id: Some(6) })
    );
    assert_eq!(
        listing(encode(Category::Document, 6)),
        Listing::Documents(Filter { tag_id: None, document_type_id: None, correspondent_id: None })
    );
}

#[test]
fn resolve_documents_in_containers() {
    let mut fs = HelloFS::new();
    fs.readdir(encode(Category::Correspondent, 2), &vec![remote(42, "Invoice/March")], 0);
    let name = "42 - Invoice_March.pdf".to_string();
    let doc = encode(Category::Document, 42);
    for parent in [
        encode(Category::Tag, 1),
        encode(Category::DocumentType, 1),
        encode(Category::Correspondent, 2),
        encode(Category::SavedView, 3),
    ] {
        assert_eq!(fs.lookup(parent, &name), Lookup::Document(doc));
    }
    assert_eq!(fs.lookup(encode(Category::Document, 1), &name), Lookup::NotFound);
    assert_eq!(fs.lookup(0x7000_0000_0000_0000, &name), Lookup::NotFound);
    assert_eq!(fs.lookup(encode(Category::Tag, 1), &"missing.pdf".to_string()), Lookup::NotFound);
}

#[test]
fn resolve_fixed_names() {
    let fs = HelloFS::new();
    assert_eq!(fs.lookup(ROOT, &"Tags".to_string()), Lookup::Directory(TAGS_DIR));
    assert_eq!(fs.lookup(ROOT, &"Document type".to_string()), Lookup::Directory(DOCUMENT_TYPES_DIR));
    assert_eq!(fs.lookup(ROOT, &"Correspondents".to_string()), Lookup::Directory(CORRESPONDENTS_DIR));
    assert_eq!(fs.lookup(ROOT, &"Views".to_string()), Lookup::Directory(VIEWS_DIR));
    assert_eq!(fs.lookup(ROOT, &"tags".to_string()), Lookup::NotFound);
}

#[test]
fn attributes() {
    let dir = |ino| Attr { ino, size: 0, kind: FileKind::Directory, perm: 0o550, nlink: 2, blksize: 0 };
    for ino in 1..=5u64 {
        assert_eq!(getattr(ino, 99), dir(ino));
    }
    let doc = encode(Category::Document, 42);
    assert_eq!(
        getattr(doc, 1234),
        Attr { ino: doc, size: 1234, kind: FileKind::RegularFile, perm: 0o550, nlink: 1, blksize: 0 }
    );
    let tag = encode(Category::Tag, 3);
    assert_eq!(getattr(tag, 7), dir(tag));
    assert_eq!(getattr(encode(Category::SavedView, 3), 7), dir(encode(Category::SavedView, 3)));
    assert_eq!(
        getattr(0x9000_0000_0000_0001, 7),
        Attr { ino: 0x9000_0000_0000_0001, size: 0, kind: FileKind::RegularFile, perm: 0, nlink: 0, blksize: 0 }
    );
    assert_eq!(getattr(6, 7).nlink, 0);
    assert_eq!(directory_attr(tag), dir(tag));
}

#[test]
fn entry_attributes() {
    assert_eq!(entry_attr(Lookup::NotFound, 5), None);
    assert_eq!(entry_attr(Lookup::Directory(2), 5), Some(directory_attr(2)));
    let doc = encode(Category::Document, 1);
    assert_eq!(
        entry_attr(Lookup::Document(doc), 100),
        Some(Attr { ino: doc, size: 100, kind: FileKind::RegularFile, perm: 0o440, nlink: 1, blksize: 512 })
    );
}

#[test]
fn document_of_node() {
    assert_eq!(document_of(encode(Category::Document, 42)), Some(42));
    assert_eq!(document_of(encode(Category::Tag, 42)), None);
    assert_eq!(document_of(1), None);
}

#[test]
fn read_clamping() {
    let content: Vec<u8> = (0..100u8).collect();
    let r = read_range(&content, 90, 50);
    assert_eq!(r, (90..100u8).collect::<Vec<u8>>());
    assert!(read_range(&content, 150, 10).is_empty());
    assert!(read_range(&content, 100, 10).is_empty());
    assert_eq!(read_range(&content, 10, 3), vec![10, 11, 12]);
    assert!(read_range(&content, 5, 0).is_empty());
    assert!(read_range(&Vec::new(), 0, 10).is_empty());
    assert_eq!(read_range(&content, u64::MAX, u32::MAX).len(), 0);
}
