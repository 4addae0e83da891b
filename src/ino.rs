//! Node identifiers: a category tag in the top four bits, a local id in the
//! low sixty bits.

use vstd::prelude::*;

verus! {

/// Number of bits that hold the local identifier.
pub const LOCAL_BITS: u64 = 60;

/// Mask of the local identifier bits.
pub const LOCAL_MASK: u64 = 0x0FFF_FFFF_FFFF_FFFF;

/// The root directory.
pub const ROOT: u64 = 1;

/// The fixed directory that holds one directory per tag.
pub const TAGS_DIR: u64 = 2;

/// The fixed directory that holds one directory per document type.
pub const DOCUMENT_TYPES_DIR: u64 = 3;

/// The fixed directory that holds one directory per correspondent.
pub const CORRESPONDENTS_DIR: u64 = 4;

/// The fixed directory that holds one directory per saved view.
pub const VIEWS_DIR: u64 = 5;

/// What kind of entity a node identifier refers to.
#[derive(Clone, Copy, Debug, PartialEq, Eq, Structural)]
pub enum Category {
    Special,
    Document,
    Tag,
    DocumentType,
    Correspondent,
    SavedView,
}

/// Size of the local identifier space, 2^60.
pub open spec fn local_space() -> int {
    0x1000_0000_0000_0000
}

/// The tag that stands in the top four bits for a category.
pub open spec fn tag_of(c: Category) -> int {
    match c {
        Category::Special => 0,
        Category::Document => 1,
        Category::Tag => 2,
        Category::DocumentType => 3,
        Category::Correspondent => 4,
        Category::SavedView => 5,
    }
}

/// The category whose tag is `t`, if any.
pub open spec fn category_of_tag(t: int) -> Option<Category> {
    if t == 0 {
        Some(Category::Special)
    } else if t == 1 {
        Some(Category::Document)
    } else if t == 2 {
        Some(Category::Tag)
    } else if t == 3 {
        Some(Category::DocumentType)
    } else if t == 4 {
        Some(Category::Correspondent)
    } else if t == 5 {
        Some(Category::SavedView)
    } else {
        None
    }
}

/// The node identifier of `local` in category `c`; bits of `local` above
/// the sixtieth are dropped.
pub open spec fn encode_spec(c: Category, local: u64) -> u64 {
    (tag_of(c) * local_space() + local as int % local_space()) as u64
}

/// The tag in the top four bits of `n`.
pub open spec fn tag_spec(n: u64) -> int {
    n as int / local_space()
}

/// The local identifier in the low sixty bits of `n`.
pub open spec fn local_spec(n: u64) -> u64 {
    (n as int % local_space()) as u64
}

/// What `n` refers to: its category, if its tag names one, and its local id.
pub open spec fn decode_spec(n: u64) -> Option<(Category, u64)> {
    match category_of_tag(tag_spec(n)) {
        Some(c) => Some((c, local_spec(n))),
        None => None,
    }
}

proof fn lemma_pack(t: u64, x: u64)
    requires
        t < 16,
    ensures
        (t << 60u64) | (x & 0x0FFF_FFFF_FFFF_FFFFu64) == t * 0x1000_0000_0000_0000u64 + x
            % 0x1000_0000_0000_0000u64,
        t * 0x1000_0000_0000_0000u64 + x % 0x1000_0000_0000_0000u64 <= u64::MAX,
{
    assert((t << 60u64) | (x & 0x0FFF_FFFF_FFFF_FFFFu64) == t * 0x1000_0000_0000_0000u64 + x
        % 0x1000_0000_0000_0000u64) by (bit_vector)
        requires
            t < 16,
    ;
    assert(t * 0x1000_0000_0000_0000u64 + x % 0x1000_0000_0000_0000u64 <= u64::MAX) by (nonlinear_arith)
        requires
            t < 16,
    ;
}

proof fn lemma_unpack(n: u64)
    ensures
        n >> 60u64 == n / 0x1000_0000_0000_0000u64,
        n & 0x0FFF_FFFF_FFFF_FFFFu64 == n % 0x1000_0000_0000_0000u64,
{
    assert(n >> 60u64 == n / 0x1000_0000_0000_0000u64) by (bit_vector);
    assert(n & 0x0FFF_FFFF_FFFF_FFFFu64 == n % 0x1000_0000_0000_0000u64) by (bit_vector);
}

/// The tag of a category, as stored in the top four bits.
pub fn category_tag(c: Category) -> (r: u64)
    ensures
        r == tag_of(c),
{
    match c {
        Category::Special => 0,
        Category::Document => 1,
        Category::Tag => 2,
        Category::DocumentType => 3,
        Category::Correspondent => 4,
        Category::SavedView => 5,
    }
}

/// The node identifier of `local` in category `c`. A local id must fit in
/// sixty bits; the bits above are dropped.
pub fn encode(c: Category, local: u64) -> (r: u64)
    ensures
        r == encode_spec(c, local),
{
    let t = category_tag(c);
    proof {
        lemma_pack(t, local);
    }
    (t << LOCAL_BITS) | (local & LOCAL_MASK)
}

/// The category and local id that a node identifier refers to, or `None`
/// where its tag names no category.
pub fn decode(n: u64) -> (r: Option<(Category, u64)>)
    ensures
        r == decode_spec(n),
{
    proof {
        lemma_unpack(n);
    }
    let t = n >> LOCAL_BITS;
    let local = n & LOCAL_MASK;
    let c = if t == 0 {
        Category::Special
    } else if t == 1 {
        Category::Document
    } else if t == 2 {
        Category::Tag
    } else if t == 3 {
        Category::DocumentType
    } else if t == 4 {
        Category::Correspondent
    } else if t == 5 {
        Category::SavedView
    } else {
        return None;
    };
    Some((c, local))
}

/// Decoding the node identifier of a local id below 2^60 gives back its
/// category and local id.
pub proof fn lemma_decode_encode(c: Category, local: u64)
    requires
        local < local_space(),
    ensures
        decode_spec(encode_spec(c, local)) == Some((c, local)),
{
    let n = encode_spec(c, local);
    assert(local as int % local_space() == local as int) by (nonlinear_arith)
        requires
            0 <= local < local_space(),
    ;
    assert(n as int == tag_of(c) * local_space() + local as int) by (nonlinear_arith)
        requires
            0 <= tag_of(c) <= 5,
            0 <= local < local_space(),
            n as int == tag_of(c) * local_space() + local as int % local_space(),
            local as int % local_space() == local as int,
    ;
    assert(tag_spec(n) == tag_of(c) && local_spec(n) == local) by (nonlinear_arith)
        requires
            0 <= tag_of(c) <= 5,
            0 <= local < local_space(),
            n as int == tag_of(c) * local_space() + local as int,
            local_space() == 0x1000_0000_0000_0000,
    ;
}

/// Two categories never share a node identifier for the same local id.
pub proof fn lemma_categories_disjoint(c: Category, d: Category, local: u64)
    requires
        c != d,
    ensures
        encode_spec(c, local) != encode_spec(d, local),
{
    let x = local as int % local_space();
    assert(0 <= x < local_space()) by (nonlinear_arith)
        requires
            x == local as int % local_space(),
            local_space() > 0,
    ;
    assert(tag_of(c) != tag_of(d));
    assert(tag_of(c) * local_space() + x != tag_of(d) * local_space() + x) by (nonlinear_arith)
        requires
            tag_of(c) != tag_of(d),
            local_space() > 0,
    ;
    assert(0 <= tag_of(c) * local_space() + x <= u64::MAX) by (nonlinear_arith)
        requires
            0 <= tag_of(c) <= 5,
            0 <= x < local_space(),
            local_space() == 0x1000_0000_0000_0000,
    ;
    assert(0 <= tag_of(d) * local_space() + x <= u64::MAX) by (nonlinear_arith)
        requires
            0 <= tag_of(d) <= 5,
            0 <= x < local_space(),
            local_space() == 0x1000_0000_0000_0000,
    ;
}

} // verus!
