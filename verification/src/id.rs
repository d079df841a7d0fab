//! The packed 64-bit identifier codec.
//!
//! An [`Id`] is a tagged 64-bit word, disjoint by construction through its
//! top three bits:
//!
//! ```text
//! 0?? = Single   (63-bit hash of the source text)
//! 100 = Empty
//! 101 = NodePtr  (file id + tree level + node index)
//! 110 = Multi    (index + count into a shared path-segment pool)
//! 111 = Number   (61-bit literal)
//! ```
//!
//! Equality of identifiers is bitwise equality of the word.

use vstd::prelude::*;
use vstd::string::StringSliceAdditionalSpecFns;

verus! {

/// Dense index of one source file, truncated to 16 bits.
#[derive(Clone, Copy, Debug, Default, Eq, Ord, PartialOrd, Hash, PartialEq, Structural)]
pub struct LiveFileId(pub u16);

impl LiveFileId {
    /// Wraps a dense file index; indices at or above 65536 wrap around,
    /// a documented limit of the packed form.
    pub fn index(index: usize) -> (r: LiveFileId)
        ensures
            r.0 == index % 0x10000,
    {
        LiveFileId((index % 0x10000) as u16)
    }

    /// The dense file index as a usize.
    pub fn to_index(&self) -> (r: usize)
        ensures
            r == self.0,
    {
        self.0 as usize
    }
}

/// A packed, tagged 64-bit identifier word.
#[derive(Clone, Debug, Eq, Hash, Copy, PartialEq, Structural)]
pub struct Id(pub u64);

/// Address of one node in the leveled tree: its depth and its index in
/// that depth's flat array.
#[derive(Clone, Debug, Eq, Hash, Copy, PartialEq, Structural)]
pub struct LiveNodePtr {
    pub level: usize,
    pub index: usize,
}

/// The unpacked form of an [`Id`]: exactly one variant holds for every word.
#[derive(Clone, Copy, Debug, Eq, PartialEq, Structural)]
pub enum IdType {
    Empty,
    Multi { index: usize, count: usize },
    NodePtr { file_id: LiveFileId, ptr: LiveNodePtr },
    Single(u64),
    Number(u64),
}

/// The word carries the Single tag: top bit clear.
pub open spec fn single_word(w: u64) -> bool {
    w & 0x8000_0000_0000_0000 == 0
}

/// The word carries the Empty tag.
pub open spec fn empty_word(w: u64) -> bool {
    w & 0xE000_0000_0000_0000 == 0x8000_0000_0000_0000
}

/// The word carries the NodePtr tag.
pub open spec fn node_ptr_word(w: u64) -> bool {
    w & 0xE000_0000_0000_0000 == 0xA000_0000_0000_0000
}

/// The word carries the Multi tag.
pub open spec fn multi_word(w: u64) -> bool {
    w & 0xE000_0000_0000_0000 == 0xC000_0000_0000_0000
}

/// The word carries the Number tag.
pub open spec fn number_word(w: u64) -> bool {
    w & 0xE000_0000_0000_0000 == 0xE000_0000_0000_0000
}

/// The packed word of a Multi id over the given segment-pool slice.
pub open spec fn multi_id(index: usize, count: usize) -> Id {
    Id(((((count as u64) << 32) | (index as u64)) & 0x1fff_ffff_ffff_ffff) | 0xC000_0000_0000_0000)
}

/// The packed word of a Single id over a (pre-masked) 63-bit hash value.
pub open spec fn single_id(val: u64) -> Id {
    Id(val & 0x7fff_ffff_ffff_ffff)
}

/// The packed word of a Number id over a 61-bit literal.
pub open spec fn number_id(val: u64) -> Id {
    Id(0xE000_0000_0000_0000 | (val & 0x1fff_ffff_ffff_ffff))
}

/// The packed word of the Empty id.
pub open spec fn empty_id() -> Id {
    Id(0x8000_0000_0000_0000)
}

/// The packed word of a NodePtr id over a file id and a node address.
pub open spec fn node_ptr_id(file_id: LiveFileId, ptr: LiveNodePtr) -> Id {
    Id(0xA000_0000_0000_0000 | (ptr.index as u64) | ((file_id.0 as u64) << 32) | (
    (ptr.level as u64) << 48))
}

/// Unpacks a word into its variant, branching only on the top three bits.
pub open spec fn spec_classify(id: Id) -> IdType {
    if id.0 & 0x8000_0000_0000_0000 != 0 {
        if id.0 & 0xE000_0000_0000_0000 == 0xA000_0000_0000_0000 {
            IdType::NodePtr {
                file_id: LiveFileId(((id.0 >> 32) & 0xffff) as u16),
                ptr: LiveNodePtr {
                    level: ((id.0 >> 48) & 0x1fff) as usize,
                    index: (id.0 & 0xffff_ffff) as usize,
                },
            }
        } else if id.0 & 0xE000_0000_0000_0000 == 0xC000_0000_0000_0000 {
            IdType::Multi {
                index: (id.0 & 0xffff_ffff) as usize,
                count: ((id.0 & 0x1fff_ffff_ffff_ffff) >> 32) as usize,
            }
        } else if id.0 & 0xE000_0000_0000_0000 == 0xE000_0000_0000_0000 {
            IdType::Number(id.0 & 0x1fff_ffff_ffff_ffff)
        } else {
            IdType::Empty
        }
    } else {
        IdType::Single(id.0 & 0x7fff_ffff_ffff_ffff)
    }
}

/// The hash seed of the Single-id mix hash.
pub open spec fn hash_seed() -> u64 {
    0xd6e8_feb8_6659_fd9
}

/// One round of the Single-id mix hash: fold one byte into the state.
pub open spec fn hash_round(x: u64, b: u8) -> u64 {
    let x1 = vstd::wrapping::u64_specs::wrapping_add(x, b as u64);
    let x2 = x1 ^ (x1 >> 32);
    let x3 = vstd::wrapping::u64_specs::wrapping_mul(x2, 0xd6e8_feb8_6659_fd93);
    let x4 = x3 ^ (x3 >> 32);
    let x5 = vstd::wrapping::u64_specs::wrapping_mul(x4, 0xd6e8_feb8_6659_fd93);
    x5 ^ (x5 >> 32)
}

/// The mix-hash state after folding in a byte sequence, seed first.
pub open spec fn hash_state(bytes: Seq<u8>) -> u64
    decreases bytes.len(),
{
    if bytes.len() == 0 {
        hash_seed()
    } else {
        hash_round(hash_state(bytes.drop_last()), bytes.last())
    }
}

/// The Single id of a byte sequence: its mix hash, masked to 63 bits.
pub open spec fn id_from_bytes(bytes: Seq<u8>) -> Id {
    Id(hash_state(bytes) & 0x7fff_ffff_ffff_ffff)
}

impl Id {
    /// The deterministic Single id of a piece of source text: a multi-round
    /// mix hash of its UTF-8 bytes, masked to 63 bits. Stable across runs
    /// and processes, so ids can serve as durable cross-generation keys.
    pub fn from_str(idstr: &str) -> (r: Id)
        ensures
            r == id_from_bytes(idstr.spec_bytes()),
            single_word(r.0),
    {
        let bytes = idstr.as_bytes();
        let n = bytes.len();
        let mut x: u64 = 0xd6e8_feb8_6659_fd9;
        let mut i: usize = 0;
        while i < n
            invariant
                n == bytes@.len(),
                i <= n,
                x == hash_state(bytes@.take(i as int)),
            decreases n - i,
        {
            x = x.wrapping_add(bytes[i] as u64);
            x = x ^ (x >> 32);
            x = x.wrapping_mul(0xd6e8_feb8_6659_fd93);
            x = x ^ (x >> 32);
            x = x.wrapping_mul(0xd6e8_feb8_6659_fd93);
            x = x ^ (x >> 32);
            i = i + 1;
            proof {
                assert(bytes@.take(i as int).drop_last() =~= bytes@.take(i - 1));
                assert(bytes@.take(i as int).last() == bytes@[i - 1]);
            }
        }
        proof {
            assert(bytes@.take(n as int) =~= bytes@);
            assert((x & 0x7fff_ffff_ffff_ffff) & 0x8000_0000_0000_0000 == 0) by (bit_vector);
        }
        Id(x & 0x7fff_ffff_ffff_ffff)
    }

    /// Unpacks this id into its variant.
    pub fn to_type(&self) -> (t: IdType)
        ensures
            t == spec_classify(*self),
    {
        proof {
            let w = self.0;
            assert((w >> 32) & 0xffff < 0x10000 && (w >> 48) & 0x1fff < 0x2000 && w & 0xffff_ffff
                < 0x1_0000_0000 && (w & 0x1fff_ffff_ffff_ffff) >> 32 < 0x2000_0000)
                by (bit_vector);
        }
        if self.0 & 0x8000_0000_0000_0000 != 0 {
            if self.0 & 0xE000_0000_0000_0000 == 0xA000_0000_0000_0000 {
                IdType::NodePtr {
                    file_id: LiveFileId(((self.0 >> 32) & 0xffff) as u16),
                    ptr: LiveNodePtr {
                        level: ((self.0 >> 48) & 0x1fff) as usize,
                        index: (self.0 & 0xffff_ffff) as usize,
                    },
                }
            } else if self.0 & 0xE000_0000_0000_0000 == 0xC000_0000_0000_0000 {
                IdType::Multi {
                    index: (self.0 & 0xffff_ffff) as usize,
                    count: ((self.0 & 0x1fff_ffff_ffff_ffff) >> 32) as usize,
                }
            } else if self.0 & 0xE000_0000_0000_0000 == 0xE000_0000_0000_0000 {
                IdType::Number(self.0 & 0x1fff_ffff_ffff_ffff)
            } else {
                IdType::Empty
            }
        } else {
            IdType::Single(self.0 & 0x7fff_ffff_ffff_ffff)
        }
    }

    /// Packs a Multi id over a path-segment pool slice. An index at or above
    /// 2^32, or a count at or above 2^29, wraps into the packed field, a
    /// documented limit of the packed form.
    pub fn multi(index: usize, len: usize) -> (r: Id)
        ensures
            r == multi_id(index, len),
    {
        Id(((((len as u64) << 32) | (index as u64)) & 0x1fff_ffff_ffff_ffff)
            | 0xC000_0000_0000_0000)
    }

    /// Packs a Single id over an already-masked 63-bit hash value.
    pub fn single(val: u64) -> (r: Id)
        ensures
            r == single_id(val),
    {
        Id(val & 0x7fff_ffff_ffff_ffff)
    }

    /// Packs a Number id over a 61-bit literal; higher bits wrap away.
    pub fn number(val: u64) -> (r: Id)
        ensures
            r == number_id(val),
    {
        Id(0xE000_0000_0000_0000 | (val & 0x1fff_ffff_ffff_ffff))
    }

    /// The Empty id.
    pub fn empty() -> (r: Id)
        ensures
            r == empty_id(),
    {
        Id(0x8000_0000_0000_0000)
    }

    /// Packs a NodePtr id: a stable cross-document reference to one node.
    pub fn node_ptr(file_id: LiveFileId, ptr: LiveNodePtr) -> (r: Id)
        ensures
            r == node_ptr_id(file_id, ptr),
    {
        Id(0xA000_0000_0000_0000 | (ptr.index as u64) | ((file_id.0 as u64) << 32) | (
        (ptr.level as u64) << 48))
    }

    /// Tests for the Empty tag.
    pub fn is_empty(&self) -> (r: bool)
        ensures
            r == empty_word(self.0),
    {
        self.0 & 0xE000_0000_0000_0000 == 0x8000_0000_0000_0000
    }

    /// Tests for the NodePtr tag.
    pub fn is_node_ptr(&self) -> (r: bool)
        ensures
            r == node_ptr_word(self.0),
    {
        self.0 & 0xE000_0000_0000_0000 == 0xA000_0000_0000_0000
    }

    /// Tests for the Multi tag.
    pub fn is_multi(&self) -> (r: bool)
        ensures
            r == multi_word(self.0),
    {
        self.0 & 0xE000_0000_0000_0000 == 0xC000_0000_0000_0000
    }

    /// Tests for the Number tag.
    pub fn is_number(&self) -> (r: bool)
        ensures
            r == number_word(self.0),
    {
        self.0 & 0xE000_0000_0000_0000 == 0xE000_0000_0000_0000
    }

    /// Tests for the Single tag.
    pub fn is_single(&self) -> (r: bool)
        ensures
            r == single_word(self.0),
    {
        self.0 & 0x8000_0000_0000_0000 == 0
    }

    /// The (index, count) pool slice of a Multi id. Only a Multi id may ask.
    pub fn get_multi(&self) -> (r: (usize, usize))
        requires
            multi_word(self.0),
        ensures
            spec_classify(*self) == (IdType::Multi { index: r.0, count: r.1 }),
    {
        proof {
            let w = self.0;
            assert(w & 0xffff_ffff < 0x1_0000_0000 && (w & 0x1fff_ffff_ffff_ffff) >> 32
                < 0x2000_0000 && (w & 0xE000_0000_0000_0000 == 0xC000_0000_0000_0000 ==> w
                & 0x8000_0000_0000_0000 != 0)) by (bit_vector);
        }
        ((self.0 & 0xffff_ffff) as usize, ((self.0 & 0x1fff_ffff_ffff_ffff) >> 32) as usize)
    }

    /// The raw word of a Single id. Only a Single id may ask.
    pub fn get_single(&self) -> (r: u64)
        requires
            single_word(self.0),
        ensures
            r == self.0,
    {
        self.0
    }
}

/// Every 64-bit word falls under exactly one of the five id variants:
/// Empty, Single, Multi, Number, NodePtr.
pub proof fn lemma_exactly_one_id_class(id: Id)
    ensures
        single_word(id.0) || empty_word(id.0) || multi_word(id.0) || number_word(id.0)
            || node_ptr_word(id.0),
        single_word(id.0) ==> !empty_word(id.0) && !multi_word(id.0) && !number_word(id.0)
            && !node_ptr_word(id.0),
        empty_word(id.0) ==> !single_word(id.0) && !multi_word(id.0) && !number_word(id.0)
            && !node_ptr_word(id.0),
        multi_word(id.0) ==> !single_word(id.0) && !empty_word(id.0) && !number_word(id.0)
            && !node_ptr_word(id.0),
        number_word(id.0) ==> !single_word(id.0) && !empty_word(id.0) && !multi_word(id.0)
            && !node_ptr_word(id.0),
        node_ptr_word(id.0) ==> !single_word(id.0) && !empty_word(id.0) && !multi_word(id.0)
            && !number_word(id.0),
{
    let w = id.0;
    assert((single_word(w) || empty_word(w) || multi_word(w) || number_word(w) || node_ptr_word(w))
        && (single_word(w) ==> !empty_word(w) && !multi_word(w) && !number_word(w)
        && !node_ptr_word(w)) && (empty_word(w) ==> !single_word(w) && !multi_word(w)
        && !number_word(w) && !node_ptr_word(w)) && (multi_word(w) ==> !single_word(w)
        && !empty_word(w) && !number_word(w) && !node_ptr_word(w)) && (number_word(w)
        ==> !single_word(w) && !empty_word(w) && !multi_word(w) && !node_ptr_word(w)) && (
    node_ptr_word(w) ==> !single_word(w) && !empty_word(w) && !multi_word(w) && !number_word(w)))
        by (bit_vector);
}

/// The variant a word unpacks to is the variant its tag predicate names.
pub proof fn lemma_classify_matches_class(id: Id)
    ensures
        single_word(id.0) <==> spec_classify(id) is Single,
        empty_word(id.0) <==> spec_classify(id) is Empty,
        multi_word(id.0) <==> spec_classify(id) is Multi,
        number_word(id.0) <==> spec_classify(id) is Number,
        node_ptr_word(id.0) <==> spec_classify(id) is NodePtr,
{
    let w = id.0;
    assert((w & 0x8000_0000_0000_0000 == 0 <==> single_word(w)) && (w & 0x8000_0000_0000_0000 != 0
        && w & 0xE000_0000_0000_0000 == 0xA000_0000_0000_0000 <==> node_ptr_word(w)) && (w
        & 0x8000_0000_0000_0000 != 0 && w & 0xE000_0000_0000_0000 == 0xC000_0000_0000_0000 <==>
    multi_word(w)) && (w & 0x8000_0000_0000_0000 != 0 && w & 0xE000_0000_0000_0000
        == 0xE000_0000_0000_0000 <==> number_word(w)) && (w & 0x8000_0000_0000_0000 != 0 && !(w
        & 0xE000_0000_0000_0000 == 0xA000_0000_0000_0000) && !(w & 0xE000_0000_0000_0000
        == 0xC000_0000_0000_0000) && !(w & 0xE000_0000_0000_0000 == 0xE000_0000_0000_0000) <==>
    empty_word(w))) by (bit_vector);
}

/// Packing a pool slice as a Multi id and unpacking it again recovers the
/// slice exactly, for every index below 2^32 and count below 2^29.
pub proof fn lemma_multi_roundtrip(index: usize, count: usize)
    requires
        index < 0x1_0000_0000,
        count < 0x2000_0000,
    ensures
        spec_classify(multi_id(index, count)) == (IdType::Multi { index, count }),
{
    let ix = index as u64;
    let c = count as u64;
    assert(ix < 0x1_0000_0000 && c < 0x2000_0000 ==> (((((c << 32) | ix)
        & 0x1fff_ffff_ffff_ffff) | 0xC000_0000_0000_0000) & 0x8000_0000_0000_0000 != 0) && (((((c
        << 32) | ix) & 0x1fff_ffff_ffff_ffff) | 0xC000_0000_0000_0000) & 0xE000_0000_0000_0000
        == 0xC000_0000_0000_0000) && (((((c << 32) | ix) & 0x1fff_ffff_ffff_ffff)
        | 0xC000_0000_0000_0000) & 0xffff_ffff == ix) && ((((((c << 32) | ix)
        & 0x1fff_ffff_ffff_ffff) | 0xC000_0000_0000_0000) & 0x1fff_ffff_ffff_ffff) >> 32 == c))
        by (bit_vector);
}

/// A hashed source-text id always carries the Single tag: the mask that
/// closes the hash clears the tag bits.
pub proof fn lemma_from_bytes_is_single(bytes: Seq<u8>)
    ensures
        single_word(id_from_bytes(bytes).0),
        spec_classify(id_from_bytes(bytes)) is Single,
{
    let h = hash_state(bytes);
    assert((h & 0x7fff_ffff_ffff_ffff) & 0x8000_0000_0000_0000 == 0) by (bit_vector);
}

} // verus!
