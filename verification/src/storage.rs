//! The 16-byte string value: its two representations, its invariant, and its
//! validating constructor.

use vstd::pervasive::unreached;
use vstd::prelude::*;
use vstd::slice::slice_index_get;
use vstd::slice::slice_subrange;
use vstd::string::StringSliceAdditionalSpecFns;
use vstd::utf8::decode_utf8;
use vstd::utf8::encode_utf8;
use vstd::utf8::encode_utf8_decode_utf8;
use vstd::utf8::encode_utf8_valid_utf8;
use vstd::utf8::valid_utf8;

verus! {

/// Longest content, in bytes, that is stored inline. One more byte of the
/// 16-byte value holds the tag, which for inline content doubles as the length.
pub const CAPACITY: usize = 15;

/// The tag of an inline value: the byte length of the content, one variant per
/// admissible length. Keeping the length in the variant rather than in a full
/// byte leaves the rest of the byte's values free to mark the heap
/// representation, which is what holds the whole value to 16 bytes.
#[derive(Clone, Copy, Debug, Hash)]
pub(crate) enum InlineLen {
    Len0,
    Len1,
    Len2,
    Len3,
    Len4,
    Len5,
    Len6,
    Len7,
    Len8,
    Len9,
    Len10,
    Len11,
    Len12,
    Len13,
    Len14,
    Len15,
}

impl InlineLen {
    /// The length this tag stands for.
    pub(crate) closed spec fn as_int(self) -> int {
        match self {
            InlineLen::Len0 => 0,
            InlineLen::Len1 => 1,
            InlineLen::Len2 => 2,
            InlineLen::Len3 => 3,
            InlineLen::Len4 => 4,
            InlineLen::Len5 => 5,
            InlineLen::Len6 => 6,
            InlineLen::Len7 => 7,
            InlineLen::Len8 => 8,
            InlineLen::Len9 => 9,
            InlineLen::Len10 => 10,
            InlineLen::Len11 => 11,
            InlineLen::Len12 => 12,
            InlineLen::Len13 => 13,
            InlineLen::Len14 => 14,
            InlineLen::Len15 => 15,
        }
    }

    pub(crate) proof fn lemma_range(self)
        ensures
            0 <= self.as_int() <= CAPACITY,
    {
    }

    pub(crate) fn to_usize(self) -> (n: usize)
        ensures
            n == self.as_int(),
    {
        match self {
            InlineLen::Len0 => 0,
            InlineLen::Len1 => 1,
            InlineLen::Len2 => 2,
            InlineLen::Len3 => 3,
            InlineLen::Len4 => 4,
            InlineLen::Len5 => 5,
            InlineLen::Len6 => 6,
            InlineLen::Len7 => 7,
            InlineLen::Len8 => 8,
            InlineLen::Len9 => 9,
            InlineLen::Len10 => 10,
            InlineLen::Len11 => 11,
            InlineLen::Len12 => 12,
            InlineLen::Len13 => 13,
            InlineLen::Len14 => 14,
            InlineLen::Len15 => 15,
        }
    }

    pub(crate) fn of_usize(n: usize) -> (r: InlineLen)
        requires
            n <= CAPACITY,
        ensures
            r.as_int() == n,
    {
        match n {
            0 => InlineLen::Len0,
            1 => InlineLen::Len1,
            2 => InlineLen::Len2,
            3 => InlineLen::Len3,
            4 => InlineLen::Len4,
            5 => InlineLen::Len5,
            6 => InlineLen::Len6,
            7 => InlineLen::Len7,
            8 => InlineLen::Len8,
            9 => InlineLen::Len9,
            10 => InlineLen::Len10,
            11 => InlineLen::Len11,
            12 => InlineLen::Len12,
            13 => InlineLen::Len13,
            14 => InlineLen::Len14,
            _ => InlineLen::Len15,
        }
    }
}

/// The two representations. Inline content sits beside its tag; longer content
/// is owned through a single thin pointer, so the inline payload and the
/// pointer share the 15 bytes after the tag and the whole value stays at 16
/// bytes.
#[derive(Debug, Hash)]
pub(crate) enum Repr {
    Inline(InlineLen, [u8; 15]),
    Heap(Box<String>),
}

/// A string value of exactly 16 bytes. Content of at most [`CAPACITY`] bytes
/// is stored inline; anything longer is stored in one owned heap allocation.
/// The content never holds a NUL byte; the constructor rejects such input for
/// both representations alike. The view of a value is its content as a byte
/// sequence.
#[derive(Debug, Hash)]
pub struct Storage {
    pub(crate) repr: Repr,
}

/// The error of the one fallible operation: the input held a NUL byte.
#[derive(Debug)]
pub struct InvalidInputError {
    /// Index of the first NUL byte in the rejected input.
    pub nul_position: usize,
}

impl View for Storage {
    type V = Seq<u8>;

    /// The decoded content, as the sequence of its bytes.
    closed spec fn view(&self) -> Seq<u8> {
        match self.repr {
            Repr::Inline(len, buf) => buf@.take(len.as_int()),
            Repr::Heap(s) => encode_utf8(s@),
        }
    }
}

impl Storage {
    /// What every live value satisfies: the content is valid UTF-8 with no NUL
    /// byte, the representation is the canonical one for the content's length,
    /// and unused inline payload bytes are zero.
    #[verifier::type_invariant]
    pub(crate) closed spec fn wf(self) -> bool {
        match self.repr {
            Repr::Inline(len, buf) => {
                let content = buf@.take(len.as_int());
                &&& valid_utf8(content)
                &&& !content.contains(0u8)
                &&& forall|i: int| len.as_int() <= i < 15 ==> buf@[i] == 0u8
            },
            Repr::Heap(s) => {
                let content = encode_utf8(s@);
                &&& content.len() > CAPACITY
                &&& !content.contains(0u8)
            },
        }
    }
}

#[verifier::external_type_specification]
#[verifier::external_body]
pub struct ExUtf8Error(core::str::Utf8Error);

/// Relies on core::str::from_utf8: it returns `Ok` exactly when the bytes are
/// valid UTF-8, and the returned string slice is backed by those same bytes.
pub assume_specification<'a>[ core::str::from_utf8 ](v: &'a [u8]) -> (r: Result<
    &'a str,
    core::str::Utf8Error,
>)
    ensures
        r is Ok <==> valid_utf8(v@),
        r matches Ok(s) ==> s.spec_bytes() == v@,
;

impl Storage {
    /// Encodes `s` into a new value: inline when it fits in [`CAPACITY`]
    /// bytes, otherwise in one fresh heap allocation. Fails exactly when `s`
    /// holds a NUL byte, naming the first such position, and allocates nothing
    /// on failure.
    pub fn from_str(s: &str) -> (r: Result<Storage, InvalidInputError>)
        ensures
            r is Ok <==> !s.spec_bytes().contains(0u8),
            r matches Ok(st) ==> st@ == s.spec_bytes(),
            r matches Err(e) ==> e.nul_position < s.spec_bytes().len()
                && s.spec_bytes()[e.nul_position as int] == 0u8
                && (forall|j: int| 0 <= j < e.nul_position ==> s.spec_bytes()[j] != 0u8),
    {
        let bytes: &[u8] = s.as_bytes();
        let len: usize = bytes.len();
        let mut i: usize = 0;
        while i < len
            invariant
                i <= len,
                len == bytes@.len(),
                bytes@ == s.spec_bytes(),
                forall|j: int| 0 <= j < i ==> bytes@[j] != 0u8,
            decreases len - i,
        {
            if *slice_index_get(bytes, i) == 0u8 {
                return Err(InvalidInputError { nul_position: i });
            }
            i += 1;
        }
        proof {
            assert(!s.spec_bytes().contains(0u8)) by {
                if s.spec_bytes().contains(0u8) {
                    let w = choose|j: int|
                        0 <= j < s.spec_bytes().len() && s.spec_bytes()[j] == 0u8;
                    assert(bytes@[w] != 0u8);
                }
            }
            encode_utf8_valid_utf8(s@);
        }
        if len <= CAPACITY {
            let mut buf: [u8; 15] = [0u8; 15];
            let mut k: usize = 0;
            while k < len
                invariant
                    k <= len,
                    len <= 15,
                    len == bytes@.len(),
                    bytes@ == s.spec_bytes(),
                    forall|j: int| 0 <= j < k ==> buf@[j] == bytes@[j],
                    forall|j: int| k <= j < 15 ==> buf@[j] == 0u8,
                decreases len - k,
            {
                buf[k] = *slice_index_get(bytes, k);
                k += 1;
            }
            let tag = InlineLen::of_usize(len);
            proof {
                assert(buf@.take(tag.as_int()) =~= s.spec_bytes());
            }
            let st = Storage { repr: Repr::Inline(tag, buf) };
            Ok(st)
        } else {
            let boxed: Box<String> = Box::new(s.to_owned());
            let st = Storage { repr: Repr::Heap(boxed) };
            Ok(st)
        }
    }

    /// The decoded content, as the borrowed bytes it is stored in.
    pub(crate) fn content_bytes(&self) -> (r: &[u8])
        ensures
            r@ == self@,
            valid_utf8(r@),
            !r@.contains(0u8),
    {
        proof {
            use_type_invariant(self);
        }
        match &self.repr {
            Repr::Inline(len, buf) => {
                proof {
                    len.lemma_range();
                }
                let n = len.to_usize();
                let r = slice_subrange(buf.as_slice(), 0, n);
                proof {
                    assert(r@ =~= buf@.take(len.as_int()));
                }
                r
            },
            Repr::Heap(s) => {
                proof {
                    encode_utf8_valid_utf8(s@);
                }
                s.as_str().as_bytes()
            },
        }
    }

    /// Decodes the value: a borrowed, zero-copy view of the content as a
    /// string slice. Never fails; validity was established at construction.
    pub fn as_str(&self) -> (r: &str)
        ensures
            r.spec_bytes() == self@,
            r@ == decode_utf8(self@),
    {
        let bytes = self.content_bytes();
        let r = match core::str::from_utf8(bytes) {
            Ok(s) => s,
            Err(_) => unreached(),
        };
        proof {
            encode_utf8_decode_utf8(r@);
        }
        r
    }

    /// Says whether the content lives in a heap allocation, which holds
    /// exactly of content longer than [`CAPACITY`] bytes.
    pub fn is_heap(&self) -> (r: bool)
        ensures
            r == (self@.len() > CAPACITY),
    {
        proof {
            use_type_invariant(self);
        }
        match &self.repr {
            Repr::Inline(len, _) => {
                proof {
                    len.lemma_range();
                }
                false
            },
            Repr::Heap(_) => true,
        }
    }

    /// Says whether the content is stored inline, which holds exactly of
    /// content of at most [`CAPACITY`] bytes.
    pub fn is_inline(&self) -> (r: bool)
        ensures
            r == (self@.len() <= CAPACITY),
    {
        self.is_heap() == false
    }
}

/// Law: construction followed by decoding returns the original string. The
/// premises are exactly what [`Storage::from_str`] ensures of a value built
/// from `s` and what [`Storage::as_str`] ensures of the string read back from
/// that value.
pub proof fn lemma_round_trip(s: &str, st: Storage, r: &str)
    requires
        st@ == s.spec_bytes(),
        r.spec_bytes() == st@,
    ensures
        r@ == s@,
{
    encode_utf8_decode_utf8(r@);
    encode_utf8_decode_utf8(s@);
}

impl Default for Storage {
    /// The canonical empty value: inline, length zero.
    fn default() -> (r: Self)
        ensures
            r@ == Seq::<u8>::empty(),
    {
        let buf: [u8; 15] = [0u8; 15];
        let st = Storage { repr: Repr::Inline(InlineLen::Len0, buf) };
        proof {
            assert(st@ =~= Seq::<u8>::empty());
            assert(valid_utf8(Seq::<u8>::empty()));
        }
        st
    }
}

} // verus!
