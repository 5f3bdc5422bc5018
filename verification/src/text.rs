//! The order of property names: byte by byte over their UTF-8 encoding.

use vstd::prelude::*;
use vstd::utf8::*;
use vstd::string::StringSliceAdditionalSpecFns;

verus! {

/// How one name stands to another in the order of names.
#[derive(Debug, Clone, Copy, PartialEq, Eq, Structural)]
pub enum KeyOrder {
    Before,
    Same,
    After,
}

/// The first `i` bytes of `a` and of `b` are the same.
pub open spec fn common_prefix(a: Seq<u8>, b: Seq<u8>, i: int) -> bool {
    &&& 0 <= i <= a.len()
    &&& i <= b.len()
    &&& forall|j: int| 0 <= j < i ==> a[j] == b[j]
}

/// `a` comes strictly before `b` in lexicographic order: after a common
/// prefix either `a` ends and `b` goes on, or `a` has the smaller byte.
pub open spec fn bytes_before(a: Seq<u8>, b: Seq<u8>) -> bool {
    exists|i: int| #[trigger]
        common_prefix(a, b, i) && i < b.len() && (i == a.len() || a[i] < b[i])
}

/// The order of names: that of their UTF-8 encodings.
pub open spec fn key_before(a: Seq<char>, b: Seq<char>) -> bool {
    bytes_before(encode_utf8(a), encode_utf8(b))
}

/// No byte string comes before itself.
pub proof fn lemma_bytes_before_irreflexive(a: Seq<u8>)
    ensures
        !bytes_before(a, a),
{
}

/// The order of byte strings is transitive.
pub proof fn lemma_bytes_before_transitive(a: Seq<u8>, b: Seq<u8>, c: Seq<u8>)
    requires
        bytes_before(a, b),
        bytes_before(b, c),
    ensures
        bytes_before(a, c),
{
    let i = choose|i: int| #[trigger]
        common_prefix(a, b, i) && i < b.len() && (i == a.len() || a[i] < b[i]);
    let j = choose|j: int| #[trigger]
        common_prefix(b, c, j) && j < c.len() && (j == b.len() || b[j] < c[j]);
    let k = if i <= j {
        i
    } else {
        j
    };
    assert(common_prefix(a, c, k));
}

/// No name comes before itself, so names in order are different names.
pub proof fn lemma_key_before_irreflexive(a: Seq<char>)
    ensures
        !key_before(a, a),
{
    lemma_bytes_before_irreflexive(encode_utf8(a));
}

/// The order of names is transitive.
pub proof fn lemma_key_before_transitive(a: Seq<char>, b: Seq<char>, c: Seq<char>)
    requires
        key_before(a, b),
        key_before(b, c),
    ensures
        key_before(a, c),
{
    lemma_bytes_before_transitive(encode_utf8(a), encode_utf8(b), encode_utf8(c));
}

/// Compares two names in the order of names.
pub fn compare_keys(a: &str, b: &str) -> (order: KeyOrder)
    ensures
        order == KeyOrder::Before <==> key_before(a@, b@),
        order == KeyOrder::Same <==> a@ == b@,
        order == KeyOrder::After <==> key_before(b@, a@),
{
    let x = a.as_bytes();
    let y = b.as_bytes();
    proof {
        encode_utf8_decode_utf8(a@);
        encode_utf8_decode_utf8(b@);
        lemma_bytes_before_irreflexive(x@);
    }
    let mut i: usize = 0;
    while i < x.len() && i < y.len()
        invariant
            common_prefix(x@, y@, i as int),
            x@ == encode_utf8(a@),
            y@ == encode_utf8(b@),
        decreases x.len() - i,
    {
        if x[i] < y[i] {
            proof {
                if bytes_before(y@, x@) {
                    lemma_bytes_before_transitive(x@, y@, x@);
                }
            }
            return KeyOrder::Before;
        }
        if y[i] < x[i] {
            assert(common_prefix(y@, x@, i as int));
            proof {
                if bytes_before(x@, y@) {
                    lemma_bytes_before_transitive(x@, y@, x@);
                }
            }
            return KeyOrder::After;
        }
        i += 1;
    }
    if i < y.len() {
        proof {
            if bytes_before(y@, x@) {
                lemma_bytes_before_transitive(x@, y@, x@);
            }
        }
        KeyOrder::Before
    } else if i < x.len() {
        assert(common_prefix(y@, x@, i as int));
        proof {
            if bytes_before(x@, y@) {
                lemma_bytes_before_transitive(x@, y@, x@);
            }
        }
        KeyOrder::After
    } else {
        assert(x@ =~= y@);
        proof {
            lemma_bytes_before_irreflexive(x@);
        }
        KeyOrder::Same
    }
}

/// Whether two names are the same name.
pub fn same_key(a: &str, b: &str) -> (same: bool)
    ensures
        same == (a@ == b@),
{
    compare_keys(a, b) == KeyOrder::Same
}

} // verus!
