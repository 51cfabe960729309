//! Names: how the name of a program or of one of its components becomes the
//! integer that identifies it.

use vstd::prelude::*;
use crate::types::{Identifier, ProgramId};

verus! {

/// The most bytes that a name may have.
pub const MAX_NAME_LENGTH: usize = 8;

pub open spec fn spec_is_letter(b: u8) -> bool {
    (0x61 <= b <= 0x7a) || (0x41 <= b <= 0x5a)
}

/// A letter, a digit or an underscore.
pub open spec fn spec_is_name_byte(b: u8) -> bool {
    spec_is_letter(b) || (0x30 <= b <= 0x39) || b == 0x5f
}

/// A name has from one to [`MAX_NAME_LENGTH`] bytes, begins with a letter, and
/// holds letters, digits and underscores only.
pub open spec fn spec_is_name(name: Seq<u8>) -> bool {
    &&& 1 <= name.len() <= MAX_NAME_LENGTH
    &&& spec_is_letter(name[0])
    &&& forall|i: int| 0 <= i < name.len() ==> spec_is_name_byte(#[trigger] name[i])
}

/// The integer whose digits to the base 256 are the bytes, the first byte
/// being the lowest digit.
pub open spec fn spec_encode(bytes: Seq<u8>) -> nat
    decreases bytes.len(),
{
    if bytes.len() == 0 {
        0
    } else {
        bytes[0] as nat + 256 * spec_encode(bytes.drop_first())
    }
}

/// The power of 256.
pub open spec fn spec_pow256(k: nat) -> nat
    decreases k,
{
    if k == 0 {
        1
    } else {
        256 * spec_pow256((k - 1) as nat)
    }
}

proof fn lemma_pow256_grows(j: nat, k: nat)
    requires
        j <= k,
    ensures
        1 <= spec_pow256(j) <= spec_pow256(k),
    decreases k,
{
    if j < k {
        lemma_pow256_grows(j, (k - 1) as nat);
    } else if k > 0 {
        lemma_pow256_grows((j - 1) as nat, (k - 1) as nat);
    }
}

/// A name of at most eight bytes encodes to an integer that a `u64` holds.
pub proof fn lemma_encode_fits(bytes: Seq<u8>)
    ensures
        spec_encode(bytes) < spec_pow256(bytes.len()),
        bytes.len() <= MAX_NAME_LENGTH ==> spec_encode(bytes) <= u64::MAX,
    decreases bytes.len(),
{
    if bytes.len() > 0 {
        lemma_encode_fits(bytes.drop_first());
    }
    if bytes.len() <= MAX_NAME_LENGTH {
        lemma_pow256_grows(bytes.len(), 8);
        assert(spec_pow256(8) == 0x1_0000_0000_0000_0000) by {
            reveal_with_fuel(spec_pow256, 9);
        }
    }
}

/// Two sequences of bytes without a zero byte that encode to one integer are
/// equal.
proof fn lemma_encode_is_injective(a: Seq<u8>, b: Seq<u8>)
    requires
        forall|i: int| 0 <= i < a.len() ==> #[trigger] a[i] != 0,
        forall|i: int| 0 <= i < b.len() ==> #[trigger] b[i] != 0,
        spec_encode(a) == spec_encode(b),
    ensures
        a == b,
    decreases a.len(),
{
    if a.len() == 0 {
        if b.len() > 0 {
            assert(b[0] != 0);
        }
        assert(a =~= b);
    } else if b.len() == 0 {
        assert(a[0] != 0);
    } else {
        let x = spec_encode(a.drop_first());
        let y = spec_encode(b.drop_first());
        assert(a[0] as nat + 256 * x == b[0] as nat + 256 * y);
        assert(a[0] == b[0] && x == y);
        assert forall|i: int| 0 <= i < a.drop_first().len() implies #[trigger] a.drop_first()[i]
            != 0 by {
            assert(a.drop_first()[i] == a[i + 1]);
        }
        assert forall|i: int| 0 <= i < b.drop_first().len() implies #[trigger] b.drop_first()[i]
            != 0 by {
            assert(b.drop_first()[i] == b[i + 1]);
        }
        lemma_encode_is_injective(a.drop_first(), b.drop_first());
        assert(a =~= seq![a[0]] + a.drop_first());
        assert(b =~= seq![b[0]] + b.drop_first());
    }
}

/// Different names have different codes.
pub proof fn lemma_names_are_distinct(a: Seq<u8>, b: Seq<u8>)
    requires
        spec_is_name(a),
        spec_is_name(b),
        spec_encode(a) == spec_encode(b),
    ensures
        a == b,
{
    lemma_encode_is_injective(a, b);
}

pub fn is_letter(b: u8) -> (r: bool)
    ensures
        r == spec_is_letter(b),
{
    (0x61 <= b && b <= 0x7a) || (0x41 <= b && b <= 0x5a)
}

pub fn is_name_byte(b: u8) -> (r: bool)
    ensures
        r == spec_is_name_byte(b),
{
    is_letter(b) || (0x30 <= b && b <= 0x39) || b == 0x5f
}

/// The code of a name, or `None` for bytes that are no name.
pub fn encode_name(name: &[u8]) -> (r: Option<u64>)
    ensures
        r is Some <==> spec_is_name(name@),
        r matches Some(code) ==> code == spec_encode(name@),
{
    let n = name.len();
    if n == 0 || n > MAX_NAME_LENGTH || !is_letter(name[0]) {
        return None;
    }
    let mut code: u64 = 0;
    let mut i: usize = n;
    assert(name@.subrange(n as int, n as int) =~= Seq::<u8>::empty());
    while i > 0
        invariant
            i <= n,
            n == name@.len(),
            1 <= n <= MAX_NAME_LENGTH,
            spec_is_letter(name@[0]),
            code == spec_encode(name@.subrange(i as int, n as int)),
            forall|k: int| i <= k < n ==> spec_is_name_byte(#[trigger] name@[k]),
        decreases i,
    {
        i -= 1;
        if !is_name_byte(name[i]) {
            return None;
        }
        proof {
            let rest = name@.subrange(i as int, n as int);
            assert(rest.drop_first() =~= name@.subrange(i + 1, n as int));
            assert(rest[0] == name@[i as int]);
            lemma_encode_fits(rest);
        }
        code = code * 256 + name[i] as u64;
    }
    assert(name@.subrange(0, n as int) =~= name@);
    Some(code)
}

impl Identifier {
    /// The identifier that a name encodes to.
    pub fn from_name(name: &[u8]) -> (r: Option<Identifier>)
        ensures
            r is Some <==> spec_is_name(name@),
            r matches Some(id) ==> id.code == spec_encode(name@),
    {
        match encode_name(name) {
            Some(code) => Some(Identifier { code }),
            None => None,
        }
    }
}

impl ProgramId {
    /// The program identifier that a name encodes to.
    pub fn from_name(name: &[u8]) -> (r: Option<ProgramId>)
        ensures
            r is Some <==> spec_is_name(name@),
            r matches Some(id) ==> id.code == spec_encode(name@),
    {
        match encode_name(name) {
            Some(code) => Some(ProgramId { code }),
            None => None,
        }
    }
}

} // verus!
