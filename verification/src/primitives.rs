//! Slots, epochs, indices, roots, keys and signatures.

use vstd::prelude::*;

verus! {

pub type Slot = u64;

pub type Epoch = u64;

pub type ValidatorIndex = u64;

pub type CommitteeIndex = u64;

pub type Gwei = u64;

pub type Shard = u64;

/// A fork version: four bytes.
pub type Version = [u8; 4];

/// The number that tells the purposes of signatures apart.
pub type DomainType = u32;

/// A 32-byte root: the result of a hash, or a value that stands where one is expected.
#[derive(Clone, Copy, Debug)]
pub struct H256(pub [u8; 32]);

/// The 32-byte tag that separates the signatures of one purpose and fork from all others.
pub type Domain = H256;

/// A byte string of `n` zero bytes.
pub open spec fn zeros(n: nat) -> Seq<u8> {
    Seq::new(n, |i: int| 0u8)
}

impl View for H256 {
    type V = Seq<u8>;

    open spec fn view(&self) -> Seq<u8> {
        self.0@
    }
}

/// The root that holds the given 32 bytes.
pub open spec fn h256_from(s: Seq<u8>) -> H256 {
    choose|h: H256| h@ == s
}

/// A root is determined by its bytes.
pub proof fn lemma_h256_from(h: H256)
    ensures
        h256_from(h@) == h,
        h@.len() == 32,
{
    let g = h256_from(h@);
    assert(g@ == h@);
    assert(g.0 =~= h.0);
}

/// Two roots with the same bytes are the same root.
pub proof fn lemma_h256_ext(a: H256, b: H256)
    requires
        a@ == b@,
    ensures
        a == b,
{
    assert(a.0 =~= b.0);
}

impl H256 {
    /// The root whose 32 bytes are all zero.
    pub open spec fn spec_zero() -> H256 {
        h256_from(zeros(32))
    }

    /// The root whose 32 bytes are all zero.
    pub fn zero() -> (r: H256)
        ensures
            r == Self::spec_zero(),
            r@ == zeros(32),
    {
        let r = H256([0u8; 32]);
        assert(r@ =~= zeros(32));
        proof {
            lemma_h256_from(r);
        }
        r
    }

    /// Whether all 32 bytes are zero.
    pub fn is_zero(&self) -> (r: bool)
        ensures
            r == (*self == Self::spec_zero()),
    {
        let z = Self::zero();
        *self == z
    }

    /// The bytes of the root, in order.
    pub fn to_vec(&self) -> (r: Vec<u8>)
        ensures
            r@ == self@,
    {
        let mut r: Vec<u8> = Vec::new();
        let mut i: usize = 0;
        while i < 32
            invariant
                i <= 32,
                r@ == self@.take(i as int),
            decreases 32 - i,
        {
            r.push(self.0[i]);
            assert(self@.take(i as int + 1) =~= self@.take(i as int).push(self@[i as int]));
            i += 1;
        }
        assert(self@.take(32) =~= self@);
        r
    }

    /// The root made of the first 32 bytes of `bytes`.
    pub fn from_slice(bytes: &[u8]) -> (r: H256)
        requires
            bytes@.len() >= 32,
        ensures
            r@ == bytes@.take(32),
    {
        let mut a = [0u8; 32];
        let mut i: usize = 0;
        while i < 32
            invariant
                i <= 32,
                bytes@.len() >= 32,
                forall|j: int| 0 <= j < i ==> a@[j] == bytes@[j],
            decreases 32 - i,
        {
            a[i] = bytes[i];
            i += 1;
        }
        let r = H256(a);
        assert(r@ =~= bytes@.take(32));
        r
    }
}

impl PartialEq for H256 {
    fn eq(&self, other: &H256) -> (r: bool) {
        let mut i: usize = 0;
        while i < 32
            invariant
                i <= 32,
                forall|j: int| 0 <= j < i ==> self.0@[j] == other.0@[j],
            decreases 32 - i,
        {
            if self.0[i] != other.0[i] {
                return false;
            }
            i += 1;
        }
        assert(self.0 =~= other.0);
        true
    }
}

impl Eq for H256 {}

impl vstd::std_specs::cmp::PartialEqSpecImpl for H256 {
    open spec fn obeys_eq_spec() -> bool {
        true
    }

    open spec fn eq_spec(&self, other: &H256) -> bool {
        *self == *other
    }
}

impl From<[u8; 32]> for H256 {
    fn from(bytes: [u8; 32]) -> (r: H256) {
        H256(bytes)
    }
}

impl vstd::std_specs::convert::FromSpecImpl<[u8; 32]> for H256 {
    open spec fn obeys_from_spec() -> bool {
        true
    }

    open spec fn from_spec(bytes: [u8; 32]) -> H256 {
        H256(bytes)
    }
}

impl Default for H256 {
    fn default() -> (r: H256)
        ensures
            r == H256::spec_zero(),
    {
        H256::zero()
    }
}

/// A BLS public key in its 48-byte compressed form, not yet decoded.
#[derive(Clone, Copy, Debug)]
pub struct PublicKeyBytes(pub [u8; 48]);

impl View for PublicKeyBytes {
    type V = Seq<u8>;

    open spec fn view(&self) -> Seq<u8> {
        self.0@
    }
}

impl PublicKeyBytes {
    /// The compressed form of the neutral element, which is the sum of no keys at all:
    /// the byte 0xc0 followed by 47 zero bytes.
    pub open spec fn spec_neutral() -> Seq<u8> {
        seq![0xc0u8] + zeros(47)
    }

    /// The compressed form of the neutral element.
    pub fn neutral() -> (r: PublicKeyBytes)
        ensures
            r@ == Self::spec_neutral(),
    {
        let mut a = [0u8; 48];
        a[0] = 0xc0u8;
        let r = PublicKeyBytes(a);
        assert(r@ =~= Self::spec_neutral());
        r
    }
}

impl PartialEq for PublicKeyBytes {
    fn eq(&self, other: &PublicKeyBytes) -> (r: bool) {
        let mut i: usize = 0;
        while i < 48
            invariant
                i <= 48,
                forall|j: int| 0 <= j < i ==> self.0@[j] == other.0@[j],
            decreases 48 - i,
        {
            if self.0[i] != other.0[i] {
                return false;
            }
            i += 1;
        }
        assert(self.0 =~= other.0);
        true
    }
}

impl Eq for PublicKeyBytes {}

impl vstd::std_specs::cmp::PartialEqSpecImpl for PublicKeyBytes {
    open spec fn obeys_eq_spec() -> bool {
        true
    }

    open spec fn eq_spec(&self, other: &PublicKeyBytes) -> bool {
        *self == *other
    }
}

impl Default for PublicKeyBytes {
    fn default() -> (r: PublicKeyBytes)
        ensures
            r@ == zeros(48),
    {
        let r = PublicKeyBytes([0u8; 48]);
        assert(r@ =~= zeros(48));
        r
    }
}

/// A BLS signature in its 96-byte compressed form, not yet decoded.
#[derive(Clone, Copy, Debug)]
pub struct SignatureBytes(pub [u8; 96]);

impl View for SignatureBytes {
    type V = Seq<u8>;

    open spec fn view(&self) -> Seq<u8> {
        self.0@
    }
}

impl PartialEq for SignatureBytes {
    fn eq(&self, other: &SignatureBytes) -> (r: bool) {
        let mut i: usize = 0;
        while i < 96
            invariant
                i <= 96,
                forall|j: int| 0 <= j < i ==> self.0@[j] == other.0@[j],
            decreases 96 - i,
        {
            if self.0[i] != other.0[i] {
                return false;
            }
            i += 1;
        }
        assert(self.0 =~= other.0);
        true
    }
}

impl Eq for SignatureBytes {}

impl vstd::std_specs::cmp::PartialEqSpecImpl for SignatureBytes {
    open spec fn obeys_eq_spec() -> bool {
        true
    }

    open spec fn eq_spec(&self, other: &SignatureBytes) -> bool {
        *self == *other
    }
}

impl Default for SignatureBytes {
    fn default() -> (r: SignatureBytes)
        ensures
            r@ == zeros(96),
    {
        let r = SignatureBytes([0u8; 96]);
        assert(r@ =~= zeros(96));
        r
    }
}

/// The bytewise exclusive or of two roots.
pub open spec fn spec_xor(a: H256, b: H256) -> H256 {
    h256_from(Seq::new(32, |i: int| a@[i] ^ b@[i]))
}

/// The bytewise exclusive or of two roots.
pub fn xor(a: &H256, b: &H256) -> (r: H256)
    ensures
        r == spec_xor(*a, *b),
        forall|i: int| 0 <= i < 32 ==> r@[i] == a@[i] ^ b@[i],
{
    let mut out = [0u8; 32];
    let mut i: usize = 0;
    while i < 32
        invariant
            i <= 32,
            forall|j: int| 0 <= j < i ==> out@[j] == a@[j] ^ b@[j],
        decreases 32 - i,
    {
        out[i] = a.0[i] ^ b.0[i];
        i += 1;
    }
    let r = H256(out);
    proof {
        assert(r@ =~= Seq::new(32, |i: int| a@[i] ^ b@[i]));
        lemma_h256_from(r);
    }
    r
}

} // verus!
