//! The encoding of values as bytes, and its inverse.

use vstd::bytes::{
    lemma_auto_spec_u64_to_from_le_bytes, spec_u64_from_le_bytes, spec_u64_to_le_bytes,
    u64_from_le_bytes, u64_to_le_bytes,
};
use vstd::prelude::*;
use crate::config::Config;
use crate::merkle::append;
use crate::primitives::{H256, PublicKeyBytes, SignatureBytes, Version};

verus! {

/// A value of the consensus protocol has one encoding as bytes, and the bytes give the
/// value back.
pub trait Ssz: Sized {
    /// What is encoded: the mathematical value of what the type holds.
    type Value;

    /// The value that this holds.
    spec fn value(&self) -> Self::Value;

    /// The value is one that the profile admits: its lists are within their limits.
    spec fn fits(v: Self::Value, config: Config) -> bool;

    /// The encoding of a value.
    spec fn spec_encode(v: Self::Value) -> Seq<u8>;

    /// The value that bytes encode, if they encode one that the profile admits.
    spec fn spec_decode(bytes: Seq<u8>, config: Config) -> Option<Self::Value>;

    /// Decoding the encoding of a value gives the value.
    proof fn lemma_round_trip(v: Self::Value, config: Config)
        requires
            config.wf(),
            Self::fits(v, config),
        ensures
            Self::spec_decode(Self::spec_encode(v), config) == Some(v),
    ;

    /// Appends the encoding to `buf`.
    fn ssz_append(&self, buf: &mut Vec<u8>)
        ensures
            final(buf)@ == old(buf)@ + Self::spec_encode(self.value()),
    ;

    /// Decodes bytes.
    fn ssz_decode(bytes: &[u8], config: &Config) -> (r: Option<Self>)
        requires
            config.wf(),
        ensures
            match r {
                Some(x) => Self::spec_decode(bytes@, *config) == Some(x.value()),
                None => Self::spec_decode(bytes@, *config) is None,
            },
    ;
}

/// A value whose encoding has one length, whatever it holds.
pub trait FixedSsz: Ssz {
    /// The length of every encoding.
    spec fn spec_size() -> nat;

    /// Every encoding has that length, and only bytes of that length decode.
    proof fn lemma_size(v: Self::Value, bytes: Seq<u8>, config: Config)
        ensures
            Self::spec_encode(v).len() == Self::spec_size(),
            Self::spec_size() > 0,
            Self::spec_decode(bytes, config) is Some ==> bytes.len() == Self::spec_size(),
    ;

    fn size() -> (n: usize)
        ensures
            n == Self::spec_size(),
            0 < n <= 0x1_0000,
    ;
}

/// The encoding of a value of the protocol.
pub fn ssz_encode<T: Ssz>(x: &T) -> (bytes: Vec<u8>)
    ensures
        bytes@ == T::spec_encode(x.value()),
{
    let mut buf: Vec<u8> = Vec::new();
    x.ssz_append(&mut buf);
    assert(buf@ =~= T::spec_encode(x.value()));
    buf
}

/// Decodes a value of the protocol: the value that the bytes encode, if they encode one
/// that the profile admits.
pub fn ssz_decode<T: Ssz>(bytes: &[u8], config: &Config) -> (r: Option<T>)
    requires
        config.wf(),
    ensures
        match r {
            Some(x) => T::spec_decode(bytes@, *config) == Some(x.value()),
            None => T::spec_decode(bytes@, *config) is None,
        },
{
    T::ssz_decode(bytes, config)
}

impl Ssz for u64 {
    type Value = u64;

    open spec fn value(&self) -> u64 {
        *self
    }

    open spec fn fits(v: u64, config: Config) -> bool {
        true
    }

    open spec fn spec_encode(v: u64) -> Seq<u8> {
        spec_u64_to_le_bytes(v)
    }

    open spec fn spec_decode(bytes: Seq<u8>, config: Config) -> Option<u64> {
        if bytes.len() == 8 {
            Some(spec_u64_from_le_bytes(bytes))
        } else {
            None
        }
    }

    proof fn lemma_round_trip(v: u64, config: Config) {
        lemma_auto_spec_u64_to_from_le_bytes();
    }

    fn ssz_append(&self, buf: &mut Vec<u8>) {
        let b = u64_to_le_bytes(*self);
        append(buf, b.as_slice());
    }

    fn ssz_decode(bytes: &[u8], config: &Config) -> (r: Option<u64>) {
        if bytes.len() == 8 {
            Some(u64_from_le_bytes(bytes))
        } else {
            None
        }
    }
}

impl FixedSsz for u64 {
    open spec fn spec_size() -> nat {
        8
    }

    proof fn lemma_size(v: u64, bytes: Seq<u8>, config: Config) {
        lemma_auto_spec_u64_to_from_le_bytes();
    }

    fn size() -> (n: usize) {
        8
    }
}

impl Ssz for bool {
    type Value = bool;

    open spec fn value(&self) -> bool {
        *self
    }

    open spec fn fits(v: bool, config: Config) -> bool {
        true
    }

    open spec fn spec_encode(v: bool) -> Seq<u8> {
        seq![if v { 1u8 } else { 0u8 }]
    }

    open spec fn spec_decode(bytes: Seq<u8>, config: Config) -> Option<bool> {
        if bytes.len() == 1 && bytes[0] <= 1 {
            Some(bytes[0] == 1)
        } else {
            None
        }
    }

    proof fn lemma_round_trip(v: bool, config: Config) {
    }

    fn ssz_append(&self, buf: &mut Vec<u8>) {
        buf.push(if *self { 1u8 } else { 0u8 });
        assert(buf@ =~= old(buf)@ + Self::spec_encode(*self));
    }

    fn ssz_decode(bytes: &[u8], config: &Config) -> (r: Option<bool>) {
        if bytes.len() == 1 && bytes[0] <= 1 {
            Some(bytes[0] == 1)
        } else {
            None
        }
    }
}

impl FixedSsz for bool {
    open spec fn spec_size() -> nat {
        1
    }

    proof fn lemma_size(v: bool, bytes: Seq<u8>, config: Config) {
    }

    fn size() -> (n: usize) {
        1
    }
}

/// The four bytes that a sequence of four bytes is.
pub open spec fn version_from(s: Seq<u8>) -> Version {
    choose|v: Version| v@ == s
}

impl Ssz for Version {
    type Value = Version;

    open spec fn value(&self) -> Version {
        *self
    }

    open spec fn fits(v: Version, config: Config) -> bool {
        true
    }

    open spec fn spec_encode(v: Version) -> Seq<u8> {
        v@
    }

    open spec fn spec_decode(bytes: Seq<u8>, config: Config) -> Option<Version> {
        if bytes.len() == 4 {
            Some(version_from(bytes))
        } else {
            None
        }
    }

    proof fn lemma_round_trip(v: Version, config: Config) {
        let w = version_from(v@);
        assert(w@ == v@);
        assert(w =~= v);
    }

    fn ssz_append(&self, buf: &mut Vec<u8>) {
        append(buf, self.as_slice());
    }

    fn ssz_decode(bytes: &[u8], config: &Config) -> (r: Option<Version>) {
        if bytes.len() != 4 {
            return None;
        }
        let v = [bytes[0], bytes[1], bytes[2], bytes[3]];
        proof {
            assert(v@ =~= bytes@);
            let w = version_from(bytes@);
            assert(w@ == bytes@);
            assert(w =~= v);
        }
        Some(v)
    }
}

impl FixedSsz for Version {
    open spec fn spec_size() -> nat {
        4
    }

    proof fn lemma_size(v: Version, bytes: Seq<u8>, config: Config) {
    }

    fn size() -> (n: usize) {
        4
    }
}

impl Ssz for H256 {
    type Value = H256;

    open spec fn value(&self) -> H256 {
        *self
    }

    open spec fn fits(v: H256, config: Config) -> bool {
        true
    }

    open spec fn spec_encode(v: H256) -> Seq<u8> {
        v@
    }

    open spec fn spec_decode(bytes: Seq<u8>, config: Config) -> Option<H256> {
        if bytes.len() == 32 {
            Some(crate::primitives::h256_from(bytes))
        } else {
            None
        }
    }

    proof fn lemma_round_trip(v: H256, config: Config) {
        crate::primitives::lemma_h256_from(v);
    }

    fn ssz_append(&self, buf: &mut Vec<u8>) {
        append(buf, self.0.as_slice());
    }

    fn ssz_decode(bytes: &[u8], config: &Config) -> (r: Option<H256>) {
        if bytes.len() != 32 {
            return None;
        }
        let h = H256::from_slice(bytes);
        proof {
            assert(bytes@.take(32) =~= bytes@);
            crate::primitives::lemma_h256_from(h);
        }
        Some(h)
    }
}

impl FixedSsz for H256 {
    open spec fn spec_size() -> nat {
        32
    }

    proof fn lemma_size(v: H256, bytes: Seq<u8>, config: Config) {
    }

    fn size() -> (n: usize) {
        32
    }
}

/// The public key that 48 bytes are.
pub open spec fn pubkey_from(s: Seq<u8>) -> PublicKeyBytes {
    choose|k: PublicKeyBytes| k@ == s
}

impl Ssz for PublicKeyBytes {
    type Value = PublicKeyBytes;

    open spec fn value(&self) -> PublicKeyBytes {
        *self
    }

    open spec fn fits(v: PublicKeyBytes, config: Config) -> bool {
        true
    }

    open spec fn spec_encode(v: PublicKeyBytes) -> Seq<u8> {
        v@
    }

    open spec fn spec_decode(bytes: Seq<u8>, config: Config) -> Option<PublicKeyBytes> {
        if bytes.len() == 48 {
            Some(pubkey_from(bytes))
        } else {
            None
        }
    }

    proof fn lemma_round_trip(v: PublicKeyBytes, config: Config) {
        let w = pubkey_from(v@);
        assert(w@ == v@);
        assert(w.0 =~= v.0);
    }

    fn ssz_append(&self, buf: &mut Vec<u8>) {
        append(buf, self.0.as_slice());
    }

    fn ssz_decode(bytes: &[u8], config: &Config) -> (r: Option<PublicKeyBytes>) {
        if bytes.len() != 48 {
            return None;
        }
        let mut a = [0u8; 48];
        let mut i: usize = 0;
        while i < 48
            invariant
                i <= 48,
                bytes@.len() == 48,
                forall|j: int| 0 <= j < i ==> a@[j] == bytes@[j],
            decreases 48 - i,
        {
            a[i] = bytes[i];
            i += 1;
        }
        let k = PublicKeyBytes(a);
        proof {
            assert(k@ =~= bytes@);
            let w = pubkey_from(bytes@);
            assert(w@ == bytes@);
            assert(w.0 =~= k.0);
        }
        Some(k)
    }
}

impl FixedSsz for PublicKeyBytes {
    open spec fn spec_size() -> nat {
        48
    }

    proof fn lemma_size(v: PublicKeyBytes, bytes: Seq<u8>, config: Config) {
    }

    fn size() -> (n: usize) {
        48
    }
}

/// The signature that 96 bytes are.
pub open spec fn signature_from(s: Seq<u8>) -> SignatureBytes {
    choose|k: SignatureBytes| k@ == s
}

impl Ssz for SignatureBytes {
    type Value = SignatureBytes;

    open spec fn value(&self) -> SignatureBytes {
        *self
    }

    open spec fn fits(v: SignatureBytes, config: Config) -> bool {
        true
    }

    open spec fn spec_encode(v: SignatureBytes) -> Seq<u8> {
        v@
    }

    open spec fn spec_decode(bytes: Seq<u8>, config: Config) -> Option<SignatureBytes> {
        if bytes.len() == 96 {
            Some(signature_from(bytes))
        } else {
            None
        }
    }

    proof fn lemma_round_trip(v: SignatureBytes, config: Config) {
        let w = signature_from(v@);
        assert(w@ == v@);
        assert(w.0 =~= v.0);
    }

    fn ssz_append(&self, buf: &mut Vec<u8>) {
        append(buf, self.0.as_slice());
    }

    fn ssz_decode(bytes: &[u8], config: &Config) -> (r: Option<SignatureBytes>) {
        if bytes.len() != 96 {
            return None;
        }
        let mut a = [0u8; 96];
        let mut i: usize = 0;
        while i < 96
            invariant
                i <= 96,
                bytes@.len() == 96,
                forall|j: int| 0 <= j < i ==> a@[j] == bytes@[j],
            decreases 96 - i,
        {
            a[i] = bytes[i];
            i += 1;
        }
        let k = SignatureBytes(a);
        proof {
            assert(k@ =~= bytes@);
            let w = signature_from(bytes@);
            assert(w@ == bytes@);
            assert(w.0 =~= k.0);
        }
        Some(k)
    }
}

impl FixedSsz for SignatureBytes {
    open spec fn spec_size() -> nat {
        96
    }

    proof fn lemma_size(v: SignatureBytes, bytes: Seq<u8>, config: Config) {
    }

    fn size() -> (n: usize) {
        96
    }
}

} // verus!
