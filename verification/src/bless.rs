//! Content-addressed identity of a native binary.
//!
//! The identity hash covers the extension's title, the absolute path
//! of its binary and the binary's full contents, so any change to
//! name, location or bytes revokes implicit trust.  It is recomputed
//! fresh on every run and never cached across runs.

use vstd::prelude::*;
use vstd::string::*;
use vstd::utf8::encode_utf8;
use base64ct::Encoding;
use sha3::Digest;
use crate::context::{ContextModel, ScriptContext};
use crate::ludorc::{Native, NativeModel};

verus! {

/// The 256-bit digest of `data`, as sha3 computes it.
pub uninterp spec fn spec_sha3_256(data: Seq<u8>) -> Seq<u8>;

/// The padded standard-alphabet rendering of `data`, as base64ct
/// computes it.
pub uninterp spec fn spec_base64(data: Seq<u8>) -> Seq<char>;

/// The identity hash of a (title, path, contents) triple: the digest
/// of the three byte renderings concatenated, rendered as text.
pub open spec fn spec_bless_hash(title: Seq<char>, path: Seq<char>, bytes: Seq<u8>) -> Seq<char> {
    spec_base64(spec_sha3_256(encode_utf8(title) + encode_utf8(path) + bytes))
}

/// Relies on sha3::Sha3_256 through the Digest trait: the one-shot
/// digest of the given bytes, 256 bits long.
#[verifier::external_body]
fn sha3_256(data: &[u8]) -> (r: Vec<u8>)
    ensures
        r@ == spec_sha3_256(data@),
        r@.len() == 32,
{
    sha3::Sha3_256::digest(data).as_slice().to_vec()
}

/// Relies on base64ct::Base64::encode_string: the padded
/// standard-alphabet encoding, four characters for every three bytes.
/// The size bound keeps the encoded length representable, which the
/// encoder otherwise treats as fatal.
#[verifier::external_body]
fn base64_encode(data: &Vec<u8>) -> (r: String)
    requires
        data@.len() <= 0x1000_0000,
    ensures
        r@ == spec_base64(data@),
        r@.len() == 4 * ((data@.len() + 2) / 3),
{
    base64ct::Base64::encode_string(data.as_slice())
}

/// {title, absolute binary path, content hash} of one native binary.
#[derive(Debug)]
pub struct BlessInfo {
    pub title: String,
    pub path: String,
    pub hash: String,
}

/// Ghost mirror of `BlessInfo`.
pub ghost struct BlessModel {
    pub title: Seq<char>,
    pub path: Seq<char>,
    pub hash: Seq<char>,
}

impl BlessInfo {
    pub open spec fn model(self) -> BlessModel {
        BlessModel { title: self.title@, path: self.path@, hash: self.hash@ }
    }

    /// Compute the identity of a native binary from its title, the
    /// absolute path of its binary and the binary's contents.
    pub fn new(title: String, path: String, bytes: &[u8]) -> (r: Self)
        ensures
            r.title@ == title@,
            r.path@ == path@,
            r.hash@ == spec_bless_hash(title@, path@, bytes@),
    {
        let mut buf = title.as_str().as_bytes_vec();
        let mut path_bytes = path.as_str().as_bytes_vec();
        buf.append(&mut path_bytes);
        let mut content = vstd::slice::slice_to_vec(bytes);
        buf.append(&mut content);
        proof {
            assert(buf@ =~= encode_utf8(title@) + encode_utf8(path@) + bytes@);
        }
        let digest = sha3_256(buf.as_slice());
        let hash = base64_encode(&digest);
        BlessInfo { title, path, hash }
    }

    /// A copy recording the same triple and the same hash.
    pub fn duplicate(&self) -> (r: Self)
        ensures
            r.model() == self.model(),
    {
        BlessInfo {
            title: self.title.clone(),
            path: self.path.clone(),
            hash: self.hash.clone(),
        }
    }

    /// Hashing is a function of the triple alone: identical triples
    /// always produce the identical hash string.
    pub proof fn lemma_hash_deterministic(
        t1: Seq<char>,
        p1: Seq<char>,
        b1: Seq<u8>,
        t2: Seq<char>,
        p2: Seq<char>,
        b2: Seq<u8>,
    )
        requires
            t1 == t2,
            p1 == p2,
            b1 == b2,
        ensures
            spec_bless_hash(t1, p1, b1) == spec_bless_hash(t2, p2, b2),
    {
    }
}

/// One native extension found reachable from the entry script: the
/// context it was declared under, the declaration, and the identity
/// computed for its binary.
#[derive(Debug)]
pub struct TransitiveNative {
    pub context: ScriptContext,
    pub native: Native,
    pub bless: BlessInfo,
}

/// Ghost mirror of `TransitiveNative`.
pub ghost struct TnModel {
    pub context: ContextModel,
    pub native: NativeModel,
    pub bless: BlessModel,
}

impl TransitiveNative {
    pub open spec fn model(self) -> TnModel {
        TnModel {
            context: self.context.model(),
            native: self.native.model(),
            bless: self.bless.model(),
        }
    }

    /// Whether the computed hash is an exact member of the approved
    /// set of the store this native was collected under.
    pub open spec fn spec_is_blessed(self) -> bool {
        self.context.user_rc.spec_is_blessed(self.bless.hash@)
    }

    /// A native is trusted exactly when its hash is approved.
    pub fn is_blessed(&self) -> (r: bool)
        ensures
            r == self.spec_is_blessed(),
    {
        self.context.user_rc.is_blessed(&self.bless)
    }

    /// A transitive native is trusted exactly when its hash is an
    /// exact member of the approved set of the store it was collected
    /// under — nothing else enters the decision.
    pub proof fn lemma_trusted_iff_member(self)
        ensures
            self.spec_is_blessed() <==> self.context.user_rc.model().blessed.contains(
                self.bless.hash@,
            ),
    {
    }
}

} // verus!
