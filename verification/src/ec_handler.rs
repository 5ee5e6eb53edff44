//! Group arithmetic on the fixed curve, key derivation and symmetric
//! encryption.
//!
//! All arithmetic happens in the cyclic group of secp256k1, whose order is
//! `group_order()`. Every group element is `d·G` for exactly one scalar
//! `d < group_order()` (its discrete logarithm), so the mathematical model of
//! a point is that scalar: `point_dlog` reads it off the point's canonical
//! compressed encoding, and `enc_of` maps it back. The trusted wrappers
//! around the backend state each group operation in terms of these two
//! functions; everything above them is verified against that model.

use vstd::prelude::*;

use crate::errors::OtError;

verus! {

/// The order of the secp256k1 group: the number of elements, a prime.
pub open spec fn group_order() -> nat {
    0xFFFFFFFFFFFFFFFFFFFFFFFFFFFFFFFEBAAEDCE6AF48A03BBFD25E8CD0364141nat
}

/// Reduction of a scalar into the canonical range `[0, group_order())`.
pub open spec fn modn(x: int) -> nat {
    (x % (group_order() as int)) as nat
}

/// The discrete logarithm of the group element whose canonical compressed
/// encoding is `b`: the unique `d < group_order()` with `d·G` encoded as `b`.
/// A mathematical function of the bytes alone, for the one fixed curve.
pub uninterp spec fn point_dlog(b: Seq<u8>) -> nat;

/// The canonical compressed encoding of the group element `d·G`.
/// Inverse of `point_dlog` on canonical encodings.
pub uninterp spec fn enc_of(d: nat) -> Seq<u8>;

/// The 16 bytes that HKDF-SHA256 expands from input key material `ikm`
/// under the given salt and info label. Deterministic in its arguments.
pub uninterp spec fn hkdf16_of(salt: Seq<u8>, info: Seq<u8>, ikm: Seq<u8>) -> Seq<u8>;

/// The AES-128-CBC encryption (PKCS padding) of `data` under `key` with
/// initialization vector `iv`. Deterministic in its arguments.
pub uninterp spec fn cbc_enc_of(key: Seq<u8>, iv: Seq<u8>, data: Seq<u8>) -> Seq<u8>;

/// Length of the AES-128-CBC output for a plaintext of `n` bytes: the
/// plaintext is always padded to the next full 16-byte block.
pub open spec fn cbc_len(n: nat) -> nat {
    16 * (n / 16 + 1)
}

/// The fixed application salt, as a byte sequence.
pub open spec fn salt_bytes() -> Seq<u8> {
    seq![0x19u8, 0xb4, 0x31, 0x44, 0xe9, 0x77, 0xbd, 0x68, 0x23, 0xa4, 0x02, 0x87, 0xd4, 0x40, 0x68, 0x19]
}

/// The fixed application info label `"EC ELGAMAL 1-N OT"`, as bytes.
pub open spec fn info_bytes() -> Seq<u8> {
    seq![0x45u8, 0x43, 0x20, 0x45, 0x4c, 0x47, 0x41, 0x4d, 0x41, 0x4c, 0x20, 0x31, 0x2d, 0x4e, 0x20, 0x4f, 0x54]
}

/// The symmetric key derived from the encodings of two group elements:
/// HKDF over their concatenation, under the fixed salt and info label.
pub open spec fn derived_key(v: Seq<u8>, w: Seq<u8>) -> Seq<u8> {
    hkdf16_of(salt_bytes(), info_bytes(), v + w)
}

/// What `dec_data` promises about its result `r` for a key and a blob:
/// a blob too short to hold an IV is rejected; a blob whose tail is a
/// CBC encryption of some message under the blob's own IV yields exactly
/// that message; a success is only ever the message whose encryption the
/// blob is; any failure is reported as `DecryptionError`.
pub open spec fn decrypts_to(key: Seq<u8>, blob: Seq<u8>, r: Result<Vec<u8>, OtError>) -> bool {
    &&& blob.len() < 16 ==> r == Result::<Vec<u8>, OtError>::Err(OtError::DecryptionError)
    &&& blob.len() >= 16 ==> (forall|m: Seq<u8>|
            blob.subrange(16, blob.len() as int) == cbc_enc_of(key, blob.subrange(0, 16), m)
                ==> (r matches Ok(p) && p@ == m))
    &&& r matches Ok(p) ==> blob.len() >= 16 && blob.subrange(16, blob.len() as int)
        == cbc_enc_of(key, blob.subrange(0, 16), p@)
    &&& r matches Err(e) ==> e == OtError::DecryptionError
}

/// What a ciphertext produced by `enc_data` looks like: a 16-byte IV
/// followed by the CBC encryption of `msg` under `key` and that IV.
pub open spec fn encryption_of(key: Seq<u8>, msg: Seq<u8>, ct: Seq<u8>) -> bool {
    &&& ct.len() == 16 + cbc_len(msg.len())
    &&& ct.subrange(16, ct.len() as int) == cbc_enc_of(key, ct.subrange(0, 16), msg)
}

#[verifier::external_type_specification]
#[verifier::external_body]
pub struct ExEcGroup(openssl::ec::EcGroup);

#[verifier::external_type_specification]
#[verifier::external_body]
#[verifier::reject_recursive_types(T)]
pub struct ExEcKey<T>(openssl::ec::EcKey<T>);

#[verifier::external_type_specification]
#[verifier::external_body]
pub struct ExPrivate(openssl::pkey::Private);

/// A group element, held as its canonical compressed encoding.
pub struct Point {
    bytes: Vec<u8>,
}

impl View for Point {
    type V = Seq<u8>;

    closed spec fn view(&self) -> Seq<u8> {
        self.bytes@
    }
}

impl Point {
    /// The discrete logarithm of this element.
    pub open spec fn dlog(&self) -> nat {
        point_dlog(self@)
    }

    /// The element's bytes are the canonical encoding of its own discrete
    /// logarithm; every point handed out by this module satisfies this.
    pub open spec fn wf(&self) -> bool {
        &&& self@ == enc_of(self.dlog())
        &&& self.dlog() < group_order()
    }

    /// A copy of the same group element.
    pub fn duplicate(&self) -> (r: Point)
        ensures
            r@ == self@,
    {
        Point { bytes: clone_bytes(&self.bytes) }
    }
}

/// A key pair on the curve: a secret scalar `d` and the canonical encoding
/// of its public element `d·G`. Only `gen_key` constructs one, so the two
/// fields always belong together.
pub struct KeyPair {
    key: openssl::ec::EcKey<openssl::pkey::Private>,
    pub_bytes: Vec<u8>,
}

impl View for KeyPair {
    type V = Seq<u8>;

    closed spec fn view(&self) -> Seq<u8> {
        self.pub_bytes@
    }
}

impl KeyPair {
    /// The secret scalar, read off the public element it determines.
    pub open spec fn dlog(&self) -> nat {
        point_dlog(self@)
    }

    pub open spec fn wf(&self) -> bool {
        &&& self@ == enc_of(self.dlog())
        &&& self.dlog() < group_order()
    }

    /// The public element of the pair, as a point.
    pub fn public_point(&self) -> (r: Point)
        ensures
            r@ == self@,
    {
        Point { bytes: clone_bytes(&self.pub_bytes) }
    }

    /// The public element of the pair, as its encoding.
    pub fn public_bytes(&self) -> (r: Vec<u8>)
        ensures
            r@ == self@,
    {
        clone_bytes(&self.pub_bytes)
    }
}

/// A byte-for-byte copy of a byte vector.
fn clone_bytes(v: &Vec<u8>) -> (r: Vec<u8>)
    ensures
        r@ == v@,
{
    let mut r: Vec<u8> = Vec::new();
    let mut i: usize = 0;
    while i < v.len()
        invariant
            i <= v@.len(),
            r@ == v@.subrange(0, i as int),
        decreases v@.len() - i,
    {
        r.push(v[i]);
        i = i + 1;
        proof {
            assert(r@ =~= v@.subrange(0, i as int));
        }
    }
    proof {
        assert(r@ =~= v@);
    }
    r
}

/// Appends every byte of `src` to `dst`.
fn append_bytes(dst: &mut Vec<u8>, src: &[u8])
    ensures
        final(dst)@ == old(dst)@ + src@,
{
    let mut i: usize = 0;
    while i < src.len()
        invariant
            i <= src@.len(),
            dst@ == old(dst)@ + src@.subrange(0, i as int),
        decreases src@.len() - i,
    {
        let b = src[i];
        dst.push(b);
        i = i + 1;
        proof {
            assert(dst@ =~= old(dst)@ + src@.subrange(0, i as int));
        }
    }
    proof {
        assert(dst@ =~= old(dst)@ + src@);
    }
}

/// The engine for all group arithmetic: holds the one fixed curve group.
pub struct EcHandler {
    ecgroup: openssl::ec::EcGroup,
}

impl EcHandler {
    /// Relies on openssl's `EcGroup::from_curve_name`: builds the secp256k1
    /// group, the fixed curve all operations below work in.
    #[verifier::external_body]
    pub fn new() -> (r: EcHandler)
    {
        EcHandler {
            ecgroup: openssl::ec::EcGroup::from_curve_name(openssl::nid::Nid::SECP256K1).unwrap(),
        }
    }

    /// Relies on openssl's `EcKey::generate`: draws a fresh secret scalar
    /// `d` in `[1, group_order())` and returns it with the canonical
    /// compressed encoding (33 bytes for secp256k1) of its public element
    /// `d·G`. Reports any backend failure as `RandomnessUnavailable`.
    #[verifier::external_body]
    pub fn gen_key(&self) -> (r: Result<KeyPair, OtError>)
        ensures
            r matches Ok(k) ==> k@ == enc_of(point_dlog(k@)) && 0 < point_dlog(k@)
                < group_order() && k@.len() == 33,
            r matches Err(e) ==> e == OtError::RandomnessUnavailable,
    {
        let key = match openssl::ec::EcKey::generate(&self.ecgroup) {
            Ok(k) => k,
            Err(_) => return Err(OtError::RandomnessUnavailable),
        };
        let mut ctx = match openssl::bn::BigNumContext::new() {
            Ok(c) => c,
            Err(_) => return Err(OtError::RandomnessUnavailable),
        };
        let form = openssl::ec::PointConversionForm::COMPRESSED;
        let pub_bytes = match key.public_key().to_bytes(&self.ecgroup, form, &mut ctx) {
            Ok(b) => b,
            Err(_) => return Err(OtError::RandomnessUnavailable),
        };
        Ok(KeyPair { key, pub_bytes })
    }

    /// Relies on openssl's `EcPoint::from_bytes` and `to_bytes`: decodes a
    /// group element, rejecting malformed or off-curve input, and re-encodes
    /// it canonically. A canonical encoding decodes to exactly itself.
    #[verifier::external_body]
    pub fn bytes_to_pubkey(&self, buf: &[u8]) -> (r: Result<Point, OtError>)
        ensures
            r matches Ok(p) ==> p@ == enc_of(point_dlog(p@)) && point_dlog(p@) < group_order(),
            r matches Ok(p) ==> (point_dlog(p@) != 0 ==> p@.len() == 33),
            r matches Ok(p) ==> (buf@ == enc_of(point_dlog(buf@)) ==> p@ == buf@),
            r matches Err(e) ==> e == OtError::InvalidEncoding
                && !(buf@ == enc_of(point_dlog(buf@)) && point_dlog(buf@) < group_order()),
    {
        let mut ctx = match openssl::bn::BigNumContext::new() {
            Ok(c) => c,
            Err(_) => return Err(OtError::InvalidEncoding),
        };
        let point = match openssl::ec::EcPoint::from_bytes(&self.ecgroup, buf, &mut ctx) {
            Ok(p) => p,
            Err(_) => return Err(OtError::InvalidEncoding),
        };
        let form = openssl::ec::PointConversionForm::COMPRESSED;
        match point.to_bytes(&self.ecgroup, form, &mut ctx) {
            Ok(bytes) => Ok(Point { bytes }),
            Err(_) => Err(OtError::InvalidEncoding),
        }
    }

    /// The canonical encoding of a group element; inverse of
    /// `bytes_to_pubkey` on well-formed points.
    pub fn pubkey_to_bytes(&self, p: &Point) -> (r: Vec<u8>)
        ensures
            r@ == p@,
    {
        clone_bytes(&p.bytes)
    }

    /// Relies on openssl's `EC_POINT_mul` (via `EcPointRef::mul2`): computes
    /// `m·Q`, whose discrete logarithm is `m` times that of `Q`, reduced into
    /// the group's scalar range; the result is re-encoded canonically (33
    /// compressed bytes unless it is the identity, as for every operation
    /// below).
    #[verifier::external_body]
    pub fn ec_mul(&self, q: &Point, m: u32) -> (r: Point)
        requires
            q.wf(),
        ensures
            point_dlog(r@) == modn((m as int) * (point_dlog(q@) as int)),
            r@ == enc_of(point_dlog(r@)),
            point_dlog(r@) != 0 ==> r@.len() == 33,
    {
        let mut ctx = openssl::bn::BigNumContext::new().unwrap();
        let scalar = openssl::bn::BigNum::from_u32(m).unwrap();
        let qp = openssl::ec::EcPoint::from_bytes(&self.ecgroup, q.bytes.as_slice(), &mut ctx).unwrap();
        let mut tmp = openssl::ec::EcPoint::new(&self.ecgroup).unwrap();
        tmp.mul2(&self.ecgroup, &qp, &scalar, &mut ctx).unwrap();
        let form = openssl::ec::PointConversionForm::COMPRESSED;
        let bytes = tmp.to_bytes(&self.ecgroup, form, &mut ctx).unwrap();
        Point { bytes }
    }

    /// Relies on openssl's `EC_POINT_mul` (via `EcPointRef::mul2`) with the
    /// pair's secret scalar `d`: computes `d·Q`. Because `gen_key` made the
    /// pair, `d` is exactly the discrete logarithm of the pair's public
    /// element, so the result's discrete logarithm is `d` times that of `Q`.
    #[verifier::external_body]
    pub fn ec_mul_key(&self, q: &Point, k: &KeyPair) -> (r: Point)
        requires
            q.wf(),
            k.wf(),
        ensures
            point_dlog(r@) == modn((point_dlog(k@) as int) * (point_dlog(q@) as int)),
            r@ == enc_of(point_dlog(r@)),
            point_dlog(r@) != 0 ==> r@.len() == 33,
    {
        let mut ctx = openssl::bn::BigNumContext::new().unwrap();
        let qp = openssl::ec::EcPoint::from_bytes(&self.ecgroup, q.bytes.as_slice(), &mut ctx).unwrap();
        let mut tmp = openssl::ec::EcPoint::new(&self.ecgroup).unwrap();
        tmp.mul2(&self.ecgroup, &qp, k.key.private_key(), &mut ctx).unwrap();
        let form = openssl::ec::PointConversionForm::COMPRESSED;
        let bytes = tmp.to_bytes(&self.ecgroup, form, &mut ctx).unwrap();
        Point { bytes }
    }

    /// Relies on openssl's `EC_POINT_add`: group addition, which adds the
    /// discrete logarithms modulo the group order.
    #[verifier::external_body]
    pub fn ec_add(&self, p: &Point, q: &Point) -> (r: Point)
        requires
            p.wf(),
            q.wf(),
        ensures
            point_dlog(r@) == modn((point_dlog(p@) as int) + (point_dlog(q@) as int)),
            r@ == enc_of(point_dlog(r@)),
            point_dlog(r@) != 0 ==> r@.len() == 33,
    {
        let mut ctx = openssl::bn::BigNumContext::new().unwrap();
        let pp = openssl::ec::EcPoint::from_bytes(&self.ecgroup, p.bytes.as_slice(), &mut ctx).unwrap();
        let qp = openssl::ec::EcPoint::from_bytes(&self.ecgroup, q.bytes.as_slice(), &mut ctx).unwrap();
        let mut tmp = openssl::ec::EcPoint::new(&self.ecgroup).unwrap();
        tmp.add(&self.ecgroup, &pp, &qp, &mut ctx).unwrap();
        let form = openssl::ec::PointConversionForm::COMPRESSED;
        let bytes = tmp.to_bytes(&self.ecgroup, form, &mut ctx).unwrap();
        Point { bytes }
    }

    /// Relies on openssl's `EC_POINT_invert` (via `EcPointRef::invert2`):
    /// returns the additive inverse `−P`, whose discrete logarithm is the
    /// group order minus that of `P` (the identity inverts to itself).
    #[verifier::external_body]
    pub fn ec_invert(&self, p: &Point) -> (r: Point)
        requires
            p.wf(),
        ensures
            point_dlog(r@) == modn(group_order() - point_dlog(p@)),
            r@ == enc_of(point_dlog(r@)),
            point_dlog(r@) != 0 ==> r@.len() == 33,
    {
        let mut ctx = openssl::bn::BigNumContext::new().unwrap();
        let mut pp = openssl::ec::EcPoint::from_bytes(&self.ecgroup, p.bytes.as_slice(), &mut ctx).unwrap();
        pp.invert2(&self.ecgroup, &mut ctx).unwrap();
        let form = openssl::ec::PointConversionForm::COMPRESSED;
        let bytes = pp.to_bytes(&self.ecgroup, form, &mut ctx).unwrap();
        Point { bytes }
    }

    /// The fixed application info label, `"EC ELGAMAL 1-N OT"` as bytes.
    #[allow(non_snake_case)]
    pub fn APP_INFO() -> (r: Vec<u8>)
        ensures
            r@ == info_bytes(),
    {
        let mut v: Vec<u8> = Vec::new();
        v.push(0x45); v.push(0x43); v.push(0x20); v.push(0x45); v.push(0x4c);
        v.push(0x47); v.push(0x41); v.push(0x4d); v.push(0x41); v.push(0x4c);
        v.push(0x20); v.push(0x31); v.push(0x2d); v.push(0x4e); v.push(0x20);
        v.push(0x4f); v.push(0x54);
        proof {
            assert(v@ =~= info_bytes());
        }
        v
    }

    /// The fixed application salt: a public protocol parameter, not a secret.
    #[allow(non_snake_case)]
    pub fn APP_SALT() -> (r: Vec<u8>)
        ensures
            r@ == salt_bytes(),
    {
        let mut v: Vec<u8> = Vec::new();
        v.push(0x19); v.push(0xb4); v.push(0x31); v.push(0x44); v.push(0xe9);
        v.push(0x77); v.push(0xbd); v.push(0x68); v.push(0x23); v.push(0xa4);
        v.push(0x02); v.push(0x87); v.push(0xd4); v.push(0x40); v.push(0x68);
        v.push(0x19);
        proof {
            assert(v@ =~= salt_bytes());
        }
        v
    }

    /// Derives the 16-byte symmetric key for the two point encodings `v` and
    /// `w`: HKDF over their concatenation with the fixed salt and info label.
    pub fn derive_key(v: &Vec<u8>, w: &Vec<u8>) -> (r: Vec<u8>)
        ensures
            r@ == derived_key(v@, w@),
            r@.len() == 16,
    {
        let mut ikm = clone_bytes(v);
        append_bytes(&mut ikm, w.as_slice());
        let salt = Self::APP_SALT();
        let info = Self::APP_INFO();
        hkdf_expand16(salt.as_slice(), info.as_slice(), ikm.as_slice())
    }

    /// Encrypts `data` under the 16-byte key: draws a fresh random IV and
    /// returns the IV followed by the AES-128-CBC output. Fails only when
    /// the random source does.
    pub fn enc_data(&self, key: &[u8], data: &[u8]) -> (r: Result<Vec<u8>, OtError>)
        requires
            key@.len() == 16,
        ensures
            r matches Ok(c) ==> encryption_of(key@, data@, c@),
            r matches Err(e) ==> e == OtError::RandomnessUnavailable,
    {
        let iv = match gen_iv() {
            Ok(v) => v,
            Err(e) => return Err(e),
        };
        let body = aes128_cbc_encrypt(key, iv.as_slice(), data);
        let mut out = clone_bytes(&iv);
        append_bytes(&mut out, body.as_slice());
        proof {
            assert(out@.subrange(0, 16) =~= iv@);
            assert(out@.subrange(16, out@.len() as int) =~= body@);
        }
        Ok(out)
    }

    /// Decrypts a blob of the form IV‖ciphertext under the 16-byte key.
    /// A blob shorter than one IV, or one whose padding the cipher rejects,
    /// is reported as `DecryptionError`.
    pub fn dec_data(&self, key: &[u8], ciphertext: &[u8]) -> (r: Result<Vec<u8>, OtError>)
        requires
            key@.len() == 16,
        ensures
            decrypts_to(key@, ciphertext@, r),
    {
        if ciphertext.len() < 16 {
            return Err(OtError::DecryptionError);
        }
        let iv = vstd::slice::slice_subrange(ciphertext, 0, 16);
        let body = vstd::slice::slice_subrange(ciphertext, 16, ciphertext.len());
        aes128_cbc_decrypt(key, iv, body)
    }
}

/// Relies on hkdf's `Hkdf::<Sha256>::new` and `expand`: HKDF-SHA256, a
/// deterministic function of salt, info and input key material. Expanding
/// into 16 bytes is always within HKDF's output bound, so it cannot fail.
#[verifier::external_body]
fn hkdf_expand16(salt: &[u8], info: &[u8], ikm: &[u8]) -> (r: Vec<u8>)
    ensures
        r@ == hkdf16_of(salt@, info@, ikm@),
        r@.len() == 16,
{
    let h = hkdf::Hkdf::<sha2::Sha256>::new(Some(salt), ikm);
    let mut okm = [0u8; 16];
    h.expand(info, &mut okm).unwrap();
    okm.to_vec()
}

/// Relies on openssl's `rand_bytes`: fills 16 bytes from the system CSPRNG.
/// Nothing is promised of the bytes themselves; a failing random source is
/// reported as `RandomnessUnavailable`.
#[verifier::external_body]
fn gen_iv() -> (r: Result<Vec<u8>, OtError>)
    ensures
        r matches Ok(v) ==> v@.len() == 16,
        r matches Err(e) ==> e == OtError::RandomnessUnavailable,
{
    let mut iv = [0u8; 16];
    match openssl::rand::rand_bytes(&mut iv) {
        Ok(()) => Ok(iv.to_vec()),
        Err(_) => Err(OtError::RandomnessUnavailable),
    }
}

/// Relies on openssl's `symm::encrypt` with `Cipher::aes_128_cbc`: CBC
/// encryption with PKCS padding, a deterministic function of key, IV and
/// data, whose output is the plaintext padded to the next full block.
#[verifier::external_body]
fn aes128_cbc_encrypt(key: &[u8], iv: &[u8], data: &[u8]) -> (r: Vec<u8>)
    requires
        key@.len() == 16,
        iv@.len() == 16,
    ensures
        r@ == cbc_enc_of(key@, iv@, data@),
        r@.len() == cbc_len(data@.len()),
{
    let cipher = openssl::symm::Cipher::aes_128_cbc();
    openssl::symm::encrypt(cipher, key, Some(iv), data).unwrap()
}

/// Relies on openssl's `symm::decrypt` with `Cipher::aes_128_cbc`: inverts
/// `symm::encrypt` under the same key and IV, so any input that is the CBC
/// encryption of some message yields exactly that message, and a success
/// is only ever reported for an input that is such an encryption (the
/// padding check passes exactly when re-encrypting the result reproduces
/// the input); an input the cipher rejects is reported as
/// `DecryptionError`.
#[verifier::external_body]
fn aes128_cbc_decrypt(key: &[u8], iv: &[u8], ct: &[u8]) -> (r: Result<Vec<u8>, OtError>)
    requires
        key@.len() == 16,
        iv@.len() == 16,
    ensures
        r matches Ok(p) ==> (forall|m: Seq<u8>| ct@ == cbc_enc_of(key@, iv@, m) ==> p@ == m),
        r matches Ok(p) ==> ct@ == cbc_enc_of(key@, iv@, p@),
        r matches Err(e) ==> e == OtError::DecryptionError
            && !(exists|m: Seq<u8>| ct@ == cbc_enc_of(key@, iv@, m)),
{
    let cipher = openssl::symm::Cipher::aes_128_cbc();
    match openssl::symm::decrypt(cipher, key, Some(iv), ct) {
        Ok(p) => Ok(p),
        Err(_) => Err(OtError::DecryptionError),
    }
}

} // verus!
