//! The secp256k1 objects of the oracle, held as their byte encodings, and the
//! operations on them that `schnorr_fun`, `ecdsa_fun` and `secp256kfun` perform.
//!
//! Keys, nonces, scalars, points and signatures are bytes here.  Each group operation
//! (scalar addition, multiplication of `G`, point addition) is a trusted call whose
//! result is named by a spec function of the bytes it is given; the group law that
//! links them is stated where the crate documents it.  The olivia-v1 scheme is built on
//! them in verified code: attestation scalars, anticipated attestation points and the
//! check of one against the other.
use vstd::prelude::*;
use schnorr_fun::fun::marker::{Mark, NonZero, Normal, Public, Secret, Zero};
use schnorr_fun::fun::nonce::Deterministic;
use schnorr_fun::fun::{op, Point, Scalar, XOnly, G};
use schnorr_fun::{Message, Schnorr};
use sha2::{Digest, Sha256};

verus! {

/// The group the oracle signs in.
#[derive(Clone, Copy, Debug, Default)]
pub struct Secp256k1;

impl Secp256k1 {
    /// The name of the group, as oracle keys write it.
    pub fn name() -> (s: &'static str)
        ensures
            s@ == "secp256k1"@,
    {
        "secp256k1"
    }

    /// The fixed key pair of tests: the one of the secret bytes `[42; 32]`.
    pub fn test_keypair() -> (r: Option<KeyPair>)
        ensures
            match r {
                Some(kp) => secp_keypair_from_secret(seq![42u8; 32]) == Some(kp@) && kp.wf(),
                None => secp_keypair_from_secret(seq![42u8; 32]) is None,
            },
    {
        let bytes = [42u8; 32];
        assert(bytes@ =~= seq![42u8; 32]);
        keypair_from_secret_bytes(&bytes)
    }

    /// The fixed nonce pair of tests: the one of the secret bytes `[84; 32]`.
    pub fn test_nonce_keypair() -> (r: Option<KeyPair>)
        ensures
            match r {
                Some(kp) => secp_keypair_from_secret(seq![84u8; 32]) == Some(kp@) && kp.wf(),
                None => secp_keypair_from_secret(seq![84u8; 32]) is None,
            },
    {
        let bytes = [84u8; 32];
        assert(bytes@ =~= seq![84u8; 32]);
        keypair_from_secret_bytes(&bytes)
    }
}

/// An x-only public key (32 bytes).
#[derive(Clone, Copy, Debug)]
pub struct PublicKey(pub [u8; 32]);

/// An x-only public nonce (32 bytes).
#[derive(Clone, Copy, Debug)]
pub struct PublicNonce(pub [u8; 32]);

/// An olivia-v1 attestation scalar (32 bytes, big endian).
#[derive(Clone, Copy, Debug)]
pub struct AttestScalar(pub [u8; 32]);

/// A BIP-340 Schnorr signature (64 bytes).
#[derive(Clone, Copy, Debug)]
pub struct Signature(pub [u8; 64]);

/// An ECDSA signature in compact form (64 bytes).
#[derive(Clone, Copy, Debug)]
pub struct EcdsaSignature(pub [u8; 64]);

/// A point of the group, in its 33-byte compressed encoding, or `None` for the point
/// at infinity: the point `s * G` that the olivia-v1 attestation scalar `s` of an
/// outcome will have.
#[derive(Clone, Copy, Debug)]
pub struct AnticipatedAttestation(pub Option<[u8; 33]>);

/// A point, or `None` for the point at infinity, as bytes.
pub open spec fn opt_point(p: Option<[u8; 33]>) -> Option<Seq<u8>> {
    match p {
        Some(b) => Some(b@),
        None => None,
    }
}

/// A secret scalar and its x-only public point; used both for keys and for nonces.
///
/// Only [`keypair_from_secret_bytes`] makes one.
#[derive(Clone, Copy)]
pub struct KeyPair {
    secret: [u8; 32],
    public: [u8; 32],
}

/// The key pair that `secp256kfun` derives from 32 bytes: the bytes are reduced modulo
/// the group order, `None` when that gives zero, else the scalar (negated when its
/// point has an odd y-coordinate) and the x-coordinate of its point.
pub uninterp spec fn secp_keypair_from_secret(bytes: Seq<u8>) -> Option<(Seq<u8>, Seq<u8>)>;

/// The BIP-340 signature (with deterministic nonces, the message tagged with the
/// application tag `tag`) that a secret scalar makes on a message.
pub uninterp spec fn bip340_sign(secret: Seq<u8>, tag: Seq<char>, message: Seq<u8>) -> Seq<u8>;

/// Whether a BIP-340 signature on a message tagged with `tag` verifies under an
/// x-only public key.
pub uninterp spec fn bip340_verify(public: Seq<u8>, tag: Seq<char>, message: Seq<u8>, sig: Seq<u8>) -> bool;

/// A tag that `Message::plain` accepts: one to sixteen ASCII characters.
pub open spec fn short_ascii_tag(tag: Seq<char>) -> bool {
    &&& 1 <= tag.len() <= 16
    &&& forall|i: int| 0 <= i < tag.len() ==> (tag[i] as u32) < 128
}

/// The order of secp256k1's group.
pub open spec fn secp_group_order() -> nat {
    0xFFFFFFFFFFFFFFFFFFFFFFFFFFFFFFFEBAAEDCE6AF48A03BBFD25E8CD0364141nat
}

/// Whether bytes are the 32-byte big-endian encoding of a scalar, a number below the
/// order of the group.
pub open spec fn secp_scalar_ok(s: Seq<u8>) -> bool {
    s.len() == 32 && be_value(s) < secp_group_order()
}

/// The big-endian encoding of the sum, modulo the group order, of two scalars.
pub uninterp spec fn secp_scalar_add(a: Seq<u8>, b: Seq<u8>) -> Seq<u8>;

/// The compressed encoding of `s * G` for the scalar `s`; `None` when the scalar is
/// zero (its product is the point at infinity).
pub uninterp spec fn secp_g_mul(s: Seq<u8>) -> Option<Seq<u8>>;

/// The modulus of secp256k1's field.
pub open spec fn secp_field_modulus() -> nat {
    0xFFFFFFFFFFFFFFFFFFFFFFFFFFFFFFFFFFFFFFFFFFFFFFFFFFFFFFFEFFFFFC2Fnat
}

/// The number that bytes encode, most significant first.
pub open spec fn be_value(b: Seq<u8>) -> nat
    decreases b.len(),
{
    if b.len() == 0 {
        0
    } else {
        be_value(b.drop_last()) * 256 + b.last() as nat
    }
}

/// Whether 32 bytes are the x-coordinate of a point of secp256k1: a field element `x`
/// for which `x^3 + 7` is a square modulo the field's modulus.
pub open spec fn secp_x_on_curve(x: Seq<u8>) -> bool {
    let v = be_value(x);
    let p = secp_field_modulus();
    v < p && exists|y: nat| y < p && #[trigger] ((y * y) % p) == (v * v * v + 7) % p
}

/// Whether 33 bytes are the compressed encoding of a point: `2` or `3` (the parity of
/// `y`), then an x-coordinate.
pub open spec fn secp_point_ok(p: Seq<u8>) -> bool {
    p.len() == 33 && (p[0] == 2u8 || p[0] == 3u8) && secp_x_on_curve(p.skip(1))
}

/// The compressed encoding of the sum of two points given in compressed encoding;
/// `None` when the sum is the point at infinity.
pub uninterp spec fn secp_point_add(a: Seq<u8>, b: Seq<u8>) -> Option<Seq<u8>>;

/// The sum of two points, each `None` for the point at infinity, which adds nothing.
pub open spec fn add_points(a: Option<Seq<u8>>, b: Option<Seq<u8>>) -> Option<Seq<u8>> {
    match (a, b) {
        (None, _) => b,
        (Some(_), None) => a,
        (Some(p), Some(q)) => secp_point_add(p, q),
    }
}

/// The compressed encoding of the even-y point with the x-coordinate `x`.
pub open spec fn even_point(x: Seq<u8>) -> Seq<u8> {
    seq![2u8] + x
}

/// The points `X + R, X + 2R, ..., X + nR` for the compressed points `X` and `R`,
/// each the sum of the one before (`X` for the first) and `R` (`None`: infinity).
pub open spec fn anticipated_points(x: Seq<u8>, r: Seq<u8>, n: nat) -> Seq<Option<Seq<u8>>>
    decreases n,
{
    if n == 0 {
        Seq::empty()
    } else {
        let prev = anticipated_points(x, r, (n - 1) as nat);
        let last = if prev.len() == 0 {
            Some(x)
        } else {
            prev.last()
        };
        prev.push(add_points(last, Some(r)))
    }
}

/// The olivia-v1 attestation scalar for the outcome `index`, `x + (index + 1) * r` for
/// the signing secret `x` and the nonce secret `r`: `x + r`, then `r` added once per
/// further outcome.
pub open spec fn spec_attest_scalar(x: Seq<u8>, r: Seq<u8>, index: nat) -> Seq<u8>
    decreases index,
{
    if index == 0 {
        secp_scalar_add(x, r)
    } else {
        secp_scalar_add(spec_attest_scalar(x, r, (index - 1) as nat), r)
    }
}

/// Whether `s` attests to the outcome `index` under the x-only key `x` with the x-only
/// nonce `r`: `s` is a scalar and `s * G` is the anticipated point of the outcome,
/// `X + (index + 1) * R`.
pub open spec fn spec_verify_attest(x: Seq<u8>, r: Seq<u8>, index: nat, s: Seq<u8>) -> bool {
    &&& secp_scalar_ok(s)
    &&& spec_anticipate(x, r, index + 1) matches Some(points)
    &&& secp_g_mul(s) == points[index as int]
}

/// The anticipated attestation points of `n` outcomes under the x-only key `x` with the
/// x-only nonce `r`: `X + (i + 1) * R` for outcome `i`, where `X` and `R` are the even-y
/// points of `x` and `r`. `None` when either is no x-coordinate.
pub open spec fn spec_anticipate(x: Seq<u8>, r: Seq<u8>, n: nat) -> Option<Seq<Option<Seq<u8>>>> {
    if secp_x_on_curve(x) && secp_x_on_curve(r) {
        Some(anticipated_points(even_point(x), even_point(r), n))
    } else {
        None
    }
}

/// The deterministic ECDSA signature that a secret scalar makes on the SHA-256 of a message.
pub uninterp spec fn ecdsa_sha256_sign(secret: Seq<u8>, message: Seq<u8>) -> Seq<u8>;

/// Whether an ECDSA signature on the SHA-256 of a message verifies under an x-only key.
pub uninterp spec fn ecdsa_sha256_verify(public: Seq<u8>, message: Seq<u8>, sig: Seq<u8>) -> bool;

impl Secp256k1 {
    /// The olivia-v1 attestation scalar that the signing pair reveals with the nonce pair
    /// for the outcome `index`: `x + (index + 1) * r`.
    ///
    /// It attests to the outcome: its product with `G` is the outcome's anticipated
    /// point.
    pub fn reveal_attest_scalar(signing_key: &KeyPair, nonce_key: &KeyPair, index: u32) -> (s: AttestScalar)
        requires
            signing_key.wf(),
            nonce_key.wf(),
        ensures
            s.0@ == spec_attest_scalar(signing_key@.0, nonce_key@.0, index as nat),
            spec_verify_attest(signing_key@.1, nonce_key@.1, index as nat, s.0@),
    {
        let ghost ex = even_point(signing_key@.1);
        let ghost er = even_point(nonce_key@.1);
        let mut s = scalar_add(&signing_key.secret, &nonce_key.secret);
        proof {
            reveal_with_fuel(anticipated_points, 2);
        }
        let mut k: u32 = 0;
        while k < index
            invariant
                k <= index,
                signing_key.wf(),
                nonce_key.wf(),
                ex == even_point(signing_key@.1),
                er == even_point(nonce_key@.1),
                secp_scalar_ok(s@),
                s@ == spec_attest_scalar(signing_key@.0, nonce_key@.0, k as nat),
                secp_g_mul(s@) == anticipated_points(ex, er, (k + 1) as nat)[k as int],
            decreases index - k,
        {
            proof {
                lemma_anticipated_len(ex, er, (k + 1) as nat);
            }
            s = scalar_add(&s, &nonce_key.secret);
            k = k + 1;
        }
        AttestScalar(s)
    }

    /// Whether `attest_scalar` attests to the outcome `index` under the public key `X`
    /// with the public nonce `R`: whether it is a scalar whose product with `G` is
    /// `X + (index + 1) * R`, reached by adding `R` to `X` once per outcome up to `index`.
    /// Bytes that encode no point or scalar give `false`.
    pub fn verify_attest_scalar(public_key: &PublicKey, public_nonce: &PublicNonce, index: u32, attest_scalar: &AttestScalar) -> (b: bool)
        ensures
            b == spec_verify_attest(public_key.0@, public_nonce.0@, index as nat, attest_scalar.0@),
    {
        if !scalar_decodes(&attest_scalar.0) {
            return false;
        }
        let x = match lift_x(&public_key.0) {
            Some(x) => x,
            None => return false,
        };
        let nonce = match lift_x(&public_nonce.0) {
            Some(nonce) => nonce,
            None => return false,
        };
        let expected = g_mul(&attest_scalar.0);
        let mut current: Option<[u8; 33]> = Some(x);
        let mut k: u64 = 0;
        proof {
            lemma_even_point_ok(public_key.0@);
            lemma_even_point_ok(public_nonce.0@);
        }
        while k <= index as u64
            invariant
                k <= index as u64 + 1,
                x@ == even_point(public_key.0@),
                nonce@ == even_point(public_nonce.0@),
                secp_point_ok(x@),
                secp_point_ok(nonce@),
                opt_point(current) == (if k == 0 {
                    Some(x@)
                } else {
                    anticipated_points(x@, nonce@, k as nat)[k - 1]
                }),
                current matches Some(c) ==> secp_point_ok(c@),
            decreases index as u64 + 1 - k,
        {
            proof {
                lemma_anticipated_len(x@, nonce@, k as nat);
            }
            current = add_point(current, &nonce);
            k = k + 1;
        }
        proof {
            lemma_anticipated_len(x@, nonce@, (index + 1) as nat);
        }
        match (current, expected) {
            (Some(c), Some(e)) => bytes33_eq(&c, &e),
            (None, None) => true,
            _ => false,
        }
    }

    /// The points that the attestation scalars of the outcomes `0..n_outcomes` will have
    /// times `G`, for the public key `X` and the public nonce `R`: `X + (i + 1) * R` for
    /// outcome `i` (`None` where that is the point at infinity). `None` when the key or
    /// the nonce is no x-coordinate.
    pub fn anticipate_attestations(public_key: &PublicKey, public_nonce: &PublicNonce, n_outcomes: u32) -> (r: Option<Vec<AnticipatedAttestation>>)
        ensures
            match spec_anticipate(public_key.0@, public_nonce.0@, n_outcomes as nat) {
                Some(points) => r matches Some(v) && v@.map_values(|a: AnticipatedAttestation| opt_point(a.0)) == points,
                None => r is None,
            },
    {
        let x = match lift_x(&public_key.0) {
            Some(x) => x,
            None => return None,
        };
        let nonce = match lift_x(&public_nonce.0) {
            Some(nonce) => nonce,
            None => return None,
        };
        proof {
            lemma_even_point_ok(public_key.0@);
            lemma_even_point_ok(public_nonce.0@);
        }
        let mut points: Vec<AnticipatedAttestation> = Vec::new();
        let mut current: Option<[u8; 33]> = Some(x);
        let mut i: u32 = 0;
        while i < n_outcomes
            invariant
                i <= n_outcomes,
                points@.len() == i,
                x@ == even_point(public_key.0@),
                nonce@ == even_point(public_nonce.0@),
                secp_point_ok(x@),
                secp_point_ok(nonce@),
                anticipated_points(x@, nonce@, i as nat) == points@.map_values(
                    |a: AnticipatedAttestation| opt_point(a.0),
                ),
                opt_point(current) == (if i == 0 {
                    Some(x@)
                } else {
                    opt_point(points@[i - 1].0)
                }),
                current matches Some(c) ==> secp_point_ok(c@),
            decreases n_outcomes - i,
        {
            let ghost prev = points@.map_values(|a: AnticipatedAttestation| opt_point(a.0));
            let next = add_point(current, &nonce);
            points.push(AnticipatedAttestation(next));
            current = next;
            i = i + 1;
            assert(points@.map_values(|a: AnticipatedAttestation| opt_point(a.0)) =~= prev.push(opt_point(next)));
        }
        Some(points)
    }
}

/// Adds `R` to a point (`None`: infinity, to which adding gives `R`).
fn add_point(a: Option<[u8; 33]>, r: &[u8; 33]) -> (s: Option<[u8; 33]>)
    requires
        a matches Some(p) ==> secp_point_ok(p@),
        secp_point_ok(r@),
    ensures
        opt_point(s) == add_points(opt_point(a), Some(r@)),
        s matches Some(p) ==> secp_point_ok(p@),
{
    match a {
        Some(p) => point_add(&p, r),
        None => Some(*r),
    }
}

/// The even-y point of an x-coordinate decodes.
proof fn lemma_even_point_ok(x: Seq<u8>)
    requires
        secp_x_on_curve(x),
        x.len() == 32,
    ensures
        secp_point_ok(even_point(x)),
{
    assert(even_point(x).skip(1) =~= x);
}

/// Whether two 33-byte strings are equal.
fn bytes33_eq(a: &[u8; 33], b: &[u8; 33]) -> (r: bool)
    ensures
        r == (a@ == b@),
{
    let mut i: usize = 0;
    while i < 33
        invariant
            i <= 33,
            a@.len() == 33,
            b@.len() == 33,
            forall|j: int| 0 <= j < i ==> a@[j] == b@[j],
        decreases 33 - i,
    {
        if a[i] != b[i] {
            return false;
        }
        i = i + 1;
    }
    assert(a@ =~= b@);
    true
}

/// A list of anticipated points has one point per outcome.
proof fn lemma_anticipated_len(x: Seq<u8>, r: Seq<u8>, n: nat)
    ensures
        anticipated_points(x, r, n).len() == n,
    decreases n,
{
    if n > 0 {
        lemma_anticipated_len(x, r, (n - 1) as nat);
    }
}

/// The anticipated points of fewer outcomes are the first of those of more.
pub proof fn lemma_anticipated_prefix(x: Seq<u8>, r: Seq<u8>, m: nat, n: nat)
    requires
        m <= n,
    ensures
        anticipated_points(x, r, m) == anticipated_points(x, r, n).take(m as int),
    decreases n - m,
{
    lemma_anticipated_len(x, r, n);
    if m < n {
        lemma_anticipated_prefix(x, r, m, (n - 1) as nat);
        lemma_anticipated_len(x, r, (n - 1) as nat);
        let p = anticipated_points(x, r, n);
        let q = anticipated_points(x, r, (n - 1) as nat);
        assert(q =~= p.take((n - 1) as int));
        assert(q.take(m as int) =~= p.take(m as int));
    } else {
        assert(anticipated_points(x, r, n).take(m as int) =~= anticipated_points(x, r, n));
    }
}

/// An attestation scalar for an outcome, times `G`, is the outcome's anticipated point
/// among those of any number of outcomes beyond it: the announcement's nonce fixes, for
/// every outcome, the point its attestation will have.
pub proof fn lemma_attestation_point_is_anticipated(x: Seq<u8>, r: Seq<u8>, index: nat, s: Seq<u8>, n: nat)
    requires
        spec_verify_attest(x, r, index, s),
        index < n,
    ensures
        spec_anticipate(x, r, n) matches Some(points) && secp_g_mul(s) == points[index as int],
{
    lemma_anticipated_prefix(even_point(x), even_point(r), index + 1, n);
    lemma_anticipated_len(even_point(x), even_point(r), n);
}

/// The application tag of announcement signatures.
pub fn announcement_tag() -> (t: &'static str)
    ensures
        t@ == "DLC/announcement"@,
        short_ascii_tag(t@),
{
    let t = "DLC/announcement";
    proof {
        reveal_strlit("DLC/announcement");
    }
    t
}

/// A copy of a list of public nonces.
pub fn copy_nonces(v: &Vec<PublicNonce>) -> (r: Vec<PublicNonce>)
    ensures
        r@.map_values(|n: PublicNonce| n.0@) == v@.map_values(|n: PublicNonce| n.0@),
{
    let mut r: Vec<PublicNonce> = Vec::new();
    let mut i: usize = 0;
    while i < v.len()
        invariant
            i <= v.len(),
            r@.len() == i,
            forall|j: int| 0 <= j < i ==> r@[j].0@ == v@[j].0@,
        decreases v.len() - i,
    {
        r.push(PublicNonce(v[i].0));
        i = i + 1;
    }
    assert(r@.map_values(|n: PublicNonce| n.0@) =~= v@.map_values(|n: PublicNonce| n.0@));
    r
}

/// A copy of a list of attestation scalars.
pub fn copy_scalars(v: &Vec<AttestScalar>) -> (r: Vec<AttestScalar>)
    ensures
        r@.map_values(|s: AttestScalar| s.0@) == v@.map_values(|s: AttestScalar| s.0@),
{
    let mut r: Vec<AttestScalar> = Vec::new();
    let mut i: usize = 0;
    while i < v.len()
        invariant
            i <= v.len(),
            r@.len() == i,
            forall|j: int| 0 <= j < i ==> r@[j].0@ == v@[j].0@,
        decreases v.len() - i,
    {
        r.push(AttestScalar(v[i].0));
        i = i + 1;
    }
    assert(r@.map_values(|s: AttestScalar| s.0@) =~= v@.map_values(|s: AttestScalar| s.0@));
    r
}

impl View for KeyPair {
    type V = (Seq<u8>, Seq<u8>);

    closed spec fn view(&self) -> (Seq<u8>, Seq<u8>) {
        (self.secret@, self.public@)
    }
}

impl KeyPair {
    /// A key pair as `secp256kfun` makes them.
    pub open spec fn wf(&self) -> bool {
        &&& exists|b: Seq<u8>| secp_keypair_from_secret(b) == Some(self@)
        &&& secp_scalar_ok(self@.0)
        &&& secp_x_on_curve(self@.1)
        &&& secp_g_mul(self@.0) == Some(even_point(self@.1))
    }

    /// The public key of the pair.
    pub fn public_key(&self) -> (pk: PublicKey)
        ensures
            pk.0@ == self@.1,
    {
        PublicKey(self.public)
    }

    /// The public nonce of the pair.
    pub fn public_nonce(&self) -> (pn: PublicNonce)
        ensures
            pn.0@ == self@.1,
    {
        PublicNonce(self.public)
    }
}

/// `Scalar::from_bytes_mod_order`, marked non-zero, turned into a key pair by
/// `Schnorr::new_keypair` (which is `XOnly::from_scalar_mul` on the generator).
///
/// The contract names the pair and states what `new_keypair` documents of it: the
/// secret is a scalar (negated where needed) whose product with `G` is the even-y
/// point of the public x-coordinate.
#[verifier::external_body]
pub(crate) fn keypair_from_secret_bytes(bytes: &[u8; 32]) -> (r: Option<KeyPair>)
    ensures
        match r {
            Some(kp) => secp_keypair_from_secret(bytes@) == Some(kp@),
            None => secp_keypair_from_secret(bytes@) is None,
        },
        r matches Some(kp) ==> secp_scalar_ok(kp@.0) && secp_x_on_curve(kp@.1) && secp_g_mul(kp@.0)
            == Some(even_point(kp@.1)),
{
    let sk = match Scalar::from_bytes_mod_order(*bytes).mark::<NonZero>() {
        Some(sk) => sk,
        None => return None,
    };
    let kp = Schnorr::<Sha256, Deterministic<Sha256>>::new(Deterministic::<Sha256>::default())
        .new_keypair(sk);
    Some(KeyPair { secret: kp.secret_key().to_bytes(), public: kp.public_key().into_bytes() })
}

/// `Schnorr::sign` (deterministic nonces, SHA-256) on `Message::plain(tag, message)`.
///
/// Besides naming the signature, the contract states what the crate's documentation
/// shows of it: it verifies under the pair's public key.
#[verifier::external_body]
pub(crate) fn bip340_sign_tagged(keypair: &KeyPair, tag: &'static str, message: &[u8]) -> (sig: Signature)
    requires
        keypair.wf(),
        short_ascii_tag(tag@),
    ensures
        sig.0@ == bip340_sign(keypair@.0, tag@, message@),
        bip340_verify(keypair@.1, tag@, message@, sig.0@),
{
    let schnorr = Schnorr::<Sha256, Deterministic<Sha256>>::new(Deterministic::<Sha256>::default());
    let sk = Scalar::from_bytes(keypair.secret).unwrap().mark::<NonZero>().unwrap();
    let kp = schnorr.new_keypair(sk);
    let sig = schnorr.sign(&kp, Message::<Public>::plain(tag, message));
    Signature(sig.to_bytes())
}

/// `Schnorr::verify` on `Message::plain(tag, message)`; a key or a signature whose
/// bytes do not decode verifies nothing.
#[verifier::external_body]
pub(crate) fn bip340_verify_tagged(public_key: &PublicKey, tag: &'static str, message: &[u8], sig: &Signature) -> (b: bool)
    requires
        short_ascii_tag(tag@),
    ensures
        b == bip340_verify(public_key.0@, tag@, message@, sig.0@),
{
    let (pk, sig) = match (XOnly::from_bytes(public_key.0), schnorr_fun::Signature::from_bytes(sig.0)) {
        (Some(pk), Some(sig)) => (pk, sig),
        _ => return false,
    };
    let schnorr = Schnorr::<Sha256, Deterministic<Sha256>>::new(Deterministic::<Sha256>::default());
    schnorr.verify(&pk.to_point(), Message::<Public>::plain(tag, message), &sig)
}

/// `op::scalar_add` on two scalars decoded by `Scalar::from_bytes`, encoded by `to_bytes`.
///
/// Besides naming the sum, the contract states the group law that `secp256kfun`'s
/// scalars and points obey: `(a + b) * G == a * G + b * G`, the point at infinity
/// adding nothing.
#[verifier::external_body]
fn scalar_add(a: &[u8; 32], b: &[u8; 32]) -> (r: [u8; 32])
    requires
        secp_scalar_ok(a@),
        secp_scalar_ok(b@),
    ensures
        r@ == secp_scalar_add(a@, b@),
        secp_scalar_ok(r@),
        secp_g_mul(r@) == add_points(secp_g_mul(a@), secp_g_mul(b@)),
{
    let a = Scalar::from_bytes(*a).unwrap();
    let b = Scalar::from_bytes(*b).unwrap();
    op::scalar_add(&a, &b).to_bytes()
}

/// `op::scalar_mul_point` of a scalar decoded by `Scalar::from_bytes` and `G`, marked
/// non-zero (`None`: the point at infinity), normalized and encoded by `to_bytes`.
#[verifier::external_body]
fn g_mul(s: &[u8; 32]) -> (r: Option<[u8; 33]>)
    requires
        secp_scalar_ok(s@),
    ensures
        opt_point(r) == secp_g_mul(s@),
        r matches Some(p) ==> secp_point_ok(p@),
{
    let s = Scalar::from_bytes(*s).unwrap();
    match op::scalar_mul_point(&s, G).mark::<NonZero>() {
        Some(point) => Some(point.mark::<Normal>().to_bytes()),
        None => None,
    }
}

/// `XOnly::from_bytes`, then `to_point` (the point with an even y-coordinate) in its
/// compressed encoding, which is `0x02` followed by the x-coordinate.
#[verifier::external_body]
fn lift_x(x: &[u8; 32]) -> (r: Option<[u8; 33]>)
    ensures
        r is Some <==> secp_x_on_curve(x@),
        r matches Some(p) ==> p@ == even_point(x@),
{
    let point = XOnly::from_bytes(*x)?;
    Some(point.to_point().to_bytes())
}

/// `op::point_add` on two points decoded by `Point::from_bytes`, the sum marked non-zero
/// (`None`: the point at infinity), normalized and encoded by `to_bytes`.
#[verifier::external_body]
fn point_add(a: &[u8; 33], b: &[u8; 33]) -> (r: Option<[u8; 33]>)
    requires
        secp_point_ok(a@),
        secp_point_ok(b@),
    ensures
        opt_point(r) == secp_point_add(a@, b@),
        r matches Some(p) ==> secp_point_ok(p@),
{
    let a = Point::from_bytes(*a).unwrap();
    let b = Point::from_bytes(*b).unwrap();
    match op::point_add(&a, &b).mark::<NonZero>() {
        Some(sum) => Some(sum.mark::<Normal>().to_bytes()),
        None => None,
    }
}

/// Whether `Scalar::from_bytes` decodes the bytes.
#[verifier::external_body]
fn scalar_decodes(s: &[u8; 32]) -> (b: bool)
    ensures
        b == secp_scalar_ok(s@),
{
    Scalar::<Secret, Zero>::from_bytes(*s).is_some()
}

/// `ECDSA::sign` (deterministic nonces) on the SHA-256 of the message.
///
/// Besides naming the signature, the contract states that it verifies under the
/// pair's public key.
#[verifier::external_body]
pub(crate) fn ecdsa_sign(keypair: &KeyPair, message: &[u8]) -> (sig: EcdsaSignature)
    requires
        keypair.wf(),
    ensures
        sig.0@ == ecdsa_sha256_sign(keypair@.0, message@),
        ecdsa_sha256_verify(keypair@.1, message@, sig.0@),
{
    let mut hash = [0u8; 32];
    hash.copy_from_slice(&Sha256::digest(message));
    let sk = Scalar::from_bytes(keypair.secret).unwrap().mark::<NonZero>().unwrap();
    EcdsaSignature(ecdsa_fun::ECDSA::<Deterministic<Sha256>>::default().sign(&sk, &hash).to_bytes())
}

/// `ECDSA::verify` on the SHA-256 of the message, under the even-y point of an x-only
/// key; bytes that do not decode give `false`.
#[verifier::external_body]
pub(crate) fn ecdsa_verify(public_key: &PublicKey, message: &[u8], sig: &EcdsaSignature) -> (b: bool)
    ensures
        b == ecdsa_sha256_verify(public_key.0@, message@, sig.0@),
{
    let (pk, sig) = match (XOnly::from_bytes(public_key.0), ecdsa_fun::Signature::from_bytes(sig.0)) {
        (Some(pk), Some(sig)) => (pk, sig),
        _ => return false,
    };
    let mut hash = [0u8; 32];
    hash.copy_from_slice(&Sha256::digest(message));
    ecdsa_fun::ECDSA::verify_only().verify(&pk.to_point(), &hash, &sig)
}

} // verus!
