use crate::codec::{point_be, point_from_be, point_to_be, point_words, reverse_bytes, reversed};
use k256::elliptic_curve::point::DecompressPoint;
use k256::elliptic_curve::sec1::{FromEncodedPoint, ToEncodedPoint};
use vstd::prelude::*;

verus! {

/// The curve families whose points the precompiles operate on.
#[derive(Clone, Copy, Debug, PartialEq, Eq, Structural)]
pub enum CurveType {
    Secp256k1,
    Bls12381,
}

impl CurveType {
    /// Words in one base-field element.
    pub open spec fn field_words(self) -> nat {
        match self {
            CurveType::Secp256k1 => 8,
            CurveType::Bls12381 => 12,
        }
    }

    /// Words in one affine point, x then y.
    pub open spec fn point_words(self) -> nat {
        2 * self.field_words()
    }

    /// Bytes in one base-field element.
    pub open spec fn limbs(self) -> nat {
        4 * self.field_words()
    }

    pub fn num_words_field_element(&self) -> (r: usize)
        ensures
            r == self.field_words(),
    {
        match self {
            CurveType::Secp256k1 => 8,
            CurveType::Bls12381 => 12,
        }
    }

    pub fn num_words_point(&self) -> (r: usize)
        ensures
            r == self.point_words(),
    {
        2 * self.num_words_field_element()
    }

    pub fn num_limbs(&self) -> (r: usize)
        ensures
            r == self.limbs(),
    {
        4 * self.num_words_field_element()
    }
}

/// What k256 gives for the sum of two points given as untagged `x || y` encodings.
pub uninterp spec fn secp256k1_sum(p: Seq<u8>, q: Seq<u8>) -> Option<Seq<u8>>;

/// What k256 gives for the double of a point given as an untagged `x || y` encoding.
pub uninterp spec fn secp256k1_doubled(p: Seq<u8>) -> Option<Seq<u8>>;

/// What k256 gives for the big-endian y of the point with big-endian x and y parity.
pub uninterp spec fn secp256k1_decompressed_y(x: Seq<u8>, odd: bool) -> Option<Seq<u8>>;

/// What bls12_381 gives for the sum of two G1 points in uncompressed encoding.
pub uninterp spec fn bls12381_sum(p: Seq<u8>, q: Seq<u8>) -> Option<Seq<u8>>;

/// What bls12_381 gives for the double of a G1 point in uncompressed encoding.
pub uninterp spec fn bls12381_doubled(p: Seq<u8>) -> Option<Seq<u8>>;

/// What bls12_381 gives, in uncompressed encoding, for a G1 point in compressed encoding.
pub uninterp spec fn bls12381_decompressed(x: Seq<u8>) -> Option<Seq<u8>>;

pub open spec fn opt_bytes(r: Option<Vec<u8>>) -> Option<Seq<u8>> {
    match r {
        Some(v) => Some(v@),
        None => None,
    }
}

pub open spec fn opt_words(r: Option<Vec<u32>>) -> Option<Seq<u32>> {
    match r {
        Some(v) => Some(v@),
        None => None,
    }
}

/// Relies on k256's `AffinePoint::from_encoded_point`, `ProjectivePoint + AffinePoint` and
/// `to_encoded_point(false)`: the SEC1 encoding of the sum, `None` where an operand is not
/// on the curve. The result depends on the two encodings alone.
#[verifier::external_body]
fn secp256k1_add(p: &Vec<u8>, q: &Vec<u8>) -> (r: Option<Vec<u8>>)
    requires
        p@.len() == 64,
        q@.len() == 64,
    ensures
        opt_bytes(r) == secp256k1_sum(p@, q@),
{
    let a = k256::EncodedPoint::from_untagged_bytes(p.as_slice().into());
    let b = k256::EncodedPoint::from_untagged_bytes(q.as_slice().into());
    let a: Option<k256::AffinePoint> = k256::AffinePoint::from_encoded_point(&a).into();
    let b: Option<k256::AffinePoint> = k256::AffinePoint::from_encoded_point(&b).into();
    let sum = k256::ProjectivePoint::from(a?) + b?;
    Some(sum.to_affine().to_encoded_point(false).as_bytes().to_vec())
}

/// Relies on k256's `AffinePoint::from_encoded_point`, `ProjectivePoint::double` and
/// `to_encoded_point(false)`: the SEC1 encoding of the double, `None` where the operand is
/// not on the curve. The result depends on the encoding alone.
#[verifier::external_body]
fn secp256k1_double(p: &Vec<u8>) -> (r: Option<Vec<u8>>)
    requires
        p@.len() == 64,
    ensures
        opt_bytes(r) == secp256k1_doubled(p@),
{
    let a = k256::EncodedPoint::from_untagged_bytes(p.as_slice().into());
    let a: Option<k256::AffinePoint> = k256::AffinePoint::from_encoded_point(&a).into();
    let twice = k256::ProjectivePoint::from(a?).double();
    Some(twice.to_affine().to_encoded_point(false).as_bytes().to_vec())
}

/// Relies on k256's `AffinePoint::decompress`: the point with x-coordinate `x` (big-endian)
/// whose y has the given parity, `None` where there is none. Its y, read through
/// `EncodedPoint::y`, is a 32-byte `FieldBytes`.
#[verifier::external_body]
fn secp256k1_decompress(x: &Vec<u8>, odd: bool) -> (r: Option<Vec<u8>>)
    requires
        x@.len() == 32,
    ensures
        opt_bytes(r) == secp256k1_decompressed_y(x@, odd),
        r matches Some(y) ==> y@.len() == 32,
{
    let parity = k256::elliptic_curve::subtle::Choice::from(odd as u8);
    let point: Option<k256::AffinePoint> = k256::AffinePoint::decompress(x.as_slice().into(), parity)
        .into();
    Some(point?.to_encoded_point(false).y()?.to_vec())
}

/// Relies on bls12_381's `G1Affine::from_uncompressed`, `G1Projective + G1Affine` and
/// `G1Affine::to_uncompressed`: the 96-byte encoding of the sum, `None` where an operand
/// is not a G1 point. The result depends on the two encodings alone.
#[verifier::external_body]
fn bls12381_add(p: &Vec<u8>, q: &Vec<u8>) -> (r: Option<Vec<u8>>)
    requires
        p@.len() == 96,
        q@.len() == 96,
    ensures
        opt_bytes(r) == bls12381_sum(p@, q@),
        r matches Some(s) ==> s@.len() == 96,
{
    let a: Option<bls12_381::G1Affine> = bls12_381::G1Affine::from_uncompressed(
        &p.as_slice().try_into().ok()?,
    ).into();
    let b: Option<bls12_381::G1Affine> = bls12_381::G1Affine::from_uncompressed(
        &q.as_slice().try_into().ok()?,
    ).into();
    let sum = bls12_381::G1Projective::from(a?) + b?;
    Some(bls12_381::G1Affine::from(sum).to_uncompressed().to_vec())
}

/// Relies on bls12_381's `G1Affine::from_uncompressed`, `G1Projective::double` and
/// `G1Affine::to_uncompressed`: the 96-byte encoding of the double, `None` where the
/// operand is not a G1 point. The result depends on the encoding alone.
#[verifier::external_body]
fn bls12381_double(p: &Vec<u8>) -> (r: Option<Vec<u8>>)
    requires
        p@.len() == 96,
    ensures
        opt_bytes(r) == bls12381_doubled(p@),
        r matches Some(s) ==> s@.len() == 96,
{
    let a: Option<bls12_381::G1Affine> = bls12_381::G1Affine::from_uncompressed(
        &p.as_slice().try_into().ok()?,
    ).into();
    let twice = bls12_381::G1Projective::from(a?).double();
    Some(bls12_381::G1Affine::from(twice).to_uncompressed().to_vec())
}

/// Relies on bls12_381's `G1Affine::from_compressed` and `G1Affine::to_uncompressed`: the
/// 96-byte encoding of the G1 point with the given compressed encoding, `None` where
/// there is none.
#[verifier::external_body]
fn bls12381_decompress(x: &Vec<u8>) -> (r: Option<Vec<u8>>)
    requires
        x@.len() == 48,
    ensures
        opt_bytes(r) == bls12381_decompressed(x@),
        r matches Some(s) ==> s@.len() == 96,
{
    let point: Option<bls12_381::G1Affine> = bls12_381::G1Affine::from_compressed(
        &x.as_slice().try_into().ok()?,
    ).into();
    Some(point?.to_uncompressed().to_vec())
}

/// The words of an affine point encoded by k256 in SEC1 form; `None` for the identity.
pub open spec fn secp256k1_affine_words(enc: Seq<u8>) -> Option<Seq<u32>> {
    if enc.len() == 65 {
        Some(point_words(enc.subrange(1, 65), 8))
    } else {
        None
    }
}

/// The words of a G1 point in uncompressed encoding; `None` where the infinity flag is set.
pub open spec fn bls12381_affine_words(enc: Seq<u8>) -> Option<Seq<u32>> {
    if enc.len() == 96 && enc[0] & 0x40 == 0 {
        Some(point_words(enc, 12))
    } else {
        None
    }
}

/// The words of `P + Q` for points given as words, or `None` where an operand is not a
/// point of the curve or the sum is the identity.
pub open spec fn sum_words(curve: CurveType, p: Seq<u32>, q: Seq<u32>) -> Option<Seq<u32>> {
    match curve {
        CurveType::Secp256k1 => match secp256k1_sum(point_be(p, 8), point_be(q, 8)) {
            Some(enc) => secp256k1_affine_words(enc),
            None => None,
        },
        CurveType::Bls12381 => match bls12381_sum(point_be(p, 12), point_be(q, 12)) {
            Some(enc) => bls12381_affine_words(enc),
            None => None,
        },
    }
}

/// The words of `2P` for a point given as words, or `None` where the operand is not a
/// point of the curve or the double is the identity.
pub open spec fn double_words(curve: CurveType, p: Seq<u32>) -> Option<Seq<u32>> {
    match curve {
        CurveType::Secp256k1 => match secp256k1_doubled(point_be(p, 8)) {
            Some(enc) => secp256k1_affine_words(enc),
            None => None,
        },
        CurveType::Bls12381 => match bls12381_doubled(point_be(p, 12)) {
            Some(enc) => bls12381_affine_words(enc),
            None => None,
        },
    }
}

/// The compressed G1 encoding of a big-endian x-coordinate: the compression flag set,
/// and the sort flag set where `sign` is.
pub open spec fn bls12381_compressed(x_be: Seq<u8>, sign: bool) -> Seq<u8> {
    x_be.update(0, x_be[0] | (if sign { 0xa0u8 } else { 0x80u8 }))
}

/// The y-coordinate, as little-endian bytes, of the point whose x-coordinate has the
/// little-endian bytes `x_le` and whose y is selected by `sign`; `None` where there is none.
pub open spec fn decompressed_y(curve: CurveType, x_le: Seq<u8>, sign: bool) -> Option<Seq<u8>> {
    match curve {
        CurveType::Secp256k1 => match secp256k1_decompressed_y(reversed(x_le), sign) {
            Some(y_be) => Some(reversed(y_be)),
            None => None,
        },
        CurveType::Bls12381 => match bls12381_decompressed(
            bls12381_compressed(reversed(x_le), sign),
        ) {
            Some(enc) => Some(reversed(enc.subrange(48, 96))),
            None => None,
        },
    }
}

/// Decodes a k256 SEC1 encoding into point words.
pub fn secp256k1_affine_from(enc: &Vec<u8>) -> (r: Option<Vec<u32>>)
    ensures
        opt_words(r) == secp256k1_affine_words(enc@),
        r matches Some(w) ==> w@.len() == 16,
{
    if enc.len() == 65 {
        Some(point_from_be(enc, 1, 8))
    } else {
        None
    }
}

/// Decodes a G1 uncompressed encoding into point words.
pub fn bls12381_affine_from(enc: &Vec<u8>) -> (r: Option<Vec<u32>>)
    ensures
        opt_words(r) == bls12381_affine_words(enc@),
        r matches Some(w) ==> w@.len() == 24,
{
    if enc.len() == 96 && enc[0] & 0x40 == 0 {
        let r = point_from_be(enc, 0, 12);
        assert(enc@.subrange(0, 96) =~= enc@);
        Some(r)
    } else {
        None
    }
}

/// `P + Q` on the curve, points given and returned as little-endian words.
pub fn add_points(curve: CurveType, p: &Vec<u32>, q: &Vec<u32>) -> (r: Option<Vec<u32>>)
    requires
        p@.len() == curve.point_words(),
        q@.len() == curve.point_words(),
    ensures
        opt_words(r) == sum_words(curve, p@, q@),
        r matches Some(s) ==> s@.len() == curve.point_words(),
{
    match curve {
        CurveType::Secp256k1 => {
            let pb = point_to_be(p, 8);
            let qb = point_to_be(q, 8);
            match secp256k1_add(&pb, &qb) {
                Some(enc) => secp256k1_affine_from(&enc),
                None => None,
            }
        },
        CurveType::Bls12381 => {
            let pb = point_to_be(p, 12);
            let qb = point_to_be(q, 12);
            match bls12381_add(&pb, &qb) {
                Some(enc) => bls12381_affine_from(&enc),
                None => None,
            }
        },
    }
}

/// `2P` on the curve by its doubling formula, the point given and returned as words.
pub fn double_point(curve: CurveType, p: &Vec<u32>) -> (r: Option<Vec<u32>>)
    requires
        p@.len() == curve.point_words(),
    ensures
        opt_words(r) == double_words(curve, p@),
        r matches Some(s) ==> s@.len() == curve.point_words(),
{
    match curve {
        CurveType::Secp256k1 => {
            let pb = point_to_be(p, 8);
            match secp256k1_double(&pb) {
                Some(enc) => secp256k1_affine_from(&enc),
                None => None,
            }
        },
        CurveType::Bls12381 => {
            let pb = point_to_be(p, 12);
            match bls12381_double(&pb) {
                Some(enc) => bls12381_affine_from(&enc),
                None => None,
            }
        },
    }
}

/// Sets the compression flag of a big-endian x-coordinate, and the sort flag where `sign`.
pub fn bls12381_compress_x(x_be: Vec<u8>, sign: bool) -> (r: Vec<u8>)
    requires
        x_be@.len() > 0,
    ensures
        r@ == bls12381_compressed(x_be@, sign),
{
    let mut compressed = x_be;
    let flags: u8 = if sign { 0xa0 } else { 0x80 };
    let first = compressed[0] | flags;
    compressed.set(0, first);
    compressed
}

/// The little-endian bytes of the y-coordinate of a G1 point in uncompressed encoding.
pub fn bls12381_y_le(enc: &Vec<u8>) -> (r: Vec<u8>)
    requires
        enc@.len() == 96,
    ensures
        r@ == reversed(enc@.subrange(48, 96)),
{
    let mut y_be: Vec<u8> = Vec::new();
    let mut i: usize = 48;
    while i < 96
        invariant
            48 <= i <= 96,
            enc@.len() == 96,
            y_be@ == enc@.subrange(48, i as int),
        decreases 96 - i,
    {
        y_be.push(enc[i]);
        i = i + 1;
        assert(y_be@ =~= enc@.subrange(48, i as int));
    }
    reverse_bytes(&y_be)
}

/// The little-endian bytes of the y-coordinate recovered from the little-endian bytes
/// of x and the sign bit, exactly one field element long.
pub fn decompress_y(curve: CurveType, x_le: &Vec<u8>, sign: bool) -> (r: Option<Vec<u8>>)
    requires
        x_le@.len() == curve.limbs(),
    ensures
        opt_bytes(r) == decompressed_y(curve, x_le@, sign),
        r matches Some(y) ==> y@.len() == curve.limbs(),
{
    let x_be = reverse_bytes(x_le);
    match curve {
        CurveType::Secp256k1 => match secp256k1_decompress(&x_be, sign) {
            Some(y_be) => Some(reverse_bytes(&y_be)),
            None => None,
        },
        CurveType::Bls12381 => match bls12381_decompress(&bls12381_compress_x(x_be, sign)) {
            Some(enc) => Some(bls12381_y_le(&enc)),
            None => None,
        },
    }
}

} // verus!
