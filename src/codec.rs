//! The wire encoding: fields back to back in declaration order, sequences
//! prefixed by their length as a little-endian `u64`, points and scalars in
//! their canonical encodings.
use vstd::prelude::*;

use crate::algebra::{fr_canonical, points_view, CurveGroup, Scalar, G1, G2, SCALAR_LEN};
use crate::bls::{BLSSignatureScheme, SRS as BLSSRS};
use crate::participant::SRS;
use crate::pvss::PVSSShare;
use crate::schnorr::SRS as SchnorrSRS;
use crate::scheme::SignatureScheme;
use crate::transcript::{contributions_view, DKGShare, DKGTranscript, DKGTranscriptParticipant, EntryView};
use std::collections::BTreeMap;
use vstd::std_specs::btree::{increasing_seq, spec_btree_map_iter};
use vstd::std_specs::cmp::OrdSpec;
use vstd::std_specs::iter::IteratorSpec;
use crate::schnorr::append_bytes;

verus! {

broadcast use {vstd::laws_cmp::group_laws_cmp, vstd::std_specs::btree::group_btree_axioms};

/// The little-endian bytes of `x`.
pub open spec fn u64_le(x: u64) -> Seq<u8> {
    seq![
        x as u8,
        (x >> 8u64) as u8,
        (x >> 16u64) as u8,
        (x >> 24u64) as u8,
        (x >> 32u64) as u8,
        (x >> 40u64) as u8,
        (x >> 48u64) as u8,
        (x >> 56u64) as u8,
    ]
}

/// The integer whose little-endian bytes start `b`.
pub open spec fn u64_from_le(b: Seq<u8>) -> u64 {
    (b[0] as u64) | ((b[1] as u64) << 8u64) | ((b[2] as u64) << 16u64) | ((b[3] as u64) << 24u64)
        | ((b[4] as u64) << 32u64) | ((b[5] as u64) << 40u64) | ((b[6] as u64) << 48u64) | ((
    b[7] as u64) << 56u64)
}

/// Reading back the bytes of an integer gives the integer.
pub proof fn lemma_u64_round_trip(x: u64)
    ensures
        u64_from_le(u64_le(x)) == x,
{
    let b = u64_le(x);
    let (b0, b1, b2, b3, b4, b5, b6, b7) = (b[0], b[1], b[2], b[3], b[4], b[5], b[6], b[7]);
    assert((b0 as u64) | ((b1 as u64) << 8u64) | ((b2 as u64) << 16u64) | ((b3 as u64) << 24u64)
        | ((b4 as u64) << 32u64) | ((b5 as u64) << 40u64) | ((b6 as u64) << 48u64) | ((
    b7 as u64) << 56u64) == x) by (bit_vector)
        requires
            b0 == x as u8,
            b1 == (x >> 8u64) as u8,
            b2 == (x >> 16u64) as u8,
            b3 == (x >> 24u64) as u8,
            b4 == (x >> 32u64) as u8,
            b5 == (x >> 40u64) as u8,
            b6 == (x >> 48u64) as u8,
            b7 == (x >> 56u64) as u8,
    ;
}

/// The encodings of a sequence of points, back to back.
pub open spec fn points_bytes(ps: Seq<Seq<u8>>) -> Seq<u8>
    decreases ps.len(),
{
    if ps.len() == 0 {
        Seq::empty()
    } else {
        points_bytes(ps.drop_last()) + ps.last()
    }
}

/// A sequence of points with its length prefix.
pub open spec fn seq_bytes(ps: Seq<Seq<u8>>) -> Seq<u8> {
    u64_le(ps.len() as u64) + points_bytes(ps)
}

/// The encoding of a public share.
pub open spec fn share_bytes(v: (Seq<Seq<u8>>, Seq<u8>, Seq<Seq<u8>>, Seq<Seq<u8>>)) -> Seq<u8> {
    seq_bytes(v.0) + v.1 + seq_bytes(v.2) + seq_bytes(v.3)
}

/// One point read from the front of `b`, and what follows it.
pub open spec fn take_point<C: CurveGroup>(b: Seq<u8>) -> Option<(Seq<u8>, Seq<u8>)> {
    let l = C::spec_len();
    if b.len() >= l && C::spec_canonical(b.take(l as int)) == Some(b.take(l as int)) {
        Some((b.take(l as int), b.skip(l as int)))
    } else {
        None
    }
}

/// One scalar read from the front of `b`, and what follows it.
pub open spec fn take_scalar(b: Seq<u8>) -> Option<(Seq<u8>, Seq<u8>)> {
    let l = SCALAR_LEN as int;
    if b.len() >= l && fr_canonical(b.take(l)) == Some(b.take(l)) {
        Some((b.take(l), b.skip(l)))
    } else {
        None
    }
}

/// Reading back the encoding of a canonical scalar gives the scalar.
pub proof fn lemma_scalar_round_trip(k: Seq<u8>, rest: Seq<u8>)
    requires
        fr_canonical(k) == Some(k),
        k.len() == SCALAR_LEN,
    ensures
        take_scalar(k + rest) == Some((k, rest)),
{
    assert((k + rest).take(k.len() as int) =~= k);
    assert((k + rest).skip(k.len() as int) =~= rest);
}

/// `n` points read from the front of `b`, and what follows them.
pub open spec fn take_points<C: CurveGroup>(b: Seq<u8>, n: nat) -> Option<(Seq<Seq<u8>>, Seq<u8>)>
    decreases n,
{
    if n == 0 {
        Some((Seq::empty(), b))
    } else {
        match take_points::<C>(b, (n - 1) as nat) {
            Some((ps, r)) => match take_point::<C>(r) {
                Some((p, r2)) => Some((ps.push(p), r2)),
                None => None,
            },
            None => None,
        }
    }
}

/// A length-prefixed sequence of points read from the front of `b`.
pub open spec fn take_seq<C: CurveGroup>(b: Seq<u8>) -> Option<(Seq<Seq<u8>>, Seq<u8>)> {
    if b.len() >= 8 {
        take_points::<C>(b.skip(8), u64_from_le(b) as nat)
    } else {
        None
    }
}

/// A public share read from the front of `b`.
pub open spec fn take_share(b: Seq<u8>) -> Option<
    ((Seq<Seq<u8>>, Seq<u8>, Seq<Seq<u8>>, Seq<Seq<u8>>), Seq<u8>),
> {
    match take_seq::<G1>(b) {
        Some((f, r1)) => match take_point::<G2>(r1) {
            Some((u, r2)) => match take_seq::<G1>(r2) {
                Some((a, r3)) => match take_seq::<G2>(r3) {
                    Some((y, r4)) => Some(((f, u, a, y), r4)),
                    None => None,
                },
                None => None,
            },
            None => None,
        },
        None => None,
    }
}

/// Every element is a canonical encoding of a point of `C`.
pub open spec fn valid_points<C: CurveGroup>(ps: Seq<Seq<u8>>) -> bool {
    forall|i: int|
        0 <= i < ps.len() ==> #[trigger] C::spec_canonical(ps[i]) == Some(ps[i]) && ps[i].len()
            == C::spec_len()
}

/// Every point of a public share is canonical, and every sequence is short
/// enough for its length prefix.
pub open spec fn valid_share(v: (Seq<Seq<u8>>, Seq<u8>, Seq<Seq<u8>>, Seq<Seq<u8>>)) -> bool {
    &&& valid_points::<G1>(v.0) && v.0.len() <= u64::MAX
    &&& G2::spec_canonical(v.1) == Some(v.1) && v.1.len() == G2::spec_len()
    &&& valid_points::<G1>(v.2) && v.2.len() <= u64::MAX
    &&& valid_points::<G2>(v.3) && v.3.len() <= u64::MAX
}

/// Reading back the encoding of a canonical point gives the point.
pub proof fn lemma_point_round_trip<C: CurveGroup>(p: Seq<u8>, rest: Seq<u8>)
    requires
        C::spec_canonical(p) == Some(p),
        p.len() == C::spec_len(),
    ensures
        take_point::<C>(p + rest) == Some((p, rest)),
{
    assert((p + rest).take(p.len() as int) =~= p);
    assert((p + rest).skip(p.len() as int) =~= rest);
}

/// Reading back the encodings of canonical points gives the points.
pub proof fn lemma_points_round_trip<C: CurveGroup>(ps: Seq<Seq<u8>>, rest: Seq<u8>)
    requires
        valid_points::<C>(ps),
    ensures
        take_points::<C>(points_bytes(ps) + rest, ps.len()) == Some((ps, rest)),
    decreases ps.len(),
{
    if ps.len() > 0 {
        let init = ps.drop_last();
        let last = ps.last();
        assert(valid_points::<C>(init)) by {
            assert forall|i: int| 0 <= i < init.len() implies #[trigger] C::spec_canonical(init[i])
                == Some(init[i]) && init[i].len() == C::spec_len() by {
                assert(init[i] == ps[i]);
            }
        }
        assert(points_bytes(ps) + rest =~= points_bytes(init) + (last + rest));
        lemma_points_round_trip::<C>(init, last + rest);
        assert(C::spec_canonical(ps[ps.len() - 1]) == Some(ps[ps.len() - 1]));
        lemma_point_round_trip::<C>(last, rest);
        assert(init.push(last) =~= ps);
    }
}

/// Reading back a length-prefixed sequence of canonical points gives it.
pub proof fn lemma_seq_round_trip<C: CurveGroup>(ps: Seq<Seq<u8>>, rest: Seq<u8>)
    requires
        valid_points::<C>(ps),
        ps.len() <= u64::MAX,
    ensures
        take_seq::<C>(seq_bytes(ps) + rest) == Some((ps, rest)),
{
    let b = seq_bytes(ps) + rest;
    lemma_u64_round_trip(ps.len() as u64);
    assert(b.take(8) =~= u64_le(ps.len() as u64));
    assert(u64_from_le(b) == u64_from_le(b.take(8)));
    assert(b.skip(8) =~= points_bytes(ps) + rest);
    lemma_points_round_trip::<C>(ps, rest);
}

/// Decoding the encoding of a public share gives the share back.
pub proof fn lemma_share_round_trip(
    v: (Seq<Seq<u8>>, Seq<u8>, Seq<Seq<u8>>, Seq<Seq<u8>>),
    rest: Seq<u8>,
)
    requires
        valid_share(v),
    ensures
        take_share(share_bytes(v) + rest) == Some((v, rest)),
{
    let r3 = seq_bytes(v.3) + rest;
    let r2 = seq_bytes(v.2) + r3;
    let r1 = v.1 + r2;
    assert(share_bytes(v) + rest =~= seq_bytes(v.0) + r1);
    lemma_seq_round_trip::<G1>(v.0, r1);
    lemma_point_round_trip::<G2>(v.1, r2);
    lemma_seq_round_trip::<G1>(v.2, r3);
    lemma_seq_round_trip::<G2>(v.3, rest);
}

/// Reading fewer points than a failed read does not help: once `j` points
/// cannot be read, no more can.
pub proof fn lemma_take_points_none<C: CurveGroup>(b: Seq<u8>, j: nat, n: nat)
    requires
        j <= n,
        take_points::<C>(b, j).is_none(),
    ensures
        take_points::<C>(b, n).is_none(),
    decreases n - j,
{
    if j < n {
        lemma_take_points_none::<C>(b, j, (n - 1) as nat);
    }
}

/// Appends the little-endian bytes of `x`.
pub fn put_u64(out: &mut Vec<u8>, x: u64)
    ensures
        final(out)@ == old(out)@ + u64_le(x),
{
    out.push(x as u8);
    out.push((x >> 8u64) as u8);
    out.push((x >> 16u64) as u8);
    out.push((x >> 24u64) as u8);
    out.push((x >> 32u64) as u8);
    out.push((x >> 40u64) as u8);
    out.push((x >> 48u64) as u8);
    out.push((x >> 56u64) as u8);
    assert(out@ =~= old(out)@ + u64_le(x));
}

/// Appends a length-prefixed sequence of points.
pub fn put_points<C: CurveGroup>(out: &mut Vec<u8>, ps: &Vec<C>)
    ensures
        final(out)@ == old(out)@ + seq_bytes(points_view(ps@)),
        valid_points::<C>(points_view(ps@)),
        points_view(ps@).len() <= u64::MAX,
{
    let ghost vs = points_view(ps@);
    put_u64(out, ps.len() as u64);
    let ghost start = out@;
    let mut k: usize = 0;
    while k < ps.len()
        invariant
            k <= ps.len(),
            vs == points_view(ps@),
            start == old(out)@ + u64_le(ps.len() as u64),
            out@ == start + points_bytes(vs.take(k as int)),
            forall|i: int|
                0 <= i < k ==> #[trigger] C::spec_canonical(vs[i]) == Some(vs[i]) && vs[i].len()
                    == C::spec_len(),
        decreases ps.len() - k,
    {
        let b = ps[k].encode();
        append_bytes(out, b.as_slice());
        assert(vs.take(k + 1).drop_last() =~= vs.take(k as int));
        assert(vs.take(k + 1).last() == vs[k as int]);
        k += 1;
        assert(out@ =~= start + points_bytes(vs.take(k as int)));
    }
    assert(vs.take(ps.len() as int) =~= vs);
    assert(out@ =~= old(out)@ + seq_bytes(vs));
}

/// Reads a little-endian integer at `pos`.
pub fn get_u64(b: &[u8], pos: usize) -> (r: Option<u64>)
    requires
        pos <= b@.len(),
    ensures
        b@.len() - pos >= 8 ==> r == Some(u64_from_le(b@.skip(pos as int))),
        b@.len() - pos < 8 ==> r.is_none(),
{
    if b.len() - pos < 8 {
        return None;
    }
    let x = (b[pos] as u64) | ((b[pos + 1] as u64) << 8u64) | ((b[pos + 2] as u64) << 16u64) | ((
    b[pos + 3] as u64) << 24u64) | ((b[pos + 4] as u64) << 32u64) | ((b[pos + 5] as u64) << 40u64)
        | ((b[pos + 6] as u64) << 48u64) | ((b[pos + 7] as u64) << 56u64);
    assert(x == u64_from_le(b@.skip(pos as int)));
    Some(x)
}

/// Reads one point at `pos`.
pub fn get_point<C: CurveGroup>(b: &[u8], pos: usize) -> (r: Option<(C, usize)>)
    requires
        pos <= b@.len(),
    ensures
        match take_point::<C>(b@.skip(pos as int)) {
            Some((p, rest)) => r matches Some((q, np)) && q@ == p && np <= b@.len() && b@.skip(
                np as int,
            ) == rest,
            None => r.is_none(),
        },
{
    let l = C::encoded_len();
    if b.len() - pos < l {
        return None;
    }
    let mut v: Vec<u8> = Vec::new();
    let mut k: usize = 0;
    while k < l
        invariant
            k <= l,
            pos + l <= b.len(),
            b.len() == b@.len(),
            v@ == b@.subrange(pos as int, pos + k),
        decreases l - k,
    {
        v.push(b[pos + k]);
        k += 1;
        assert(v@ =~= b@.subrange(pos as int, pos + k));
    }
    assert(v@ =~= b@.skip(pos as int).take(l as int));
    assert(b@.skip(pos as int).skip(l as int) =~= b@.skip(pos + l));
    match C::decode(v) {
        Some(q) => Some((q, pos + l)),
        None => None,
    }
}

/// Reads one scalar at `pos`.
pub fn get_scalar(b: &[u8], pos: usize) -> (r: Option<(Scalar, usize)>)
    requires
        pos <= b@.len(),
    ensures
        match take_scalar(b@.skip(pos as int)) {
            Some((k, rest)) => r matches Some((q, np)) && q@ == k && np <= b@.len() && b@.skip(
                np as int,
            ) == rest,
            None => r.is_none(),
        },
{
    let l = SCALAR_LEN;
    if b.len() - pos < l {
        return None;
    }
    let mut v: Vec<u8> = Vec::new();
    let mut k: usize = 0;
    while k < l
        invariant
            k <= l,
            l == SCALAR_LEN,
            pos + l <= b.len(),
            b.len() == b@.len(),
            v@ == b@.subrange(pos as int, pos + k),
        decreases l - k,
    {
        v.push(b[pos + k]);
        k += 1;
        assert(v@ =~= b@.subrange(pos as int, pos + k));
    }
    assert(v@ =~= b@.skip(pos as int).take(l as int));
    assert(b@.skip(pos as int).skip(l as int) =~= b@.skip(pos + l));
    match Scalar::from_bytes(v) {
        Some(q) => Some((q, pos + l)),
        None => None,
    }
}

/// Reads a length-prefixed sequence of points at `pos`.
pub fn get_seq<C: CurveGroup>(b: &[u8], pos: usize) -> (r: Option<(Vec<C>, usize)>)
    requires
        pos <= b@.len(),
    ensures
        match take_seq::<C>(b@.skip(pos as int)) {
            Some((ps, rest)) => r matches Some((qs, np)) && points_view(qs@) == ps && np
                <= b@.len() && b@.skip(np as int) == rest,
            None => r.is_none(),
        },
{
    let n = match get_u64(b, pos) {
        Some(n) => n,
        None => return None,
    };
    assert(b@.len() - pos >= 8);
    assert(b@.len() == b.len());
    let ghost start = b@.skip(pos as int).skip(8);
    assert(start =~= b@.skip(pos + 8));
    let mut cur: usize = pos + 8;
    let mut qs: Vec<C> = Vec::new();
    let mut k: u64 = 0;
    while k < n
        invariant
            k <= n,
            cur <= b@.len(),
            start == b@.skip(pos + 8),
            start == b@.skip(pos as int).skip(8),
            b@.skip(pos as int).len() >= 8,
            n == u64_from_le(b@.skip(pos as int)),
            take_points::<C>(start, k as nat) == Some((points_view(qs@), b@.skip(cur as int))),
        decreases n - k,
    {
        match get_point::<C>(b, cur) {
            Some((q, next)) => {
                let ghost before = points_view(qs@);
                qs.push(q);
                assert(points_view(qs@) =~= before.push(qs@[qs@.len() - 1]@));
                cur = next;
            },
            None => {
                proof {
                    assert(take_points::<C>(start, (k + 1) as nat).is_none());
                    lemma_take_points_none::<C>(start, (k + 1) as nat, n as nat);
                    assert(take_seq::<C>(b@.skip(pos as int)).is_none());
                }
                return None;
            },
        }
        k += 1;
    }
    assert(take_seq::<C>(b@.skip(pos as int)) == Some((points_view(qs@), b@.skip(cur as int))));
    Some((qs, cur))
}

impl PVSSShare {
    /// The wire encoding.
    pub fn to_bytes(&self) -> (r: Vec<u8>)
        ensures
            r@ == share_bytes(self@),
            valid_share(self@),
    {
        let mut out: Vec<u8> = Vec::new();
        put_points(&mut out, &self.f_i);
        let u = self.u_i_2.encode();
        append_bytes(&mut out, u.as_slice());
        put_points(&mut out, &self.a_i);
        put_points(&mut out, &self.y_i);
        assert(out@ =~= share_bytes(self@));
        out
    }

    /// Decodes the wire encoding of a share, which must take all of `b`.
    pub fn from_bytes(b: &[u8]) -> (r: Option<PVSSShare>)
        ensures
            r.is_some() <==> (take_share(b@) matches Some((v, rest)) && rest.len() == 0),
            r matches Some(s) ==> take_share(b@) == Some((s@, Seq::<u8>::empty())),
    {
        assert(b@.skip(0) =~= b@);
        let (share, p) = match get_share(b, 0) {
            Some(x) => x,
            None => return None,
        };
        if p != b.len() {
            return None;
        }
        assert(b@.skip(p as int) =~= Seq::<u8>::empty());
        Some(share)
    }
}

/// Reads a public share at `pos`.
pub fn get_share(b: &[u8], pos: usize) -> (r: Option<(PVSSShare, usize)>)
    requires
        pos <= b@.len(),
    ensures
        match take_share(b@.skip(pos as int)) {
            Some((v, rest)) => r matches Some((s, np)) && s@ == v && np <= b@.len() && b@.skip(
                np as int,
            ) == rest,
            None => r.is_none(),
        },
{
    let (f_i, at_first) = match get_seq::<G1>(b, pos) {
        Some(x) => x,
        None => return None,
    };
    let (u_i_2, at_second) = match get_point::<G2>(b, at_first) {
        Some(x) => x,
        None => return None,
    };
    let (a_i, at_third) = match get_seq::<G1>(b, at_second) {
        Some(x) => x,
        None => return None,
    };
    let (y_i, at_fourth) = match get_seq::<G2>(b, at_third) {
        Some(x) => x,
        None => return None,
    };
    Some((PVSSShare { f_i, u_i_2, a_i, y_i }, at_fourth))
}

/// Decoding the encoding of any public share gives it back.
pub proof fn lemma_pvss_share_encoding(s: &PVSSShare)
    requires
        valid_share(s@),
    ensures
        take_share(share_bytes(s@)) == Some((s@, Seq::<u8>::empty())),
{
    lemma_share_round_trip(s@, Seq::empty());
    assert(share_bytes(s@) + Seq::<u8>::empty() =~= share_bytes(s@));
}

/// The encoding of a dealer's share: its id, public share, commitment,
/// proof of knowledge and signature.
pub open spec fn dkg_share_bytes<SPOK: SignatureScheme, SSIG: SignatureScheme>(
    id: usize,
    pvss: (Seq<Seq<u8>>, Seq<u8>, Seq<Seq<u8>>, Seq<Seq<u8>>),
    c: Seq<u8>,
    pok: <SPOK::Signature as View>::V,
    sig: <SSIG::Signature as View>::V,
) -> Seq<u8> {
    u64_le(id as u64) + share_bytes(pvss) + c + SPOK::spec_signature_bytes(pok)
        + SSIG::spec_signature_bytes(sig)
}

/// A dealer's share read from the front of `b`.
pub open spec fn take_dkg_share<SPOK: SignatureScheme, SSIG: SignatureScheme>(b: Seq<u8>) -> Option<
    (
        (
            usize,
            (Seq<Seq<u8>>, Seq<u8>, Seq<Seq<u8>>, Seq<Seq<u8>>),
            Seq<u8>,
            <SPOK::Signature as View>::V,
            <SSIG::Signature as View>::V,
        ),
        Seq<u8>,
    ),
> {
    if b.len() < 8 || u64_from_le(b) > usize::MAX {
        None
    } else {
        match take_share(b.skip(8)) {
            Some((pvss, r1)) => match take_point::<G1>(r1) {
                Some((c, r2)) => match SPOK::spec_take_signature(r2) {
                    Some((pok, r3)) => match SSIG::spec_take_signature(r3) {
                        Some((sig, r4)) => Some(
                            ((u64_from_le(b) as usize, pvss, c, pok, sig), r4),
                        ),
                        None => None,
                    },
                    None => None,
                },
                None => None,
            },
            None => None,
        }
    }
}

/// Decoding the encoding of a dealer's share gives it back.
pub proof fn lemma_dkg_share_round_trip<SPOK: SignatureScheme, SSIG: SignatureScheme>(
    id: usize,
    pvss: (Seq<Seq<u8>>, Seq<u8>, Seq<Seq<u8>>, Seq<Seq<u8>>),
    c: Seq<u8>,
    pok: <SPOK::Signature as View>::V,
    sig: <SSIG::Signature as View>::V,
    rest: Seq<u8>,
)
    requires
        valid_share(pvss),
        G1::spec_canonical(c) == Some(c),
        c.len() == G1::spec_len(),
        SPOK::spec_valid_signature(pok),
        SSIG::spec_valid_signature(sig),
    ensures
        take_dkg_share::<SPOK, SSIG>(dkg_share_bytes::<SPOK, SSIG>(id, pvss, c, pok, sig) + rest)
            == Some(((id, pvss, c, pok, sig), rest)),
{
    let r4 = rest;
    let r3 = SSIG::spec_signature_bytes(sig) + r4;
    let r2 = SPOK::spec_signature_bytes(pok) + r3;
    let r1 = c + r2;
    let b = dkg_share_bytes::<SPOK, SSIG>(id, pvss, c, pok, sig) + rest;
    assert(b =~= u64_le(id as u64) + (share_bytes(pvss) + r1));
    lemma_u64_round_trip(id as u64);
    assert(b.take(8) =~= u64_le(id as u64));
    assert(u64_from_le(b) == u64_from_le(b.take(8)));
    assert(b.skip(8) =~= share_bytes(pvss) + r1);
    lemma_share_round_trip(pvss, r1);
    lemma_point_round_trip::<G1>(c, r2);
    SPOK::lemma_signature_round_trip(pok, r3);
    SSIG::lemma_signature_round_trip(sig, r4);
}

impl<SPOK: SignatureScheme, SSIG: SignatureScheme> DKGShare<SPOK, SSIG> {
    /// The wire encoding.
    pub fn to_bytes(&self) -> (r: Vec<u8>)
        ensures
            r@ == dkg_share_bytes::<SPOK, SSIG>(
                self.participant_id,
                self.pvss_share@,
                self.c_i@,
                self.c_i_pok@,
                self.signature_on_c_i@,
            ),
            valid_share(self.pvss_share@),
            G1::spec_canonical(self.c_i@) == Some(self.c_i@),
            self.c_i@.len() == G1::spec_len(),
            SPOK::spec_valid_signature(self.c_i_pok@),
            SSIG::spec_valid_signature(self.signature_on_c_i@),
    {
        let mut out: Vec<u8> = Vec::new();
        put_u64(&mut out, self.participant_id as u64);
        let pvss = self.pvss_share.to_bytes();
        append_bytes(&mut out, pvss.as_slice());
        let c = self.c_i.encode();
        append_bytes(&mut out, c.as_slice());
        let pok = SPOK::encode_signature(&self.c_i_pok);
        append_bytes(&mut out, pok.as_slice());
        let sig = SSIG::encode_signature(&self.signature_on_c_i);
        append_bytes(&mut out, sig.as_slice());
        assert(out@ =~= dkg_share_bytes::<SPOK, SSIG>(
            self.participant_id,
            self.pvss_share@,
            self.c_i@,
            self.c_i_pok@,
            self.signature_on_c_i@,
        ));
        out
    }

    /// Decodes the wire encoding of a dealer's share, which must take all
    /// of `b`.
    pub fn from_bytes(b: &[u8]) -> (r: Option<Self>)
        ensures
            r.is_some() <==> (take_dkg_share::<SPOK, SSIG>(b@) matches Some((v, rest))
                && rest.len() == 0),
            r matches Some(s) ==> take_dkg_share::<SPOK, SSIG>(b@) == Some(
                (
                    (
                        s.participant_id,
                        s.pvss_share@,
                        s.c_i@,
                        s.c_i_pok@,
                        s.signature_on_c_i@,
                    ),
                    Seq::<u8>::empty(),
                ),
            ),
    {
        let id = match get_u64(b, 0) {
            Some(x) => x,
            None => return None,
        };
        assert(b@.skip(0) =~= b@);
        if id > usize::MAX as u64 {
            return None;
        }
        assert(b@.skip(8) =~= b@.skip(0).skip(8));
        let (pvss_share, at_first) = match get_share(b, 8) {
            Some(x) => x,
            None => return None,
        };
        let (c_i, at_second) = match get_point::<G1>(b, at_first) {
            Some(x) => x,
            None => return None,
        };
        let (c_i_pok, at_third) = match SPOK::decode_signature(b, at_second) {
            Some(x) => x,
            None => return None,
        };
        let (signature_on_c_i, at_fourth) = match SSIG::decode_signature(b, at_third) {
            Some(x) => x,
            None => return None,
        };
        if at_fourth != b.len() {
            return None;
        }
        assert(b@.skip(at_fourth as int) =~= Seq::<u8>::empty());
        Some(DKGShare { participant_id: id as usize, pvss_share, c_i, c_i_pok, signature_on_c_i })
    }
}

/// The encoding of a transcript entry with its id.
pub open spec fn entry_bytes<SPOK: SignatureScheme, SSIG: SignatureScheme>(
    e: (usize, EntryView<SPOK, SSIG>),
) -> Seq<u8> {
    u64_le(e.0 as u64) + e.1.0 + u64_le(e.1.1) + SPOK::spec_signature_bytes(e.1.2)
        + SSIG::spec_signature_bytes(e.1.3)
}

/// The encodings of listed entries, back to back.
pub open spec fn entries_bytes<SPOK: SignatureScheme, SSIG: SignatureScheme>(
    es: Seq<(usize, EntryView<SPOK, SSIG>)>,
) -> Seq<u8>
    decreases es.len(),
{
    if es.len() == 0 {
        Seq::empty()
    } else {
        entries_bytes::<SPOK, SSIG>(es.drop_last()) + entry_bytes::<SPOK, SSIG>(es.last())
    }
}

/// The encoding of a transcript whose entries, listed by increasing id,
/// are `es`.
pub open spec fn transcript_bytes<SPOK: SignatureScheme, SSIG: SignatureScheme>(
    degree: usize,
    num_participants: usize,
    es: Seq<(usize, EntryView<SPOK, SSIG>)>,
    pvss: (Seq<Seq<u8>>, Seq<u8>, Seq<Seq<u8>>, Seq<Seq<u8>>),
) -> Seq<u8> {
    u64_le(degree as u64) + u64_le(num_participants as u64) + u64_le(es.len() as u64)
        + entries_bytes::<SPOK, SSIG>(es) + share_bytes(pvss)
}

/// An integer that fits `usize`, read from the front of `b`.
pub open spec fn take_usize(b: Seq<u8>) -> Option<(usize, Seq<u8>)> {
    if b.len() >= 8 && u64_from_le(b) <= usize::MAX {
        Some((u64_from_le(b) as usize, b.skip(8)))
    } else {
        None
    }
}

/// One entry with its id read from the front of `b`.
pub open spec fn take_entry<SPOK: SignatureScheme, SSIG: SignatureScheme>(b: Seq<u8>) -> Option<
    ((usize, EntryView<SPOK, SSIG>), Seq<u8>),
> {
    match take_usize(b) {
        Some((id, r1)) => match take_point::<G1>(r1) {
            Some((c, r2)) => if r2.len() >= 8 {
                match SPOK::spec_take_signature(r2.skip(8)) {
                    Some((pok, r3)) => match SSIG::spec_take_signature(r3) {
                        Some((sig, r4)) => Some(((id, (c, u64_from_le(r2), pok, sig)), r4)),
                        None => None,
                    },
                    None => None,
                }
            } else {
                None
            },
            None => None,
        },
        None => None,
    }
}

/// `n` entries read from the front of `b`, with strictly increasing ids.
pub open spec fn take_entries<SPOK: SignatureScheme, SSIG: SignatureScheme>(
    b: Seq<u8>,
    n: nat,
) -> Option<(Seq<(usize, EntryView<SPOK, SSIG>)>, Seq<u8>)>
    decreases n,
{
    if n == 0 {
        Some((Seq::empty(), b))
    } else {
        match take_entries::<SPOK, SSIG>(b, (n - 1) as nat) {
            Some((es, r)) => match take_entry::<SPOK, SSIG>(r) {
                Some((e, r2)) => if es.len() == 0 || es.last().0 < e.0 {
                    Some((es.push(e), r2))
                } else {
                    None
                },
                None => None,
            },
            None => None,
        }
    }
}

/// A transcript read from the front of `b`: degree, number of
/// participants, entries by increasing id, and public share.
pub open spec fn take_transcript<SPOK: SignatureScheme, SSIG: SignatureScheme>(b: Seq<u8>) -> Option<
    (
        (
            usize,
            usize,
            Seq<(usize, EntryView<SPOK, SSIG>)>,
            (Seq<Seq<u8>>, Seq<u8>, Seq<Seq<u8>>, Seq<Seq<u8>>),
        ),
        Seq<u8>,
    ),
> {
    match take_usize(b) {
        Some((d, r1)) => match take_usize(r1) {
            Some((n, r2)) => if r2.len() >= 8 {
                match take_entries::<SPOK, SSIG>(r2.skip(8), u64_from_le(r2) as nat) {
                    Some((es, r3)) => match take_share(r3) {
                        Some((pvss, r4)) => Some(((d, n, es, pvss), r4)),
                        None => None,
                    },
                    None => None,
                }
            } else {
                None
            },
            None => None,
        },
        None => None,
    }
}

/// The map that listed entries describe.
pub open spec fn map_of<V>(es: Seq<(usize, V)>) -> Map<usize, V>
    decreases es.len(),
{
    if es.len() == 0 {
        Map::empty()
    } else {
        map_of(es.drop_last()).insert(es.last().0, es.last().1)
    }
}

/// Ids increase strictly along the list.
pub open spec fn increasing_ids<V>(es: Seq<(usize, V)>) -> bool {
    forall|i: int, j: int| 0 <= i < j < es.len() ==> (#[trigger] es[i].0) < (#[trigger] es[j].0)
}

/// `es` lists the entries of `m` by increasing id.
pub open spec fn lists<V>(m: Map<usize, V>, es: Seq<(usize, V)>) -> bool {
    &&& increasing_ids(es)
    &&& forall|i: int| 0 <= i < es.len() ==> #[trigger] m.contains_key(es[i].0) && m[es[i].0] == es[i].1
    &&& forall|k: usize| #[trigger] m.contains_key(k) ==> exists|i: int| 0 <= i < es.len() && es[i].0 == k
}

/// The map of a list with increasing ids holds exactly its entries.
pub proof fn lemma_map_of<V>(es: Seq<(usize, V)>)
    requires
        increasing_ids(es),
    ensures
        forall|i: int|
            0 <= i < es.len() ==> #[trigger] map_of(es).contains_key(es[i].0) && map_of(es)[es[i].0]
                == es[i].1,
        forall|k: usize| #[trigger]
            map_of(es).contains_key(k) ==> exists|i: int| 0 <= i < es.len() && es[i].0 == k,
    decreases es.len(),
{
    if es.len() > 0 {
        let n = es.len() - 1;
        let init = es.drop_last();
        let last = es[n];
        assert(init.len() == n);
        assert forall|i: int| 0 <= i < n implies init[i] == es[i] by {}
        assert(increasing_ids(init)) by {
            assert forall|i: int, j: int| 0 <= i < j < init.len() implies (#[trigger] init[i].0) < (
            #[trigger] init[j].0) by {
                assert(init[i] == es[i] && init[j] == es[j]);
            }
        }
        lemma_map_of(init);
        let m0 = map_of(init);
        assert(map_of(es) == m0.insert(last.0, last.1));
        assert forall|i: int| 0 <= i < es.len() implies #[trigger] map_of(es).contains_key(es[i].0)
            && map_of(es)[es[i].0] == es[i].1 by {
            if i < n {
                assert(init[i] == es[i]);
                assert(es[i].0 < last.0);
                assert(m0.contains_key(init[i].0));
            }
        }
        assert forall|k: usize| #[trigger] map_of(es).contains_key(k) implies exists|i: int|
            0 <= i < es.len() && es[i].0 == k by {
            if k != last.0 {
                assert(m0.contains_key(k));
                let i = choose|i: int| 0 <= i < init.len() && init[i].0 == k;
                assert(es[i] == init[i]);
            } else {
                assert(es[n].0 == k);
            }
        }
    }
}

/// A list of the entries of `m` describes `m`.
pub proof fn lemma_map_of_lists<V>(m: Map<usize, V>, es: Seq<(usize, V)>)
    requires
        lists(m, es),
    ensures
        map_of(es) == m,
{
    lemma_map_of(es);
    assert forall|k: usize| #[trigger] m.contains_key(k) implies map_of(es).contains_key(k)
        && map_of(es)[k] == m[k] by {
        let i = choose|i: int| 0 <= i < es.len() && es[i].0 == k;
        assert(map_of(es).contains_key(es[i].0));
        assert(m.contains_key(es[i].0));
    }
    assert forall|k: usize| #[trigger] map_of(es).contains_key(k) implies m.contains_key(k) by {
        let i = choose|i: int| 0 <= i < es.len() && es[i].0 == k;
        assert(m.contains_key(es[i].0));
    }
    assert(map_of(es) =~= m);
}

/// Every part of a listed entry is a canonical encoding.
pub open spec fn valid_entries<SPOK: SignatureScheme, SSIG: SignatureScheme>(
    es: Seq<(usize, EntryView<SPOK, SSIG>)>,
) -> bool {
    forall|i: int|
        0 <= i < es.len() ==> {
            &&& G1::spec_canonical(#[trigger] es[i].1.0) == Some(es[i].1.0)
            &&& es[i].1.0.len() == G1::spec_len()
            &&& SPOK::spec_valid_signature(es[i].1.2)
            &&& SSIG::spec_valid_signature(es[i].1.3)
        }
}

/// Reading back the encodings of valid entries with increasing ids gives
/// the entries.
pub proof fn lemma_entries_round_trip<SPOK: SignatureScheme, SSIG: SignatureScheme>(
    es: Seq<(usize, EntryView<SPOK, SSIG>)>,
    rest: Seq<u8>,
)
    requires
        valid_entries::<SPOK, SSIG>(es),
        increasing_ids(es),
    ensures
        take_entries::<SPOK, SSIG>(entries_bytes::<SPOK, SSIG>(es) + rest, es.len()) == Some(
            (es, rest),
        ),
    decreases es.len(),
{
    if es.len() > 0 {
        let init = es.drop_last();
        let e = es.last();
        assert(valid_entries::<SPOK, SSIG>(init)) by {
            assert forall|i: int| 0 <= i < init.len() implies {
                &&& G1::spec_canonical(#[trigger] init[i].1.0) == Some(init[i].1.0)
                &&& init[i].1.0.len() == G1::spec_len()
                &&& SPOK::spec_valid_signature(init[i].1.2)
                &&& SSIG::spec_valid_signature(init[i].1.3)
            } by {
                assert(init[i] == es[i]);
            }
        }
        assert(increasing_ids(init)) by {
            assert forall|i: int, j: int| 0 <= i < j < init.len() implies (#[trigger] init[i].0) < (
            #[trigger] init[j].0) by {
                assert(init[i] == es[i] && init[j] == es[j]);
            }
        }
        let eb = entry_bytes::<SPOK, SSIG>(e);
        assert(entries_bytes::<SPOK, SSIG>(es) + rest =~= entries_bytes::<SPOK, SSIG>(init) + (eb
            + rest));
        lemma_entries_round_trip::<SPOK, SSIG>(init, eb + rest);
        // The entry itself.
        let r4 = rest;
        let r3 = SSIG::spec_signature_bytes(e.1.3) + r4;
        let r2 = u64_le(e.1.1) + (SPOK::spec_signature_bytes(e.1.2) + r3);
        let r1 = e.1.0 + r2;
        assert(eb + rest =~= u64_le(e.0 as u64) + r1);
        lemma_u64_round_trip(e.0 as u64);
        assert((eb + rest).take(8) =~= u64_le(e.0 as u64));
        assert(u64_from_le(eb + rest) == u64_from_le((eb + rest).take(8)));
        assert((eb + rest).skip(8) =~= r1);
        assert(G1::spec_canonical(es[es.len() - 1].1.0) == Some(es[es.len() - 1].1.0));
        lemma_point_round_trip::<G1>(e.1.0, r2);
        lemma_u64_round_trip(e.1.1);
        assert(r2.take(8) =~= u64_le(e.1.1));
        assert(u64_from_le(r2) == u64_from_le(r2.take(8)));
        assert(r2.skip(8) =~= SPOK::spec_signature_bytes(e.1.2) + r3);
        SPOK::lemma_signature_round_trip(e.1.2, r3);
        SSIG::lemma_signature_round_trip(e.1.3, r4);
        assert(take_entry::<SPOK, SSIG>(eb + rest) == Some((e, rest)));
        if init.len() > 0 {
            assert(init.last().0 < e.0);
        }
        assert(init.push(e) =~= es);
    }
}

/// Decoding the encoding of a transcript gives back its degree, number of
/// participants, listed entries and public share.
pub proof fn lemma_transcript_round_trip<SPOK: SignatureScheme, SSIG: SignatureScheme>(
    degree: usize,
    num_participants: usize,
    es: Seq<(usize, EntryView<SPOK, SSIG>)>,
    pvss: (Seq<Seq<u8>>, Seq<u8>, Seq<Seq<u8>>, Seq<Seq<u8>>),
    rest: Seq<u8>,
)
    requires
        valid_entries::<SPOK, SSIG>(es),
        increasing_ids(es),
        es.len() <= u64::MAX,
        valid_share(pvss),
    ensures
        take_transcript::<SPOK, SSIG>(
            transcript_bytes::<SPOK, SSIG>(degree, num_participants, es, pvss) + rest,
        ) == Some(((degree, num_participants, es, pvss), rest)),
{
    let r3 = share_bytes(pvss) + rest;
    let r2b = entries_bytes::<SPOK, SSIG>(es) + r3;
    let r2 = u64_le(es.len() as u64) + r2b;
    let r1 = u64_le(num_participants as u64) + r2;
    let b = transcript_bytes::<SPOK, SSIG>(degree, num_participants, es, pvss) + rest;
    assert(b =~= u64_le(degree as u64) + r1);
    lemma_u64_round_trip(degree as u64);
    assert(b.take(8) =~= u64_le(degree as u64));
    assert(u64_from_le(b) == u64_from_le(b.take(8)));
    assert(b.skip(8) =~= r1);
    lemma_u64_round_trip(num_participants as u64);
    assert(r1.take(8) =~= u64_le(num_participants as u64));
    assert(u64_from_le(r1) == u64_from_le(r1.take(8)));
    assert(r1.skip(8) =~= r2);
    lemma_u64_round_trip(es.len() as u64);
    assert(r2.take(8) =~= u64_le(es.len() as u64));
    assert(u64_from_le(r2) == u64_from_le(r2.take(8)));
    assert(r2.skip(8) =~= r2b);
    lemma_entries_round_trip::<SPOK, SSIG>(es, r3);
    lemma_share_round_trip(pvss, rest);
}

/// Once `j` entries cannot be read, no more can.
pub proof fn lemma_take_entries_none<SPOK: SignatureScheme, SSIG: SignatureScheme>(
    b: Seq<u8>,
    j: nat,
    n: nat,
)
    requires
        j <= n,
        take_entries::<SPOK, SSIG>(b, j).is_none(),
    ensures
        take_entries::<SPOK, SSIG>(b, n).is_none(),
    decreases n - j,
{
    if j < n {
        lemma_take_entries_none::<SPOK, SSIG>(b, j, (n - 1) as nat);
    }
}

/// Reads an integer that fits `usize` at `pos`.
pub fn get_usize(b: &[u8], pos: usize) -> (r: Option<usize>)
    requires
        pos <= b@.len(),
    ensures
        match take_usize(b@.skip(pos as int)) {
            Some((x, rest)) => r == Some(x) && pos + 8 <= b@.len() && b@.skip(pos + 8) == rest,
            None => r.is_none(),
        },
{
    let x = match get_u64(b, pos) {
        Some(x) => x,
        None => return None,
    };
    if x > usize::MAX as u64 {
        return None;
    }
    assert(b@.skip(pos as int).skip(8) =~= b@.skip(pos + 8));
    Some(x as usize)
}

/// Reads one entry with its id at `pos`.
pub fn get_entry<SPOK: SignatureScheme, SSIG: SignatureScheme>(b: &[u8], pos: usize) -> (r: Option<
    (usize, DKGTranscriptParticipant<SPOK, SSIG>, usize),
>)
    requires
        pos <= b@.len(),
    ensures
        match take_entry::<SPOK, SSIG>(b@.skip(pos as int)) {
            Some((e, rest)) => r matches Some((id, p, np)) && id == e.0 && p@ == e.1 && np
                <= b@.len() && b@.skip(np as int) == rest,
            None => r.is_none(),
        },
{
    let id = match get_usize(b, pos) {
        Some(x) => x,
        None => return None,
    };
    assert(pos + 8 <= b@.len() && b@.len() == b.len());
    let (c_i, at_first) = match get_point::<G1>(b, pos + 8) {
        Some(x) => x,
        None => return None,
    };
    let weight = match get_u64(b, at_first) {
        Some(x) => x,
        None => return None,
    };
    assert(at_first + 8 <= b@.len() && b@.len() == b.len());
    assert(b@.skip(at_first as int).skip(8) =~= b@.skip(at_first + 8));
    let (c_i_pok, at_second) = match SPOK::decode_signature(b, at_first + 8) {
        Some(x) => x,
        None => return None,
    };
    let (signature_on_c_i, at_third) = match SSIG::decode_signature(b, at_second) {
        Some(x) => x,
        None => return None,
    };
    Some((id, DKGTranscriptParticipant { c_i, weight, c_i_pok, signature_on_c_i }, at_third))
}

impl<SPOK: SignatureScheme, SSIG: SignatureScheme> DKGTranscript<SPOK, SSIG> {
    /// The wire encoding: the entries go by increasing id.
    pub fn to_bytes(&self) -> (r: Vec<u8>)
        ensures
            exists|es: Seq<(usize, EntryView<SPOK, SSIG>)>|
                {
                    &&& lists(self.entries(), es)
                    &&& valid_entries::<SPOK, SSIG>(es)
                    &&& es.len() <= u64::MAX
                    &&& r@ == transcript_bytes::<SPOK, SSIG>(
                        self.degree,
                        self.num_participants,
                        es,
                        self.pvss_share@,
                    )
                },
            valid_share(self.pvss_share@),
    {
        let ghost m = self.entries();
        let mut out: Vec<u8> = Vec::new();
        put_u64(&mut out, self.degree as u64);
        put_u64(&mut out, self.num_participants as u64);
        put_u64(&mut out, self.contributions.len() as u64);
        let ghost start = out@;
        let ghost mut es: Seq<(usize, EntryView<SPOK, SSIG>)> = Seq::empty();
        let entries_iter = self.contributions.iter();
        let ghost full = entries_iter.remaining();
        proof {
            assert(full == spec_btree_map_iter(&self.contributions).remaining());
            assert(m.dom() =~= self.contributions@.dom());
            let keys = full.map_values(|kv: (&usize, &DKGTranscriptParticipant<SPOK, SSIG>)| *kv.0);
            assert(increasing_seq(keys));
            assert forall|i: int, j: int| 0 <= i < j < full.len() implies *full[i].0 < *full[j].0 by {
                assert(keys[i] == *full[i].0);
                assert(keys[j] == *full[j].0);
                assert(keys[i].cmp_spec(&keys[j]) is Less);
            }
        }
        for kv in it: entries_iter
            invariant
                it.seq() == full,
                m == self.entries(),
                full.len() == m.dom().len(),
                self.contributions@.len() == m.dom().len(),
                start == u64_le(self.degree as u64) + u64_le(self.num_participants as u64) + u64_le(
                    self.contributions@.len() as u64,
                ),
                forall|i: int|
                    0 <= i < full.len() ==> self.contributions@.contains_key(*full[i].0)
                        && self.contributions@[*full[i].0] == *full[i].1,
                forall|i: int, j: int| 0 <= i < j < full.len() ==> *full[i].0 < *full[j].0,
                es.len() == it.index(),
                es.len() <= full.len(),
                forall|i: int|
                    0 <= i < es.len() ==> es[i].0 == *full[i].0 && es[i].1 == full[i].1@,
                valid_entries::<SPOK, SSIG>(es),
                out@ == start + entries_bytes::<SPOK, SSIG>(es),
        {
            let (id, entry) = kv;
            let ghost before = out@;
            let ghost e = (*id, entry@);
            put_u64(&mut out, *id as u64);
            let c = entry.c_i.encode();
            append_bytes(&mut out, c.as_slice());
            put_u64(&mut out, entry.weight);
            let pok = SPOK::encode_signature(&entry.c_i_pok);
            append_bytes(&mut out, pok.as_slice());
            let sig = SSIG::encode_signature(&entry.signature_on_c_i);
            append_bytes(&mut out, sig.as_slice());
            proof {
                let old_es = es;
                es = es.push(e);
                assert(es.drop_last() =~= old_es);
                assert(out@ =~= before + entry_bytes::<SPOK, SSIG>(e));
                assert(out@ =~= start + entries_bytes::<SPOK, SSIG>(es));
                assert forall|i: int| 0 <= i < es.len() implies {
                    &&& G1::spec_canonical(#[trigger] es[i].1.0) == Some(es[i].1.0)
                    &&& es[i].1.0.len() == G1::spec_len()
                    &&& SPOK::spec_valid_signature(es[i].1.2)
                    &&& SSIG::spec_valid_signature(es[i].1.3)
                } by {
                    if i < old_es.len() {
                        assert(es[i] == old_es[i]);
                    }
                }
            }
        }
        let pvss = self.pvss_share.to_bytes();
        append_bytes(&mut out, pvss.as_slice());
        proof {
            assert(es.len() == m.dom().len());
            assert(lists(m, es)) by {
                assert forall|i: int| 0 <= i < es.len() implies #[trigger] m.contains_key(es[i].0)
                    && m[es[i].0] == es[i].1 by {
                    assert(self.contributions@.contains_key(*full[i].0));
                }
                assert forall|i: int, j: int| 0 <= i < j < es.len() implies (#[trigger] es[i].0) < (
                #[trigger] es[j].0) by {
                    assert(*full[i].0 < *full[j].0);
                }
                assert forall|k: usize| #[trigger] m.contains_key(k) implies exists|i: int|
                    0 <= i < es.len() && es[i].0 == k by {
                    assert(self.contributions@.contains_key(k));
                    assert(full.contains((&k, &self.contributions@[k])));
                    let j = choose|j: int|
                        0 <= j < full.len() && full[j] == (&k, &self.contributions@[k]);
                    assert(es[j].0 == k);
                }
            }
            assert(out@ =~= transcript_bytes::<SPOK, SSIG>(
                self.degree,
                self.num_participants,
                es,
                self.pvss_share@,
            ));
        }
        out
    }

    /// Decodes the wire encoding of a transcript, which must take all of
    /// `b` and list its entries by strictly increasing id.
    pub fn from_bytes(b: &[u8]) -> (r: Option<Self>)
        ensures
            r.is_some() <==> (take_transcript::<SPOK, SSIG>(b@) matches Some((v, rest))
                && rest.len() == 0),
            r matches Some(t) ==> (take_transcript::<SPOK, SSIG>(b@) matches Some(
                ((d, n, es, pvss), rest),
            ) && t.degree == d && t.num_participants == n && t.entries() == map_of(es)
                && t.pvss_share@ == pvss),
    {
        assert(b@.skip(0) =~= b@);
        let degree = match get_usize(b, 0) {
            Some(x) => x,
            None => return None,
        };
        let num_participants = match get_usize(b, 8) {
            Some(x) => x,
            None => return None,
        };
        let count = match get_u64(b, 16) {
            Some(x) => x,
            None => return None,
        };
        let ghost start = b@.skip(24);
        assert(b@.skip(16).skip(8) =~= start);
        assert(b@.skip(8).skip(8) =~= b@.skip(16));
        assert(b@.skip(16).len() >= 8);
        let mut cur: usize = 24;
        let mut contributions: BTreeMap<usize, DKGTranscriptParticipant<SPOK, SSIG>> =
            BTreeMap::new();
        let ghost mut es: Seq<(usize, EntryView<SPOK, SSIG>)> = Seq::empty();
        let mut last: usize = 0;
        let mut k: u64 = 0;
        assert(map_of(es) =~= contributions_view(contributions@));
        while k < count
            invariant
                k <= count,
                cur <= b@.len(),
                start == b@.skip(24),
                start == b@.skip(16).skip(8),
                b@.skip(8).skip(8) == b@.skip(16),
                b@.skip(16).len() >= 8,
                take_usize(b@) == Some((degree, b@.skip(8))),
                take_usize(b@.skip(8)) == Some((num_participants, b@.skip(16))),
                count == u64_from_le(b@.skip(16)),
                take_entries::<SPOK, SSIG>(start, k as nat) == Some((es, b@.skip(cur as int))),
                contributions_view(contributions@) == map_of(es),
                es.len() == k,
                es.len() > 0 ==> last == es.last().0,
            decreases count - k,
        {
            match get_entry::<SPOK, SSIG>(b, cur) {
                Some((id, entry, next)) => {
                    if k > 0 && id <= last {
                        proof {
                            assert(take_entries::<SPOK, SSIG>(start, (k + 1) as nat).is_none());
                            lemma_take_entries_none::<SPOK, SSIG>(start, (k + 1) as nat, count as nat);
                            assert(take_transcript::<SPOK, SSIG>(b@).is_none());
                        }
                        return None;
                    }
                    let ghost old_es = es;
                    let ghost before = contributions_view(contributions@);
                    proof {
                        es = es.push((id, entry@));
                        assert(es.drop_last() =~= old_es);
                    }
                    let ghost ev = entry@;
                    contributions.insert(id, entry);
                    assert(contributions_view(contributions@) =~= before.insert(id, ev));
                    assert(contributions_view(contributions@) =~= map_of(es));
                    last = id;
                    cur = next;
                },
                None => {
                    proof {
                        assert(take_entries::<SPOK, SSIG>(start, (k + 1) as nat).is_none());
                        lemma_take_entries_none::<SPOK, SSIG>(start, (k + 1) as nat, count as nat);
                        assert(take_transcript::<SPOK, SSIG>(b@).is_none());
                    }
                    return None;
                },
            }
            k += 1;
        }
        let (pvss_share, end) = match get_share(b, cur) {
            Some(x) => x,
            None => {
                assert(take_transcript::<SPOK, SSIG>(b@).is_none());
                return None;
            },
        };
        assert(take_transcript::<SPOK, SSIG>(b@) == Some(
            ((degree, num_participants, es, pvss_share@), b@.skip(end as int)),
        ));
        if end != b.len() {
            return None;
        }
        assert(b@.skip(end as int) =~= Seq::<u8>::empty());
        Some(DKGTranscript { degree, num_participants, contributions, pvss_share })
    }
}

/// Decoding the encoding of any transcript gives a transcript with the same
/// degree, number of participants, entries and public share.
pub proof fn lemma_transcript_encoding<SPOK: SignatureScheme, SSIG: SignatureScheme>(
    t: &DKGTranscript<SPOK, SSIG>,
    es: Seq<(usize, EntryView<SPOK, SSIG>)>,
)
    requires
        lists(t.entries(), es),
        valid_entries::<SPOK, SSIG>(es),
        es.len() <= u64::MAX,
        valid_share(t.pvss_share@),
    ensures
        take_transcript::<SPOK, SSIG>(
            transcript_bytes::<SPOK, SSIG>(t.degree, t.num_participants, es, t.pvss_share@),
        ) == Some(((t.degree, t.num_participants, es, t.pvss_share@), Seq::<u8>::empty())),
        map_of(es) == t.entries(),
{
    let b = transcript_bytes::<SPOK, SSIG>(t.degree, t.num_participants, es, t.pvss_share@);
    lemma_transcript_round_trip::<SPOK, SSIG>(
        t.degree,
        t.num_participants,
        es,
        t.pvss_share@,
        Seq::empty(),
    );
    assert(b + Seq::<u8>::empty() =~= b);
    lemma_map_of_lists(t.entries(), es);
}

/// Two points back to back, as a reference string of two generators is
/// encoded.
pub open spec fn pair_bytes(a: Seq<u8>, b: Seq<u8>) -> Seq<u8> {
    a + b
}

/// A point of `A` and then a point of `B` read from the front of `b`.
pub open spec fn take_pair<A: CurveGroup, B: CurveGroup>(b: Seq<u8>) -> Option<
    ((Seq<u8>, Seq<u8>), Seq<u8>),
> {
    match take_point::<A>(b) {
        Some((x, r1)) => match take_point::<B>(r1) {
            Some((y, r2)) => Some(((x, y), r2)),
            None => None,
        },
        None => None,
    }
}

/// Reading back two encoded points gives them.
pub proof fn lemma_pair_round_trip<A: CurveGroup, B: CurveGroup>(
    x: Seq<u8>,
    y: Seq<u8>,
    rest: Seq<u8>,
)
    requires
        A::spec_canonical(x) == Some(x),
        x.len() == A::spec_len(),
        B::spec_canonical(y) == Some(y),
        y.len() == B::spec_len(),
    ensures
        take_pair::<A, B>(pair_bytes(x, y) + rest) == Some(((x, y), rest)),
{
    assert(pair_bytes(x, y) + rest =~= x + (y + rest));
    lemma_point_round_trip::<A>(x, y + rest);
    lemma_point_round_trip::<B>(y, rest);
}

/// Encodes two points back to back.
pub fn put_pair<A: CurveGroup, B: CurveGroup>(x: &A, y: &B) -> (r: Vec<u8>)
    ensures
        r@ == pair_bytes(x@, y@),
        A::spec_canonical(x@) == Some(x@) && x@.len() == A::spec_len(),
        B::spec_canonical(y@) == Some(y@) && y@.len() == B::spec_len(),
{
    let mut out = x.encode();
    let yb = y.encode();
    append_bytes(&mut out, yb.as_slice());
    out
}

/// Decodes two points that take all of `b`.
pub fn get_pair<A: CurveGroup, B: CurveGroup>(b: &[u8]) -> (r: Option<(A, B)>)
    ensures
        r.is_some() <==> (take_pair::<A, B>(b@) matches Some((v, rest)) && rest.len() == 0),
        r matches Some((x, y)) ==> take_pair::<A, B>(b@) == Some(((x@, y@), Seq::<u8>::empty())),
{
    assert(b@.skip(0) =~= b@);
    let (x, at_first) = match get_point::<A>(b, 0) {
        Some(v) => v,
        None => return None,
    };
    let (y, at_second) = match get_point::<B>(b, at_first) {
        Some(v) => v,
        None => return None,
    };
    if at_second != b.len() {
        return None;
    }
    assert(b@.skip(at_second as int) =~= Seq::<u8>::empty());
    Some((x, y))
}

impl SRS {
    /// The wire encoding: `g_g1`, then `h_g2`.
    pub fn to_bytes(&self) -> (r: Vec<u8>)
        ensures
            r@ == pair_bytes(self.g_g1@, self.h_g2@),
            take_pair::<G1, G2>(r@) == Some(((self.g_g1@, self.h_g2@), Seq::<u8>::empty())),
    {
        let r = put_pair(&self.g_g1, &self.h_g2);
        proof {
            lemma_pair_round_trip::<G1, G2>(self.g_g1@, self.h_g2@, Seq::empty());
            assert(r@ + Seq::<u8>::empty() =~= r@);
        }
        r
    }

    /// Decodes the wire encoding, which must take all of `b`.
    pub fn from_bytes(b: &[u8]) -> (r: Option<SRS>)
        ensures
            r.is_some() <==> (take_pair::<G1, G2>(b@) matches Some((v, rest)) && rest.len() == 0),
            r matches Some(s) ==> take_pair::<G1, G2>(b@) == Some(
                ((s.g_g1@, s.h_g2@), Seq::<u8>::empty()),
            ),
    {
        match get_pair::<G1, G2>(b) {
            Some((g_g1, h_g2)) => Some(SRS { g_g1, h_g2 }),
            None => None,
        }
    }
}

impl<B: BLSSignatureScheme> BLSSRS<B> {
    /// The wire encoding: the public-key generator, then the signature
    /// generator.
    pub fn to_bytes(&self) -> (r: Vec<u8>)
        ensures
            r@ == pair_bytes(self.g_public_key@, self.g_signature@),
            take_pair::<B::PublicKeyGroup, B::SignatureGroup>(r@) == Some(
                ((self.g_public_key@, self.g_signature@), Seq::<u8>::empty()),
            ),
    {
        let r = put_pair(&self.g_public_key, &self.g_signature);
        proof {
            lemma_pair_round_trip::<B::PublicKeyGroup, B::SignatureGroup>(
                self.g_public_key@,
                self.g_signature@,
                Seq::empty(),
            );
            assert(r@ + Seq::<u8>::empty() =~= r@);
        }
        r
    }

    /// Decodes the wire encoding, which must take all of `b`.
    pub fn from_bytes(b: &[u8]) -> (r: Option<Self>)
        ensures
            r.is_some() <==> (take_pair::<B::PublicKeyGroup, B::SignatureGroup>(b@) matches Some(
                (v, rest),
            ) && rest.len() == 0),
            r matches Some(s) ==> take_pair::<B::PublicKeyGroup, B::SignatureGroup>(b@) == Some(
                ((s.g_public_key@, s.g_signature@), Seq::<u8>::empty()),
            ),
    {
        match get_pair::<B::PublicKeyGroup, B::SignatureGroup>(b) {
            Some((g_public_key, g_signature)) => Some(BLSSRS { g_public_key, g_signature }),
            None => None,
        }
    }
}

impl<C: CurveGroup> SchnorrSRS<C> {
    /// The wire encoding: the generator.
    pub fn to_bytes(&self) -> (r: Vec<u8>)
        ensures
            r@ == self.g_public_key@,
            take_point::<C>(r@) == Some((self.g_public_key@, Seq::<u8>::empty())),
    {
        let r = self.g_public_key.encode();
        proof {
            lemma_point_round_trip::<C>(r@, Seq::empty());
            assert(r@ + Seq::<u8>::empty() =~= r@);
        }
        r
    }

    /// Decodes the wire encoding, which must take all of `b`.
    pub fn from_bytes(b: &[u8]) -> (r: Option<Self>)
        ensures
            r.is_some() <==> (take_point::<C>(b@) matches Some((v, rest)) && rest.len() == 0),
            r matches Some(s) ==> take_point::<C>(b@) == Some((s.g_public_key@, Seq::<u8>::empty())),
    {
        assert(b@.skip(0) =~= b@);
        let (g_public_key, end) = match get_point::<C>(b, 0) {
            Some(v) => v,
            None => return None,
        };
        if end != b.len() {
            return None;
        }
        assert(b@.skip(end as int) =~= Seq::<u8>::empty());
        Some(SchnorrSRS { g_public_key })
    }
}

} // verus!
