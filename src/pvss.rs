//! The publicly verifiable part of a dealer's contribution.
use vstd::prelude::*;

use crate::algebra::{points_view, scalars_view, CurveGroup, G1, G2, Scalar};

verus! {

/// The pointwise sums of two sequences of points, as long as the shorter.
pub open spec fn pointwise_sum<C: CurveGroup>(a: Seq<Seq<u8>>, b: Seq<Seq<u8>>) -> Seq<Seq<u8>> {
    Seq::new(
        if a.len() <= b.len() {
            a.len()
        } else {
            b.len()
        },
        |k: int| C::spec_sum(a[k], b[k]),
    )
}

/// `n` copies of the identity.
pub open spec fn identities<C: CurveGroup>(n: nat) -> Seq<Seq<u8>> {
    Seq::new(n, |k: int| C::spec_identity())
}

/// Adds two sequences of points pointwise, as far as the shorter goes.
pub fn add_pointwise<C: CurveGroup>(a: &Vec<C>, b: &Vec<C>) -> (r: Vec<C>)
    ensures
        points_view(r@) == pointwise_sum::<C>(points_view(a@), points_view(b@)),
        points_view(r@) == pointwise_sum::<C>(points_view(b@), points_view(a@)),
{
    let n = if a.len() <= b.len() {
        a.len()
    } else {
        b.len()
    };
    let mut r: Vec<C> = Vec::new();
    let mut k: usize = 0;
    while k < n
        invariant
            k <= n,
            n <= a.len(),
            n <= b.len(),
            n == (if a.len() <= b.len() {
                a.len()
            } else {
                b.len()
            }),
            r.len() == k,
            forall|j: int|
                0 <= j < k ==> (#[trigger] points_view(r@)[j]) == C::spec_sum(
                    a@[j]@,
                    b@[j]@,
                ),
            forall|j: int|
                0 <= j < k ==> (#[trigger] points_view(r@)[j]) == C::spec_sum(
                    b@[j]@,
                    a@[j]@,
                ),
        decreases n - k,
    {
        let ghost old_r = points_view(r@);
        r.push(a[k].add_point(&b[k]));
        assert(points_view(r@) =~= old_r.push(r@[k as int]@));
        k += 1;
    }
    assert(points_view(r@) =~= pointwise_sum::<C>(points_view(a@), points_view(b@)));
    assert(points_view(r@) =~= pointwise_sum::<C>(points_view(b@), points_view(a@)));
    r
}

/// `n` copies of the identity.
pub fn identity_points<C: CurveGroup>(n: usize) -> (r: Vec<C>)
    ensures
        points_view(r@) == identities::<C>(n as nat),
{
    let mut r: Vec<C> = Vec::new();
    let mut k: usize = 0;
    while k < n
        invariant
            k <= n,
            r.len() == k,
            forall|j: int| 0 <= j < k ==> (#[trigger] points_view(r@)[j]) == C::spec_identity(),
        decreases n - k,
    {
        let ghost old_r = points_view(r@);
        r.push(C::zero());
        assert(points_view(r@) =~= old_r.push(r@[k as int]@));
        k += 1;
    }
    assert(points_view(r@) =~= identities::<C>(n as nat));
    r
}

/// Appends copies of the points of `src` to `dst`.
pub fn append_points<C: CurveGroup>(dst: &mut Vec<C>, src: &Vec<C>)
    ensures
        points_view(final(dst)@) == points_view(old(dst)@) + points_view(src@),
{
    let ghost start = points_view(dst@);
    let mut k: usize = 0;
    while k < src.len()
        invariant
            k <= src.len(),
            points_view(dst@) == start + points_view(src@).take(k as int),
            start == points_view(old(dst)@),
        decreases src.len() - k,
    {
        let ghost before = points_view(dst@);
        dst.push(src[k].duplicate());
        assert(points_view(dst@) =~= before.push(src@[k as int]@));
        k += 1;
        assert(points_view(dst@) =~= start + points_view(src@).take(k as int));
    }
    assert(points_view(src@).take(src.len() as int) =~= points_view(src@));
}

/// Appends a copy of `p` to `dst`.
pub fn push_point<C: CurveGroup>(dst: &mut Vec<C>, p: &C)
    ensures
        points_view(final(dst)@) == points_view(old(dst)@).push(p@),
{
    dst.push(p.duplicate());
    assert(points_view(dst@) =~= points_view(old(dst)@).push(p@));
}

/// Appends copies of the scalars of `src` to `dst`.
pub fn append_scalars(dst: &mut Vec<Scalar>, src: &Vec<Scalar>)
    ensures
        scalars_view(final(dst)@) == scalars_view(old(dst)@) + scalars_view(src@),
{
    let ghost start = scalars_view(dst@);
    let mut k: usize = 0;
    while k < src.len()
        invariant
            k <= src.len(),
            scalars_view(dst@) == start + scalars_view(src@).take(k as int),
            start == scalars_view(old(dst)@),
        decreases src.len() - k,
    {
        let ghost before = scalars_view(dst@);
        dst.push(src[k].clone());
        assert(scalars_view(dst@) =~= before.push(src@[k as int]@));
        k += 1;
        assert(scalars_view(dst@) =~= start + scalars_view(src@).take(k as int));
    }
    assert(scalars_view(src@).take(src.len() as int) =~= scalars_view(src@));
}

/// Copies a sequence of points.
pub fn copy_points<C: CurveGroup>(a: &Vec<C>) -> (r: Vec<C>)
    ensures
        points_view(r@) == points_view(a@),
{
    let mut r: Vec<C> = Vec::new();
    let mut k: usize = 0;
    while k < a.len()
        invariant
            k <= a.len(),
            r.len() == k,
            forall|j: int| 0 <= j < k ==> (#[trigger] points_view(r@)[j]) == a@[j]@,
        decreases a.len() - k,
    {
        let ghost old_r = points_view(r@);
        r.push(a[k].duplicate());
        assert(points_view(r@) =~= old_r.push(r@[k as int]@));
        k += 1;
    }
    assert(points_view(r@) =~= points_view(a@));
    r
}

/// A dealer's public share: the commitments `f_i` to the coefficients
/// `1..=t` of its polynomial in G1, the commitment `u_i_2` to its secret
/// coefficient under `u_1`, the commitments `a_i` to the evaluations in G1,
/// and the evaluations `y_i` encrypted under each participant's key.
#[derive(Debug)]
pub struct PVSSShare {
    pub f_i: Vec<G1>,
    pub u_i_2: G2,
    pub a_i: Vec<G1>,
    pub y_i: Vec<G2>,
}

impl View for PVSSShare {
    type V = (Seq<Seq<u8>>, Seq<u8>, Seq<Seq<u8>>, Seq<Seq<u8>>);

    open spec fn view(&self) -> Self::V {
        (points_view(self.f_i@), self.u_i_2@, points_view(self.a_i@), points_view(self.y_i@))
    }
}

impl Clone for PVSSShare {
    fn clone(&self) -> (r: PVSSShare)
        ensures
            r@ == self@,
    {
        PVSSShare {
            f_i: copy_points(&self.f_i),
            u_i_2: self.u_i_2.clone(),
            a_i: copy_points(&self.a_i),
            y_i: copy_points(&self.y_i),
        }
    }
}

/// The pointwise sum of two shares.
pub open spec fn spec_share_sum(
    a: (Seq<Seq<u8>>, Seq<u8>, Seq<Seq<u8>>, Seq<Seq<u8>>),
    b: (Seq<Seq<u8>>, Seq<u8>, Seq<Seq<u8>>, Seq<Seq<u8>>),
) -> (Seq<Seq<u8>>, Seq<u8>, Seq<Seq<u8>>, Seq<Seq<u8>>) {
    (
        pointwise_sum::<G1>(a.0, b.0),
        G2::spec_sum(a.1, b.1),
        pointwise_sum::<G1>(a.2, b.2),
        pointwise_sum::<G2>(a.3, b.3),
    )
}

impl PVSSShare {
    /// The view of `empty(degree, num_participants)`.
    pub open spec fn empty_view(degree: nat, num_participants: nat) -> (
        Seq<Seq<u8>>,
        Seq<u8>,
        Seq<Seq<u8>>,
        Seq<Seq<u8>>,
    ) {
        (
            identities::<G1>(degree),
            G2::spec_identity(),
            identities::<G1>(num_participants),
            identities::<G2>(num_participants),
        )
    }

    /// The share that aggregates nothing: identities throughout.
    pub fn empty(degree: usize, num_participants: usize) -> (r: PVSSShare)
        ensures
            r@ == PVSSShare::empty_view(degree as nat, num_participants as nat),
    {
        PVSSShare {
            f_i: identity_points(degree),
            u_i_2: G2::zero(),
            a_i: identity_points(num_participants),
            y_i: identity_points(num_participants),
        }
    }

    /// The pointwise sum with `other`.
    pub fn aggregate(&self, other: &PVSSShare) -> (r: PVSSShare)
        ensures
            r@ == spec_share_sum(self@, other@),
            r@ == spec_share_sum(other@, self@),
    {
        PVSSShare {
            f_i: add_pointwise(&self.f_i, &other.f_i),
            u_i_2: self.u_i_2.add_point(&other.u_i_2),
            a_i: add_pointwise(&self.a_i, &other.a_i),
            y_i: add_pointwise(&self.y_i, &other.y_i),
        }
    }
}

/// What a dealer keeps of its own share: its secret coefficient and its own
/// decrypted seat.
pub struct PVSSShareSecrets {
    pub f_0: Scalar,
    pub my_secret: G2,
}

} // verus!
