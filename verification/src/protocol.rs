//! The protocol layer: key generation, per-message signing, and homomorphic
//! evaluation of a labeled linear program over signature shares.

use vstd::prelude::*;

use vstd::arithmetic::div_mod::{lemma_add_mod_noop_right, lemma_mod_bound};

use crate::algebra::{
    fr_add, fr_is_zero, fr_mul, fr_order, fr_random, fr_val, fr_zero, g1_add, g1_gen, g1_mul,
    g1_val, g1_zero, g2_gen, g2_mul, g2_val, h2g1_dst, hash_to_g1_with, hash_val, random_bytes,
    Scalar, G1,
};
use crate::errors::ProtocolError;
use crate::params::Params;
use crate::types::{Id, Label, LabeledProgram, PublicKey, SecretKey, SignAggr, SignShare};

use ark_std::rand::RngCore;

verus! {

/// The canonical values of a scalar sequence.
pub open spec fn scalar_vals(v: Seq<Scalar>) -> Seq<int> {
    v.map_values(|x: Scalar| fr_val(x))
}

/// The discrete logarithms of the signature points of a share sequence.
pub open spec fn share_gamma_vals<const K: usize>(v: Seq<SignShare<K>>) -> Seq<int> {
    v.map_values(|s: SignShare<K>| g1_val(s.spec_gamma()))
}

/// The canonical values of the message scalars of a share sequence.
pub open spec fn share_mu_vals<const K: usize>(v: Seq<SignShare<K>>) -> Seq<int> {
    v.map_values(|s: SignShare<K>| fr_val(s.spec_mu()))
}

/// A sequence of indices, widened to mathematical integers.
pub open spec fn usizes_as_ints(s: Seq<usize>) -> Seq<int> {
    s.map_values(|u: usize| u as int)
}

/// `sum_{i} c[i] * m[i] mod fr_order()`, accumulated left to right with a
/// reduction after every step, exactly as the group and field operations
/// compute it.
pub open spec fn wsum_mod(c: Seq<int>, m: Seq<int>) -> int
    recommends
        c.len() == m.len(),
    decreases c.len(),
{
    if c.len() == 0 {
        0
    } else {
        (wsum_mod(c.drop_last(), m.drop_last()) + c.last() * m.last()) % fr_order()
    }
}

/// `sum_{k} c[idxs[k]] * m[idxs[k]] mod fr_order()`, over the given index
/// sequence, accumulated left to right with a reduction after every step.
pub open spec fn wsum_mod_at(c: Seq<int>, m: Seq<int>, idxs: Seq<int>) -> int
    decreases idxs.len(),
{
    if idxs.len() == 0 {
        0
    } else {
        (wsum_mod_at(c, m, idxs.drop_last()) + c[idxs.last()] * m[idxs.last()]) % fr_order()
    }
}

/// The distinct identities of a label sequence, each exactly once, in the
/// order of its first appearance.
pub open spec fn first_occurrence_ids<const K: usize>(labels: Seq<Label<K>>) -> Seq<Id<K>>
    decreases labels.len(),
{
    if labels.len() == 0 {
        Seq::empty()
    } else {
        let prefix = first_occurrence_ids(labels.drop_last());
        if prefix.contains(labels.last().id) {
            prefix
        } else {
            prefix.push(labels.last().id)
        }
    }
}

/// The indices whose label carries the given identity, in increasing order.
pub open spec fn occurrence_indices<const K: usize>(labels: Seq<Label<K>>, id: Id<K>) -> Seq<int>
    decreases labels.len(),
{
    if labels.len() == 0 {
        Seq::empty()
    } else if labels.last().id == id {
        occurrence_indices(labels.drop_last(), id).push(labels.len() - 1)
    } else {
        occurrence_indices(labels.drop_last(), id)
    }
}

/// Every index in `occurrence_indices(labels, id)` is a position in `labels`
/// whose identity is `id`, every such position is listed, and the list is
/// strictly increasing.
pub proof fn lemma_occurrence_indices_characterize<const K: usize>(
    labels: Seq<Label<K>>,
    id: Id<K>,
)
    ensures
        forall|k: int|
            0 <= k < occurrence_indices(labels, id).len() ==> 0 <= #[trigger] occurrence_indices(
                labels,
                id,
            )[k] < labels.len() && labels[occurrence_indices(labels, id)[k]].id == id,
        forall|i: int|
            0 <= i < labels.len() && labels[i].id == id ==> occurrence_indices(
                labels,
                id,
            ).contains(i),
        forall|k1: int, k2: int|
            0 <= k1 < k2 < occurrence_indices(labels, id).len() ==> occurrence_indices(labels, id)[
                k1
            ] < occurrence_indices(labels, id)[k2],
    decreases labels.len(),
{
    let occ = occurrence_indices(labels, id);
    if labels.len() == 0 {
    } else {
        let prefix = labels.drop_last();
        let occ0 = occurrence_indices(prefix, id);
        lemma_occurrence_indices_characterize(prefix, id);
        assert(forall|i: int| 0 <= i < prefix.len() ==> prefix[i] == labels[i]);
        assert(forall|k: int|
            0 <= k < occ0.len() ==> 0 <= #[trigger] occ0[k] < labels.len() - 1
                && labels[occ0[k]].id == id);
        if labels.last().id == id {
            assert(occ == occ0.push(labels.len() - 1));
            assert(forall|k: int| 0 <= k < occ0.len() ==> occ[k] == #[trigger] occ0[k]);
            assert(occ[occ.len() - 1] == labels.len() - 1);
            assert(labels[labels.len() - 1].id == id);
            assert(forall|i: int|
                0 <= i < labels.len() && #[trigger] labels[i].id == id ==> occ.contains(i)) by {
                assert forall|i: int|
                    0 <= i < labels.len() && #[trigger] labels[i].id == id implies occ.contains(
                    i,
                ) by {
                    if i < labels.len() - 1 {
                        assert(occ0.contains(i));
                        let k = choose|k: int| 0 <= k < occ0.len() && occ0[k] == i;
                        assert(occ[k] == i);
                    } else {
                        assert(occ[occ.len() - 1] == i);
                    }
                }
            }
        } else {
            assert(occ == occ0);
            assert(forall|i: int|
                0 <= i < labels.len() && #[trigger] labels[i].id == id ==> occ.contains(i)) by {
                assert forall|i: int|
                    0 <= i < labels.len() && #[trigger] labels[i].id == id implies occ.contains(
                    i,
                ) by {
                    assert(i < labels.len() - 1);
                    assert(prefix[i].id == id);
                }
            }
        }
    }
}

/// Searches a list of identities for one equal to `id`.
fn find_id<const K: usize>(ids: &Vec<Id<K>>, id: &Id<K>) -> (r: Option<usize>)
    ensures
        r matches Some(j) ==> 0 <= j < ids@.len() && ids@[j as int] == *id,
        r is None ==> !ids@.contains(*id),
{
    let mut j: usize = 0;
    while j < ids.len()
        invariant
            0 <= j <= ids@.len(),
            forall|t: int| 0 <= t < j ==> ids@[t] != *id,
        decreases ids@.len() - j,
    {
        if ids[j] == *id {
            proof {
                assert(ids@[j as int].0@ == id.0@);
                assert(ids@[j as int].0 =~= id.0);
            }
            return Some(j);
        }
        proof {
            assert(ids@[j as int] != *id) by {
                assert(ids@[j as int].0@ != id.0@);
            }
        }
        j = j + 1;
    }
    None
}

/// Deterministically partitions a sequence of labels by signer identity.
///
/// Returns the distinct identities in first-occurrence order and, for each,
/// the list of positions in `labels` that carry it, in increasing order.
/// Together the groups partition `0..labels.len()`: every position appears in
/// exactly one group, since the returned identities are distinct and every
/// position's identity is among them.
pub fn organize<const K: usize>(labels: &[Label<K>]) -> (r: (Vec<Id<K>>, Vec<Vec<usize>>))
    ensures
        r.0@ == first_occurrence_ids(labels@),
        r.1@.len() == r.0@.len(),
        forall|j: int|
            0 <= j < r.1@.len() ==> usizes_as_ints(#[trigger] r.1@[j]@) == occurrence_indices(
                labels@,
                r.0@[j],
            ),
{
    let mut ord_ids: Vec<Id<K>> = Vec::new();
    let mut i: usize = 0;
    while i < labels.len()
        invariant
            0 <= i <= labels@.len(),
            ord_ids@ == first_occurrence_ids(labels@.take(i as int)),
        decreases labels@.len() - i,
    {
        proof {
            assert(labels@.take(i + 1).drop_last() =~= labels@.take(i as int));
            assert(labels@.take(i + 1).last() == labels@[i as int]);
        }
        match find_id(&ord_ids, &labels[i].id) {
            Some(_) => {
                proof {
                    assert(first_occurrence_ids(labels@.take(i as int)).contains(
                        labels@[i as int].id,
                    ));
                }
            },
            None => {
                ord_ids.push(labels[i].id);
            },
        }
        i = i + 1;
    }
    proof {
        assert(labels@.take(labels@.len() as int) =~= labels@);
    }
    let mut groups: Vec<Vec<usize>> = Vec::new();
    let mut j: usize = 0;
    while j < ord_ids.len()
        invariant
            ord_ids@ == first_occurrence_ids(labels@),
            0 <= j <= ord_ids@.len(),
            groups@.len() == j,
            forall|t: int|
                0 <= t < j ==> usizes_as_ints(#[trigger] groups@[t]@) == occurrence_indices(
                    labels@,
                    ord_ids@[t],
                ),
        decreases ord_ids@.len() - j,
    {
        let mut group: Vec<usize> = Vec::new();
        let mut i: usize = 0;
        while i < labels.len()
            invariant
                0 <= i <= labels@.len(),
                0 <= j < ord_ids@.len(),
                usizes_as_ints(group@) == occurrence_indices(
                    labels@.take(i as int),
                    ord_ids@[j as int],
                ),
            decreases labels@.len() - i,
        {
            proof {
                assert(labels@.take(i + 1).drop_last() =~= labels@.take(i as int));
                assert(labels@.take(i + 1).last() == labels@[i as int]);
            }
            if labels[i].id == ord_ids[j] {
                proof {
                    assert(labels@[i as int].id.0 =~= ord_ids@[j as int].0);
                }
                group.push(i);
                proof {
                    assert(usizes_as_ints(group@) =~= occurrence_indices(
                        labels@.take(i + 1),
                        ord_ids@[j as int],
                    ));
                }
            } else {
                proof {
                    assert(labels@[i as int].id != ord_ids@[j as int]) by {
                        assert(labels@[i as int].id.0@ != ord_ids@[j as int].0@);
                    }
                }
            }
            i = i + 1;
        }
        proof {
            assert(labels@.take(labels@.len() as int) =~= labels@);
        }
        groups.push(group);
        j = j + 1;
    }
    (ord_ids, groups)
}


/// Generates a key pair for one signer: a fresh random identity of `K`
/// bytes, a uniformly random nonzero secret scalar, and the public key
/// derived as that scalar's multiple of the second group's generator.
///
/// A failing randomness source is reported as `Rng`, distinct from every
/// other error kind; so is a source that keeps yielding the zero scalar,
/// since this library's functions must not loop without bound.
pub fn keygen<const K: usize, R: RngCore>(_pp: &Params<K>, rng: &mut R) -> (r: Result<
    (SecretKey<K>, PublicKey<K>),
    ProtocolError,
>)
    ensures
        r matches Ok(kp) ==> {
            &&& kp.1.spec_id() == kp.0.spec_id()
            &&& 0 < fr_val(kp.0.spec_value()) < fr_order()
            &&& g2_val(kp.1.spec_value()) == fr_val(kp.0.spec_value())
        },
        r matches Err(e) ==> e is Rng,
{
    let id_bytes = match random_bytes::<K, R>(rng) {
        Ok(b) => b,
        Err(e) => {
            return Err(ProtocolError::Rng(e));
        },
    };
    let id = Id(id_bytes);
    let mut x = fr_random(rng);
    let mut tries: usize = 0;
    loop
        invariant_except_break
            tries <= 64,
            0 <= fr_val(x) < fr_order(),
        ensures
            0 < fr_val(x) < fr_order(),
        decreases 64 - tries,
    {
        if !fr_is_zero(&x) {
            break;
        }
        if tries >= 64 {
            return Err(ProtocolError::Rng("randomness source kept yielding zero".to_string()));
        }
        x = fr_random(rng);
        tries = tries + 1;
    }
    let g2x = g2_mul(&g2_gen(), &x);
    proof {
        vstd::arithmetic::div_mod::lemma_small_mod(fr_val(x) as nat, fr_order() as nat);
    }
    let sk = SecretKey::new(id, x);
    let pk = PublicKey::new(id, g2x);
    Ok((sk, pk))
}

/// What `sign` promises of a returned share: the signer's identity and the
/// message scalar are carried over unchanged, and the signature point is
/// `(H(label) + msg * G1) * sk`, stated over the discrete-logarithm model of
/// the first group.
pub open spec fn spec_sign_share<const K: usize>(
    pp: &Params<K>,
    sk: &SecretKey<K>,
    label: Label<K>,
    msg: Scalar,
    sh: SignShare<K>,
) -> bool {
    &&& sh.spec_id() == sk.spec_id()
    &&& sh.spec_mu() == msg
    &&& g1_val(sh.spec_gamma()) == ((hash_val(h2g1_dst(pp.spec_h2g1_label()), label.spec_bytes())
        + fr_val(msg)) * fr_val(sk.spec_value())) % fr_order()
}

/// Builds the signature share for a message from an already-hashed label
/// point: `gamma = (h + msg * G1) * sk`. Total: this is the part of signing
/// after the external hash-to-curve call has succeeded.
pub fn sign_with_hash_point<const K: usize>(sk: &SecretKey<K>, h: &G1, msg: Scalar) -> (sh:
    SignShare<K>)
    ensures
        sh.spec_id() == sk.spec_id(),
        sh.spec_mu() == msg,
        g1_val(sh.spec_gamma()) == ((g1_val(*h) + fr_val(msg)) * fr_val(sk.spec_value()))
            % fr_order(),
{
    let gm = g1_mul(&g1_gen(), &msg);
    let hp = g1_add(h, &gm);
    let gamma = g1_mul(&hp, sk.value());
    proof {
        let q = fr_order();
        let hv = g1_val(*h);
        let m = fr_val(msg);
        let x = fr_val(sk.spec_value());
        assert(g1_val(gm) == m % q);
        lemma_add_mod_noop_right(hv, m, q);
        assert(g1_val(hp) == (hv + m) % q);
        vstd::arithmetic::div_mod::lemma_mul_mod_noop_left(hv + m, x, q);
        assert(g1_val(gamma) == ((hv + m) * x) % q);
    }
    SignShare::new(sk.id(), gamma, msg)
}

/// Signs one labeled message: hashes the label's canonical encoding into the
/// first group with the context's cached domain-separated hash-to-curve
/// instance and returns
/// `SignShare { id: sk.id, gamma: (H(label) + msg * G1) * sk, mu: msg }`.
///
/// Deterministic: the share is a function of the context's tag, the key, the
/// label and the message alone. A failure of the hash-to-curve primitive
/// would propagate unretried as `Algebra`, but for this suite the primitive
/// cannot fail, so signing always succeeds.
pub fn sign<const K: usize>(
    pp: &Params<K>,
    sk: &SecretKey<K>,
    label: Label<K>,
    msg: Scalar,
) -> (r: Result<SignShare<K>, ProtocolError>)
    ensures
        r is Ok,
        r matches Ok(sh) ==> spec_sign_share(pp, sk, label, msg, sh),
{
    let label_bytes = label.to_bytes();
    let h = match hash_to_g1_with(pp.h2g1_label(), label_bytes.as_slice()) {
        Ok(h) => h,
        Err(e) => {
            return Err(ProtocolError::Algebra(e));
        },
    };
    Ok(sign_with_hash_point(sk, &h, msg))
}

/// What `eval` promises of a returned aggregate, over the modular models of
/// the scalars and points: the identities are the program's distinct signer
/// identities in first-occurrence order; the aggregated point's discrete
/// logarithm is the coefficient-weighted sum of the shares' points; and each
/// signer's combined message is the coefficient-weighted sum of that
/// signer's message scalars.
pub open spec fn spec_eval_aggr<const K: usize>(
    program: &LabeledProgram<K>,
    shares: Seq<SignShare<K>>,
    aggr: SignAggr<K>,
) -> bool {
    &&& aggr.spec_ord_ids() == first_occurrence_ids(program.spec_labels())
    &&& aggr.spec_mus().len() == aggr.spec_ord_ids().len()
    &&& g1_val(aggr.spec_gamma()) == wsum_mod(
        scalar_vals(program.spec_coeffs()),
        share_gamma_vals(shares),
    )
    &&& forall|j: int|
        0 <= j < aggr.spec_ord_ids().len() ==> fr_val(#[trigger] aggr.spec_mus()[j])
            == wsum_mod_at(
            scalar_vals(program.spec_coeffs()),
            share_mu_vals(shares),
            occurrence_indices(program.spec_labels(), aggr.spec_ord_ids()[j]),
        )
}

/// Homomorphically evaluates a labeled program over signature shares,
/// positionally aligned with the program's labels.
///
/// Succeeds exactly when the program's coefficient and label counts and the
/// share count all agree; any mismatch fails fast with `InvalidInput` before
/// any algebraic work. It is not checked that `shares[i]` was produced for
/// `program.labels[i]`: callers supply shares positionally aligned with the
/// labels.
pub fn eval<const K: usize>(
    _pp: &Params<K>,
    program: &LabeledProgram<K>,
    sign_shares: Vec<SignShare<K>>,
) -> (r: Result<SignAggr<K>, ProtocolError>)
    ensures
        r is Ok <==> program.spec_coeffs().len() == program.spec_labels().len()
            && program.spec_coeffs().len() == sign_shares@.len(),
        r matches Ok(aggr) ==> spec_eval_aggr(program, sign_shares@, aggr),
        r matches Err(e) ==> e is InvalidInput,
{
    let coeffs = program.coeffs();
    let labels = program.labels();
    if coeffs.len() != labels.len() || coeffs.len() != sign_shares.len() {
        return Err(ProtocolError::InvalidInput(
            "coeffs/labels/sign_shares length mismatch".to_string(),
        ));
    }
    let n = coeffs.len();
    let ghost cv = scalar_vals(coeffs@);
    let ghost gv = share_gamma_vals(sign_shares@);
    let ghost mv = share_mu_vals(sign_shares@);

    let mut gamma = g1_zero();
    let mut i: usize = 0;
    while i < n
        invariant
            coeffs@.len() == n,
            sign_shares@.len() == n,
            cv == scalar_vals(coeffs@),
            gv == share_gamma_vals(sign_shares@),
            0 <= i <= n,
            g1_val(gamma) == wsum_mod(cv.take(i as int), gv.take(i as int)),
            0 <= g1_val(gamma) < fr_order(),
        decreases n - i,
    {
        let term = g1_mul(sign_shares[i].gamma(), &coeffs[i]);
        let next = g1_add(&gamma, &term);
        proof {
            let q = fr_order();
            let w = wsum_mod(cv.take(i as int), gv.take(i as int));
            let c = cv[i as int];
            let m = gv[i as int];
            assert(g1_val(term) == (m * c) % q);
            assert(m * c == c * m) by (nonlinear_arith);
            lemma_add_mod_noop_right(w, c * m, q);
            assert(g1_val(next) == (w + c * m) % q);
            assert(cv.take(i + 1).drop_last() =~= cv.take(i as int));
            assert(gv.take(i + 1).drop_last() =~= gv.take(i as int));
            assert(cv.take(i + 1).last() == c);
            assert(gv.take(i + 1).last() == m);
            assert(g1_val(next) == wsum_mod(cv.take(i + 1), gv.take(i + 1)));
            lemma_mod_bound(w + c * m, q);
        }
        gamma = next;
        i = i + 1;
    }
    proof {
        assert(cv.take(n as int) =~= cv);
        assert(gv.take(n as int) =~= gv);
    }

    let (ord_ids, groups) = organize(labels);
    let mut mus: Vec<Scalar> = Vec::new();
    let mut j: usize = 0;
    while j < groups.len()
        invariant
            coeffs@.len() == n,
            sign_shares@.len() == n,
            labels@.len() == n,
            cv == scalar_vals(coeffs@),
            mv == share_mu_vals(sign_shares@),
            ord_ids@ == first_occurrence_ids(labels@),
            groups@.len() == ord_ids@.len(),
            forall|t: int|
                0 <= t < groups@.len() ==> usizes_as_ints(#[trigger] groups@[t]@)
                    == occurrence_indices(labels@, ord_ids@[t]),
            0 <= j <= groups@.len(),
            mus@.len() == j,
            forall|t: int|
                0 <= t < j ==> fr_val(#[trigger] mus@[t]) == wsum_mod_at(
                    cv,
                    mv,
                    occurrence_indices(labels@, ord_ids@[t]),
                ),
        decreases groups@.len() - j,
    {
        let idxs = &groups[j];
        let ghost occ = occurrence_indices(labels@, ord_ids@[j as int]);
        proof {
            lemma_occurrence_indices_characterize(labels@, ord_ids@[j as int]);
            assert(usizes_as_ints(idxs@) == occ);
        }
        let mut acc = fr_zero();
        let mut k: usize = 0;
        while k < idxs.len()
            invariant
                coeffs@.len() == n,
                sign_shares@.len() == n,
                cv == scalar_vals(coeffs@),
                mv == share_mu_vals(sign_shares@),
                usizes_as_ints(idxs@) == occ,
                forall|t: int| 0 <= t < occ.len() ==> 0 <= #[trigger] occ[t] < n,
                0 <= k <= idxs@.len(),
                fr_val(acc) == wsum_mod_at(cv, mv, occ.take(k as int)),
                0 <= fr_val(acc) < fr_order(),
            decreases idxs@.len() - k,
        {
            let i = idxs[k];
            proof {
                assert(occ[k as int] == idxs@[k as int] as int);
                assert(0 <= occ[k as int] < n);
            }
            let term = fr_mul(&coeffs[i], sign_shares[i].mu());
            let next = fr_add(&acc, &term);
            proof {
                let q = fr_order();
                let a = wsum_mod_at(cv, mv, occ.take(k as int));
                let c = cv[i as int];
                let m = mv[i as int];
                assert(fr_val(term) == (c * m) % q);
                lemma_add_mod_noop_right(a, c * m, q);
                assert(fr_val(next) == (a + c * m) % q);
                assert(occ.take(k + 1).drop_last() =~= occ.take(k as int));
                assert(occ.take(k + 1).last() == occ[k as int]);
                assert(fr_val(next) == wsum_mod_at(cv, mv, occ.take(k + 1)));
                lemma_mod_bound(a + c * m, q);
            }
            acc = next;
            k = k + 1;
        }
        proof {
            assert(occ.take(occ.len() as int) =~= occ);
        }
        mus.push(acc);
        j = j + 1;
    }
    Ok(SignAggr::new(gamma, ord_ids, mus))
}


/// Determinism of signing: two shares that `sign` returned for the same
/// domain-separation tag, key, label and message agree in signer identity,
/// in message scalar, and in the discrete logarithm of the signature point.
pub proof fn lemma_sign_deterministic<const K: usize>(
    pp1: &Params<K>,
    pp2: &Params<K>,
    sk: &SecretKey<K>,
    label: Label<K>,
    msg: Scalar,
    sh1: SignShare<K>,
    sh2: SignShare<K>,
)
    requires
        h2g1_dst(pp1.spec_h2g1_label()) == h2g1_dst(pp2.spec_h2g1_label()),
        spec_sign_share(pp1, sk, label, msg, sh1),
        spec_sign_share(pp2, sk, label, msg, sh2),
    ensures
        sh1.spec_id() == sh2.spec_id(),
        sh1.spec_mu() == sh2.spec_mu(),
        g1_val(sh1.spec_gamma()) == g1_val(sh2.spec_gamma()),
{
}

/// Grouping correctness for the identity list: the distinct identities
/// contain every label's identity, each of them occurs among the labels, no
/// identity appears twice, and they are ordered by first appearance: the
/// first position carrying an earlier entry is strictly before the first
/// position carrying a later one. Together with
/// `lemma_occurrence_indices_characterize` this says the groups that
/// `organize` returns partition the label positions exactly, each group
/// holding exactly the positions of its identity.
pub proof fn lemma_first_occurrence_ids_correct<const K: usize>(labels: Seq<Label<K>>)
    ensures
        forall|i: int|
            0 <= i < labels.len() ==> first_occurrence_ids(labels).contains(
                #[trigger] labels[i].id,
            ),
        forall|j: int|
            0 <= j < first_occurrence_ids(labels).len() ==> occurrence_indices(
                labels,
                #[trigger] first_occurrence_ids(labels)[j],
            ).len() > 0,
        forall|j1: int, j2: int|
            0 <= j1 < j2 < first_occurrence_ids(labels).len() ==> first_occurrence_ids(labels)[j1]
                != first_occurrence_ids(labels)[j2],
        forall|j1: int, j2: int|
            0 <= j1 < j2 < first_occurrence_ids(labels).len() ==> occurrence_indices(
                labels,
                first_occurrence_ids(labels)[j1],
            )[0] < occurrence_indices(labels, first_occurrence_ids(labels)[j2])[0],
    decreases labels.len(),
{
    let ord = first_occurrence_ids(labels);
    if labels.len() > 0 {
        let prefix = labels.drop_last();
        let ord0 = first_occurrence_ids(prefix);
        lemma_first_occurrence_ids_correct(prefix);
        lemma_occurrence_indices_characterize(prefix, labels.last().id);
        assert(forall|i: int| 0 <= i < prefix.len() ==> prefix[i] == labels[i]);
        // How each identity's occurrence list grows by one label.
        assert(forall|id: Id<K>|
            #[trigger] occurrence_indices(labels, id) == if labels.last().id == id {
                occurrence_indices(prefix, id).push(labels.len() - 1)
            } else {
                occurrence_indices(prefix, id)
            });
        assert(forall|id: Id<K>|
            occurrence_indices(prefix, id).len() > 0 ==> #[trigger] occurrence_indices(labels, id)[0]
                == occurrence_indices(prefix, id)[0]);
        if ord0.contains(labels.last().id) {
            assert(ord == ord0);
            assert(forall|i: int|
                0 <= i < labels.len() ==> ord.contains(#[trigger] labels[i].id)) by {
                assert(forall|i: int|
                    0 <= i < prefix.len() ==> ord0.contains(#[trigger] prefix[i].id));
                assert(ord.contains(labels[labels.len() - 1].id));
            }
        } else {
            assert(ord == ord0.push(labels.last().id));
            assert(forall|j: int| 0 <= j < ord0.len() ==> ord[j] == #[trigger] ord0[j]);
            assert(ord[ord.len() - 1] == labels.last().id);
            // Every label identity is listed.
            assert forall|i: int| 0 <= i < labels.len() implies ord.contains(
                #[trigger] labels[i].id,
            ) by {
                if i < labels.len() - 1 {
                    assert(ord0.contains(labels[i].id));
                    let t = choose|t: int| 0 <= t < ord0.len() && ord0[t] == labels[i].id;
                    assert(ord[t] == labels[i].id);
                } else {
                    assert(ord[ord.len() - 1] == labels[i].id);
                }
            }
            // The new identity never occurs in the prefix: otherwise the
            // induction hypothesis would have put it into `ord0`.
            assert(occurrence_indices(prefix, labels.last().id).len() == 0) by {
                if occurrence_indices(prefix, labels.last().id).len() > 0 {
                    assert(prefix[occurrence_indices(prefix, labels.last().id)[0]].id
                        == labels.last().id);
                    assert(ord0.contains(labels.last().id));
                }
            }
            assert(occurrence_indices(labels, labels.last().id)[0] == labels.len() - 1);
            // Earlier identities first occur inside the prefix.
            assert forall|j1: int, j2: int|
                0 <= j1 < j2 < ord.len() implies occurrence_indices(labels, ord[j1])[0]
                < occurrence_indices(labels, ord[j2])[0] by {
                if j2 < ord.len() - 1 {
                    assert(occurrence_indices(prefix, ord0[j1]).len() > 0);
                    assert(occurrence_indices(prefix, ord0[j2]).len() > 0);
                } else {
                    assert(occurrence_indices(prefix, ord0[j1]).len() > 0);
                    lemma_occurrence_indices_characterize(prefix, ord0[j1]);
                    assert(occurrence_indices(labels, ord[j1])[0] == occurrence_indices(
                        prefix,
                        ord0[j1],
                    )[0]);
                    assert(occurrence_indices(prefix, ord0[j1])[0] < prefix.len());
                }
            }
        }
    }
}

/// Partition: every label position belongs to the group of its own identity
/// and to no other group, so the groups cover the positions exactly once.
pub proof fn lemma_groups_partition_positions<const K: usize>(labels: Seq<Label<K>>, i: int)
    requires
        0 <= i < labels.len(),
    ensures
        exists|j: int|
            0 <= j < first_occurrence_ids(labels).len() && occurrence_indices(
                labels,
                first_occurrence_ids(labels)[j],
            ).contains(i) && (forall|j2: int|
                0 <= j2 < first_occurrence_ids(labels).len() && j2 != j
                    ==> !occurrence_indices(labels, first_occurrence_ids(labels)[j2]).contains(i)),
{
    lemma_first_occurrence_ids_correct(labels);
    let ord = first_occurrence_ids(labels);
    assert(ord.contains(labels[i].id));
    let j = choose|j: int| 0 <= j < ord.len() && ord[j] == labels[i].id;
    lemma_occurrence_indices_characterize(labels, ord[j]);
    assert(occurrence_indices(labels, ord[j]).contains(i));
    assert forall|j2: int|
        0 <= j2 < ord.len() && j2 != j implies !occurrence_indices(labels, ord[j2]).contains(
        i,
    ) by {
        lemma_occurrence_indices_characterize(labels, ord[j2]);
        if occurrence_indices(labels, ord[j2]).contains(i) {
            let occ2 = occurrence_indices(labels, ord[j2]);
            let k = choose|k: int| 0 <= k < occ2.len() && occ2[k] == i;
            assert(labels[i].id == ord[j2]);
            assert(ord[j] != ord[j2]);
        }
    }
}

/// Zero-coefficient annihilation for a positional weighted sum: when the
/// coefficient at position `i` is zero, the sum does not depend on the
/// value at position `i`.
pub proof fn lemma_wsum_mod_zero_coeff(c: Seq<int>, m1: Seq<int>, m2: Seq<int>, i: int)
    requires
        c.len() == m1.len(),
        c.len() == m2.len(),
        0 <= i < c.len(),
        c[i] == 0,
        forall|t: int| 0 <= t < c.len() && t != i ==> m1[t] == m2[t],
    ensures
        wsum_mod(c, m1) == wsum_mod(c, m2),
    decreases c.len(),
{
    if i == c.len() - 1 {
        assert(m1.drop_last() =~= m2.drop_last());
        assert(c.last() * m1.last() == 0) by (nonlinear_arith)
            requires c.last() == 0;
        assert(c.last() * m2.last() == 0) by (nonlinear_arith)
            requires c.last() == 0;
    } else {
        lemma_wsum_mod_zero_coeff(c.drop_last(), m1.drop_last(), m2.drop_last(), i);
        assert(m1.last() == m2.last());
    }
}

/// Zero-coefficient annihilation at the aggregate level: when a program
/// coefficient is zero, the aggregate that `eval` returns does not depend on
/// the share at that position — the identity list, the aggregated point's
/// discrete logarithm, and every combined message are the same for any two
/// share lists that differ only there.
pub proof fn lemma_eval_zero_coeff_annihilates<const K: usize>(
    program: &LabeledProgram<K>,
    shares1: Seq<SignShare<K>>,
    shares2: Seq<SignShare<K>>,
    aggr1: SignAggr<K>,
    aggr2: SignAggr<K>,
    i: int,
)
    requires
        shares1.len() == program.spec_coeffs().len(),
        program.spec_labels().len() == program.spec_coeffs().len(),
        shares2.len() == shares1.len(),
        0 <= i < shares1.len(),
        fr_val(program.spec_coeffs()[i]) == 0,
        forall|t: int| 0 <= t < shares1.len() && t != i ==> shares1[t] == shares2[t],
        spec_eval_aggr(program, shares1, aggr1),
        spec_eval_aggr(program, shares2, aggr2),
    ensures
        aggr1.spec_ord_ids() == aggr2.spec_ord_ids(),
        g1_val(aggr1.spec_gamma()) == g1_val(aggr2.spec_gamma()),
        aggr1.spec_mus().len() == aggr2.spec_mus().len(),
        forall|j: int|
            0 <= j < aggr1.spec_mus().len() ==> fr_val(#[trigger] aggr1.spec_mus()[j]) == fr_val(
                aggr2.spec_mus()[j],
            ),
{
    let cv = scalar_vals(program.spec_coeffs());
    let gv1 = share_gamma_vals(shares1);
    let gv2 = share_gamma_vals(shares2);
    let mv1 = share_mu_vals(shares1);
    let mv2 = share_mu_vals(shares2);
    assert(cv[i] == 0);
    lemma_wsum_mod_zero_coeff(cv, gv1, gv2, i);
    assert forall|j: int| 0 <= j < aggr1.spec_mus().len() implies fr_val(
        #[trigger] aggr1.spec_mus()[j],
    ) == fr_val(aggr2.spec_mus()[j]) by {
        let occ = occurrence_indices(program.spec_labels(), aggr1.spec_ord_ids()[j]);
        lemma_occurrence_indices_characterize(program.spec_labels(), aggr1.spec_ord_ids()[j]);
        lemma_wsum_mod_at_zero_coeff(cv, mv1, mv2, occ, i);
    }
}

/// Zero-coefficient annihilation for a grouped weighted sum: when the
/// coefficient at position `i` is zero, the sum over any in-range index list
/// does not depend on the value at position `i`.
pub proof fn lemma_wsum_mod_at_zero_coeff(
    c: Seq<int>,
    m1: Seq<int>,
    m2: Seq<int>,
    idxs: Seq<int>,
    i: int,
)
    requires
        m1.len() == c.len(),
        m2.len() == c.len(),
        0 <= i < c.len(),
        c[i] == 0,
        forall|t: int| 0 <= t < c.len() && t != i ==> m1[t] == m2[t],
        forall|k: int| 0 <= k < idxs.len() ==> 0 <= #[trigger] idxs[k] < c.len(),
    ensures
        wsum_mod_at(c, m1, idxs) == wsum_mod_at(c, m2, idxs),
    decreases idxs.len(),
{
    if idxs.len() > 0 {
        assert(forall|k: int|
            0 <= k < idxs.drop_last().len() ==> 0 <= #[trigger] idxs.drop_last()[k] < c.len());
        lemma_wsum_mod_at_zero_coeff(c, m1, m2, idxs.drop_last(), i);
        let x = idxs.last();
        if x == i {
            assert(c[x] * m1[x] == 0) by (nonlinear_arith)
                requires c[x] == 0;
            assert(c[x] * m2[x] == 0) by (nonlinear_arith)
                requires c[x] == 0;
        } else {
            assert(m1[x] == m2[x]);
        }
    }
}

/// Round trip: an aggregate that `eval` returned for a single-entry program
/// with coefficient one carries the share's own signature point (equal
/// discrete logarithm), exactly that share's signer identity, and that
/// share's message scalar.
pub proof fn lemma_eval_single_coeff_one<const K: usize>(
    program: &LabeledProgram<K>,
    share: SignShare<K>,
    aggr: SignAggr<K>,
)
    requires
        program.spec_coeffs().len() == 1,
        program.spec_labels().len() == 1,
        fr_val(program.spec_coeffs()[0]) == 1,
        0 <= g1_val(share.spec_gamma()) < fr_order(),
        0 <= fr_val(share.spec_mu()) < fr_order(),
        spec_eval_aggr(program, seq![share], aggr),
    ensures
        g1_val(aggr.spec_gamma()) == g1_val(share.spec_gamma()),
        aggr.spec_ord_ids() =~= seq![program.spec_labels()[0].id],
        program.spec_labels()[0].id == share.spec_id() ==> aggr.spec_ord_ids() =~= seq![
            share.spec_id(),
        ],
        aggr.spec_mus().len() == 1,
        fr_val(aggr.spec_mus()[0]) == fr_val(share.spec_mu()),
{
    let q = fr_order();
    let labels = program.spec_labels();
    let cv = scalar_vals(program.spec_coeffs());
    let gv = share_gamma_vals(seq![share]);
    let mv = share_mu_vals(seq![share]);
    assert(cv.len() == 1 && cv[0] == 1);
    assert(gv.len() == 1 && gv[0] == g1_val(share.spec_gamma()));
    assert(mv.len() == 1 && mv[0] == fr_val(share.spec_mu()));
    let e = labels.drop_last();
    assert(e.len() == 0);
    assert(first_occurrence_ids(e).len() == 0);
    assert(!first_occurrence_ids(e).contains(labels.last().id));
    assert(first_occurrence_ids(labels) == first_occurrence_ids(e).push(labels.last().id));
    assert(first_occurrence_ids(labels) =~= seq![labels[0].id]);
    assert(occurrence_indices(e, labels[0].id).len() == 0);
    assert(occurrence_indices(labels, labels[0].id) == occurrence_indices(e, labels[0].id).push(
        0,
    ));
    assert(occurrence_indices(labels, labels[0].id) =~= seq![0int]);
    assert(wsum_mod(cv, gv) == (0 + cv[0] * gv[0]) % q) by {
        assert(cv.drop_last().len() == 0);
        assert(wsum_mod(cv.drop_last(), gv.drop_last()) == 0);
        assert(cv.last() == cv[0] && gv.last() == gv[0]);
    }
    vstd::arithmetic::div_mod::lemma_small_mod(gv[0] as nat, q as nat);
    assert(wsum_mod_at(cv, mv, seq![0int]) == (0 + cv[0] * mv[0]) % q) by {
        assert(seq![0int].drop_last().len() == 0);
        assert(wsum_mod_at(cv, mv, seq![0int].drop_last()) == 0);
        assert(seq![0int].last() == 0);
    }
    vstd::arithmetic::div_mod::lemma_small_mod(mv[0] as nat, q as nat);
    assert(fr_val(aggr.spec_mus()[0]) == fr_val(share.spec_mu()));
}


} // verus!
