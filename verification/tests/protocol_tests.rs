use mklhs::algebra::{
    fr_add, fr_from_u64, fr_mul, fr_random, fr_zero, g1_add, g1_mul, g1_zero, hash_to_g1,
    hash_to_g1_with, make_h2g1, Scalar, G1,
};
use mklhs::errors::ProtocolError;
use mklhs::params::Params;
use mklhs::protocol::{eval, keygen, organize, sign};
use mklhs::types::{Id, Label, LabeledProgram, SignShare, Tag};

use ark_std::rand::RngCore;
use ark_std::test_rng;

fn rand_tag<const K: usize, R: RngCore>(rng: &mut R) -> Tag<K> {
    let mut b = [0u8; K];
    rng.try_fill_bytes(&mut b).unwrap();
    Tag(b)
}

#[test]
fn keygen_smoke() {
    let pp = Params::<32>::new();
    let mut rng = ark_std::test_rng();
    let (_sk, pk) = keygen(&pp, &mut rng).expect("keygen failed");
    assert_eq!(pk.id().0.len(), 32);
}

#[test]
fn organize_smoke() {
    const K: usize = 8;
    let mut rng = test_rng();

    // build labels with repeated ids in a known pattern:
    // ids: A,B,A,C,B,A  => ord_ids should be [A,B,C]
    let id_a = Id::<K>([1u8; K]);
    let id_b = Id::<K>([2u8; K]);
    let id_c = Id::<K>([3u8; K]);

    let labels = vec![
        Label::new(id_a, rand_tag::<K, _>(&mut rng)),
        Label::new(id_b, rand_tag::<K, _>(&mut rng)),
        Label::new(id_a, rand_tag::<K, _>(&mut rng)),
        Label::new(id_c, rand_tag::<K, _>(&mut rng)),
        Label::new(id_b, rand_tag::<K, _>(&mut rng)),
        Label::new(id_a, rand_tag::<K, _>(&mut rng)),
    ];

    let (ord_ids, groups) = organize(&labels);

    assert_eq!(ord_ids, vec![id_a, id_b, id_c]);
    assert_eq!(groups.len(), ord_ids.len());

    // 1. groups cover all indices exactly once
    let mut seen = vec![false; labels.len()];
    for idxs in &groups {
        for &i in idxs {
            assert!(i < labels.len());
            assert!(!seen[i], "index {i} appears in multiple groups");
            seen[i] = true;
        }
    }
    assert!(
        seen.iter().all(|b| *b == true),
        "some indices are not covered"
    );

    // 2. each group corresponds to its id
    for (j, id) in ord_ids.iter().enumerate() {
        for &i in &groups[j] {
            assert_eq!(labels[i].id(), *id);
        }
    }
}

#[test]
fn eval_smoke() {
    const K: usize = 8;

    let pp = Params::<K>::new();
    let mut rng = test_rng();

    // one user, one message, coeff=1 => eval should reproduce the same mu
    let (sk, _pk) = keygen(&pp, &mut rng).expect("keygen failed");

    let tag = rand_tag::<K, _>(&mut rng);
    let label = Label::new(sk.id(), tag);
    let msg = fr_random(&mut rng);

    let share = sign(&pp, &sk, label, msg).expect("sign failed");

    // labeled program with n=1, f1=1
    let program = LabeledProgram::new(vec![fr_from_u64(1)], vec![label])
        .expect("labeled program build failed");

    let aggr = eval(&pp, &program, vec![share.clone()]).expect("eval failed");

    // gamma should match share.gamma (since coeff=1)
    assert_eq!(aggr.gamma(), share.gamma());
    // ord_ids should contain just that signer
    assert_eq!(aggr.ord_ids(), [sk.id()].as_slice());
    // mu list should contain just msg
    assert_eq!(aggr.mus(), [msg].as_slice());
}

#[test]
fn eval_single_user_weighted_sum() {
    // one user, 3 messages, coeffs = [2, 3, 5]
    // expected: gamma = γ1*2 + γ2*3 + γ3*5, mu = 2*m1 + 3*m2 + 5*m3
    const K: usize = 8;
    let pp = Params::<K>::new();
    let mut rng = test_rng();

    let (sk, _pk) = keygen(&pp, &mut rng).unwrap();

    let msgs: Vec<Scalar> = (0..3).map(|_| fr_random(&mut rng)).collect();
    let tags: Vec<Tag<K>> = (0..3).map(|_| rand_tag::<K, _>(&mut rng)).collect();
    let labels: Vec<Label<K>> = tags.iter().map(|t| Label::new(sk.id(), *t)).collect();

    let shares: Vec<SignShare<K>> = labels
        .iter()
        .zip(msgs.iter())
        .map(|(l, m)| sign(&pp, &sk, *l, *m).unwrap())
        .collect();

    let coeffs = vec![fr_from_u64(2), fr_from_u64(3), fr_from_u64(5)];

    let program = LabeledProgram::new(coeffs.clone(), labels).unwrap();
    let aggr = eval(&pp, &program, shares.clone()).unwrap();

    // Only one signer
    assert_eq!(aggr.ord_ids().len(), 1);
    assert_eq!(aggr.ord_ids()[0], sk.id());

    // mu should equal weighted sum of messages
    let expected_mu: Scalar = coeffs
        .iter()
        .zip(msgs.iter())
        .fold(fr_zero(), |acc, (f, m)| fr_add(&acc, &fr_mul(f, m)));
    assert_eq!(aggr.mus()[0], expected_mu);

    // gamma should equal weighted sum of gammas
    let expected_gamma: G1 = coeffs
        .iter()
        .zip(shares.iter())
        .fold(g1_zero(), |acc, (f, sh)| g1_add(&acc, &g1_mul(sh.gamma(), f)));
    assert_eq!(*aggr.gamma(), expected_gamma);
}

#[test]
fn eval_two_users_one_msg_each() {
    // two users, one message each, coeffs = [1, 1]
    const K: usize = 8;
    let pp = Params::<K>::new();
    let mut rng = test_rng();

    let (sk_a, _pk_a) = keygen(&pp, &mut rng).unwrap();
    let (sk_b, _pk_b) = keygen(&pp, &mut rng).unwrap();

    let msg_a = fr_random(&mut rng);
    let msg_b = fr_random(&mut rng);

    let lab_a = Label::new(sk_a.id(), rand_tag::<K, _>(&mut rng));
    let lab_b = Label::new(sk_b.id(), rand_tag::<K, _>(&mut rng));

    let sh_a = sign(&pp, &sk_a, lab_a, msg_a).unwrap();
    let sh_b = sign(&pp, &sk_b, lab_b, msg_b).unwrap();

    let coeffs = vec![fr_from_u64(1), fr_from_u64(1)];
    let program = LabeledProgram::new(coeffs, vec![lab_a, lab_b]).unwrap();
    let aggr = eval(&pp, &program, vec![sh_a.clone(), sh_b.clone()]).unwrap();

    // two different signers
    assert_eq!(aggr.ord_ids().len(), 2);
    assert_eq!(aggr.ord_ids()[0], sk_a.id());
    assert_eq!(aggr.ord_ids()[1], sk_b.id());

    // gamma should be the sum of gammas (coeff=1)
    assert_eq!(*aggr.gamma(), g1_add(sh_a.gamma(), sh_b.gamma()));

    // each mu should just be the original message (coeff=1, one msg per user)
    assert_eq!(aggr.mus()[0], msg_a);
    assert_eq!(aggr.mus()[1], msg_b);
}

#[test]
fn eval_two_users_multiple_msgs() {
    // user A signs m1, m2
    // user B signs m3
    // labels order: [A, B, A] => ord_ids = [A, B]
    // coeffs = [2, 3, 4]
    // mu_A = 2*m1 + 4*m3_A, mu_B = 3*m2_B
    const K: usize = 8;
    let pp = Params::<K>::new();
    let mut rng = test_rng();

    let (sk_a, _) = keygen(&pp, &mut rng).unwrap();
    let (sk_b, _) = keygen(&pp, &mut rng).unwrap();

    let m1 = fr_random(&mut rng);
    let m2 = fr_random(&mut rng);
    let m3 = fr_random(&mut rng);

    let lab1 = Label::new(sk_a.id(), rand_tag::<K, _>(&mut rng));
    let lab2 = Label::new(sk_b.id(), rand_tag::<K, _>(&mut rng));
    let lab3 = Label::new(sk_a.id(), rand_tag::<K, _>(&mut rng));

    let sh1 = sign(&pp, &sk_a, lab1, m1).unwrap();
    let sh2 = sign(&pp, &sk_b, lab2, m2).unwrap();
    let sh3 = sign(&pp, &sk_a, lab3, m3).unwrap();

    let coeffs = vec![fr_from_u64(2), fr_from_u64(3), fr_from_u64(4)];
    let program = LabeledProgram::new(coeffs.clone(), vec![lab1, lab2, lab3]).unwrap();
    let aggr = eval(&pp, &program, vec![sh1.clone(), sh2.clone(), sh3.clone()]).unwrap();

    // ord_ids: A first, then B
    assert_eq!(aggr.ord_ids().len(), 2);
    assert_eq!(aggr.ord_ids()[0], sk_a.id());
    assert_eq!(aggr.ord_ids()[1], sk_b.id());

    // mu_A = 2*m1 + 4*m3
    let expected_mu_a = fr_add(&fr_mul(&fr_from_u64(2), &m1), &fr_mul(&fr_from_u64(4), &m3));
    assert_eq!(aggr.mus()[0], expected_mu_a);

    // mu_B = 3*m2
    let expected_mu_b = fr_mul(&fr_from_u64(3), &m2);
    assert_eq!(aggr.mus()[1], expected_mu_b);

    // gamma = 2*γ1 + 3*γ2 + 4*γ3
    let expected_gamma = g1_add(
        &g1_add(
            &g1_mul(sh1.gamma(), &fr_from_u64(2)),
            &g1_mul(sh2.gamma(), &fr_from_u64(3)),
        ),
        &g1_mul(sh3.gamma(), &fr_from_u64(4)),
    );
    assert_eq!(*aggr.gamma(), expected_gamma);
}

#[test]
fn eval_zero_coefficients() {
    // coeff=0 should contribute nothing
    const K: usize = 8;
    let pp = Params::<K>::new();
    let mut rng = test_rng();

    let (sk, _) = keygen(&pp, &mut rng).unwrap();

    let m1 = fr_random(&mut rng);
    let m2 = fr_random(&mut rng);

    let lab1 = Label::new(sk.id(), rand_tag::<K, _>(&mut rng));
    let lab2 = Label::new(sk.id(), rand_tag::<K, _>(&mut rng));

    let sh1 = sign(&pp, &sk, lab1, m1).unwrap();
    let sh2 = sign(&pp, &sk, lab2, m2).unwrap();

    let coeffs = vec![fr_from_u64(7), fr_zero()];
    let program = LabeledProgram::new(coeffs, vec![lab1, lab2]).unwrap();
    let aggr = eval(&pp, &program, vec![sh1.clone(), sh2]).unwrap();

    // mu should only reflect m1
    assert_eq!(aggr.mus()[0], fr_mul(&fr_from_u64(7), &m1));

    // gamma should only reflect sh1
    assert_eq!(*aggr.gamma(), g1_mul(sh1.gamma(), &fr_from_u64(7)));
}

#[test]
fn eval_length_mismatch_error() {
    const K: usize = 8;
    let pp = Params::<K>::new();
    let mut rng = test_rng();

    let (sk, _) = keygen(&pp, &mut rng).unwrap();

    let lab = Label::new(sk.id(), rand_tag::<K, _>(&mut rng));
    let sh = sign(&pp, &sk, lab, fr_from_u64(42u64)).unwrap();

    // 2 coeffs but 1 label
    assert!(
        LabeledProgram::new(vec![fr_from_u64(1u64), fr_from_u64(2u64)], vec![lab],).is_err()
    );

    // 1 coeff, 1 label, but 2 shares
    let program = LabeledProgram::new(vec![fr_from_u64(1u64)], vec![lab]).unwrap();
    assert!(eval(&pp, &program, vec![sh.clone(), sh]).is_err());
}

#[test]
fn length_mismatch_is_invalid_input() {
    const K: usize = 8;
    let pp = Params::<K>::new();
    let mut rng = test_rng();

    let (sk, _) = keygen(&pp, &mut rng).unwrap();
    let lab = Label::new(sk.id(), rand_tag::<K, _>(&mut rng));
    let sh = sign(&pp, &sk, lab, fr_from_u64(1)).unwrap();

    let err = LabeledProgram::<K>::new(vec![fr_from_u64(1)], vec![]).unwrap_err();
    assert!(matches!(err, ProtocolError::InvalidInput(_)));

    let program = LabeledProgram::new(vec![fr_from_u64(1)], vec![lab]).unwrap();
    let err = eval(&pp, &program, vec![sh.clone(), sh]).unwrap_err();
    assert!(matches!(err, ProtocolError::InvalidInput(_)));
}

#[test]
fn sign_is_deterministic() {
    const K: usize = 8;
    let pp = Params::<K>::new();
    let mut rng = test_rng();

    let (sk, _) = keygen(&pp, &mut rng).unwrap();
    let label = Label::new(sk.id(), rand_tag::<K, _>(&mut rng));
    let msg = fr_random(&mut rng);

    let sh1 = sign(&pp, &sk, label, msg).unwrap();
    let sh2 = sign(&pp, &sk, label, msg).unwrap();
    assert_eq!(sh1.id(), sh2.id());
    assert_eq!(sh1.gamma(), sh2.gamma());
    assert_eq!(sh1.mu(), sh2.mu());

    // a rebuilt context carries the same tag and yields the same share
    let pp2 = Params::<K>::new();
    let sh3 = sign(&pp2, &sk, label, msg).unwrap();
    assert_eq!(sh1.gamma(), sh3.gamma());

    // a different tag for the same signer gives a different point
    let label2 = Label::new(sk.id(), rand_tag::<K, _>(&mut rng));
    let sh4 = sign(&pp, &sk, label2, msg).unwrap();
    assert_ne!(sh1.gamma(), sh4.gamma());
}

#[test]
fn zero_coefficient_share_message_is_irrelevant() {
    const K: usize = 8;
    let pp = Params::<K>::new();
    let mut rng = test_rng();

    let (sk, _) = keygen(&pp, &mut rng).unwrap();
    let lab1 = Label::new(sk.id(), rand_tag::<K, _>(&mut rng));
    let lab2 = Label::new(sk.id(), rand_tag::<K, _>(&mut rng));
    let sh1 = sign(&pp, &sk, lab1, fr_random(&mut rng)).unwrap();
    let sh2a = sign(&pp, &sk, lab2, fr_random(&mut rng)).unwrap();
    let sh2b = sign(&pp, &sk, lab2, fr_random(&mut rng)).unwrap();

    let coeffs = vec![fr_from_u64(5), fr_zero()];
    let program = LabeledProgram::new(coeffs, vec![lab1, lab2]).unwrap();
    let aggr_a = eval(&pp, &program, vec![sh1.clone(), sh2a]).unwrap();
    let aggr_b = eval(&pp, &program, vec![sh1, sh2b]).unwrap();

    assert_eq!(aggr_a.gamma(), aggr_b.gamma());
    assert_eq!(aggr_a.mus(), aggr_b.mus());
    assert_eq!(aggr_a.ord_ids(), aggr_b.ord_ids());
}

#[test]
fn eval_empty_program() {
    const K: usize = 8;
    let pp = Params::<K>::new();

    let program = LabeledProgram::<K>::new(vec![], vec![]).unwrap();
    let aggr = eval(&pp, &program, vec![]).unwrap();
    assert_eq!(*aggr.gamma(), g1_zero());
    assert!(aggr.ord_ids().is_empty());
    assert!(aggr.mus().is_empty());
}

struct FailingRng;

impl RngCore for FailingRng {
    fn next_u32(&mut self) -> u32 {
        0
    }

    fn next_u64(&mut self) -> u64 {
        0
    }

    fn fill_bytes(&mut self, dest: &mut [u8]) {
        for b in dest.iter_mut() {
            *b = 0;
        }
    }

    fn try_fill_bytes(&mut self, _dest: &mut [u8]) -> Result<(), ark_std::rand::Error> {
        Err(ark_std::rand::Error::from(core::num::NonZeroU32::new(1).unwrap()))
    }
}

#[test]
fn keygen_reports_randomness_failure() {
    let pp = Params::<8>::new();
    let mut rng = FailingRng;
    let err = keygen(&pp, &mut rng).unwrap_err();
    assert!(matches!(err, ProtocolError::Rng(_)));
}

struct ZeroRng;

impl RngCore for ZeroRng {
    fn next_u32(&mut self) -> u32 {
        0
    }

    fn next_u64(&mut self) -> u64 {
        0
    }

    fn fill_bytes(&mut self, dest: &mut [u8]) {
        for b in dest.iter_mut() {
            *b = 0;
        }
    }

    fn try_fill_bytes(&mut self, dest: &mut [u8]) -> Result<(), ark_std::rand::Error> {
        self.fill_bytes(dest);
        Ok(())
    }
}

#[test]
fn keygen_rejects_zero_only_randomness() {
    // a source that only ever yields zero cannot produce a valid signing key
    let pp = Params::<8>::new();
    let mut rng = ZeroRng;
    let err = keygen(&pp, &mut rng).unwrap_err();
    assert!(matches!(err, ProtocolError::Rng(_)));
}

#[test]
fn label_to_bytes_concatenates_id_and_tag() {
    let label = Label::new(Id::<2>([1, 2]), Tag::<2>([3, 4]));
    assert_eq!(label.to_bytes(), vec![1u8, 2, 3, 4]);
    assert_eq!(label.id().0, [1, 2]);
    assert_eq!(label.tag().0, [3, 4]);
}

#[test]
fn cached_hasher_is_bound_to_the_context_tag() {
    let pp = Params::<8>::new();

    // the context's cached instance hashes like a fresh instance for its tag
    let p1 = hash_to_g1_with(pp.h2g1_label(), b"hello").unwrap();
    let p2 = hash_to_g1(pp.dst_h2g1_label(), b"hello").unwrap();
    assert_eq!(p1, p2);

    // a rebuilt context carries an instance bound to the same tag
    let pp2 = Params::<8>::new();
    let p3 = hash_to_g1_with(pp2.h2g1_label(), b"hello").unwrap();
    assert_eq!(p1, p3);

    // an instance built for another tag hashes differently
    let other = make_h2g1(b"hejsansvejsan").unwrap();
    let p4 = hash_to_g1_with(&other, b"hello").unwrap();
    assert_ne!(p1, p4);
}
