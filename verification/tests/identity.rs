use field_exts::OpsIdentity;
use halo2_proofs::plonk::Expression;
use halo2curves::bn256::{Fq, Fr};
use halo2curves::ff::{Field as FieldOps, PrimeField};
use halo2curves::pasta;

fn samples<F: PrimeField>() -> Vec<F> {
    vec![
        F::ZERO,
        F::ONE,
        F::from(5),
        F::from_u128(0x0123_4567_89ab_cdef_fedc_ba98_7654_3210),
        -F::ONE,
        F::from(7).invert().unwrap(),
    ]
}

fn check_identity_laws<F>()
where
    F: PrimeField + OpsIdentity<Output = F>,
{
    for x in samples::<F>() {
        assert_eq!(<F as OpsIdentity>::zero() + x, x);
        assert_eq!(<F as OpsIdentity>::one() * x, x);
        assert_eq!(<F as OpsIdentity>::zero() * x, <F as OpsIdentity>::zero());
    }
}

fn constant_of<F: FieldOps>(node: &Expression<F>) -> F {
    node.evaluate(
        &|c| c,
        &|_| unreachable!("selector"),
        &|_| unreachable!("fixed query"),
        &|_| unreachable!("advice query"),
        &|_| unreachable!("instance query"),
        &|_| unreachable!("negation"),
        &|_, _| unreachable!("sum"),
        &|_, _| unreachable!("product"),
        &|_, _| unreachable!("scaling"),
    )
}

#[test]
fn identity_laws_bn256_scalar() {
    check_identity_laws::<Fr>();
}

#[test]
fn identity_laws_bn256_base() {
    check_identity_laws::<Fq>();
}

#[test]
fn identity_laws_pasta_fp() {
    check_identity_laws::<pasta::Fp>();
}

#[test]
fn identity_laws_pasta_fq() {
    check_identity_laws::<pasta::Fq>();
}

#[test]
fn identities_are_the_fields_constants() {
    assert_eq!(<Fr as OpsIdentity>::zero(), Fr::ZERO);
    assert_eq!(<Fr as OpsIdentity>::one(), Fr::ONE);
    assert_eq!(<Fq as OpsIdentity>::zero(), Fq::ZERO);
    assert_eq!(<Fq as OpsIdentity>::one(), Fq::ONE);
    assert_eq!(<pasta::Fp as OpsIdentity>::zero(), pasta::Fp::ZERO);
    assert_eq!(<pasta::Fp as OpsIdentity>::one(), pasta::Fp::ONE);
    assert_eq!(<pasta::Fq as OpsIdentity>::zero(), pasta::Fq::ZERO);
    assert_eq!(<pasta::Fq as OpsIdentity>::one(), pasta::Fq::ONE);
}

#[test]
fn identities_have_canonical_values_zero_and_one() {
    let mut one = [0u8; 32];
    one[0] = 1;
    assert_eq!(<Fr as OpsIdentity>::zero().to_repr(), [0u8; 32]);
    assert_eq!(<Fr as OpsIdentity>::one().to_repr(), one);
    assert_eq!(<Fq as OpsIdentity>::zero().to_repr(), [0u8; 32]);
    assert_eq!(<Fq as OpsIdentity>::one().to_repr(), one);
    assert_eq!(<pasta::Fp as OpsIdentity>::zero().to_repr(), [0u8; 32]);
    assert_eq!(<pasta::Fp as OpsIdentity>::one().to_repr(), one);
    assert_eq!(<pasta::Fq as OpsIdentity>::zero().to_repr(), [0u8; 32]);
    assert_eq!(<pasta::Fq as OpsIdentity>::one().to_repr(), one);
}

#[test]
fn zero_and_one_differ() {
    assert_ne!(<Fr as OpsIdentity>::zero(), <Fr as OpsIdentity>::one());
    assert_ne!(<Fq as OpsIdentity>::zero(), <Fq as OpsIdentity>::one());
    assert_ne!(<pasta::Fp as OpsIdentity>::zero(), <pasta::Fp as OpsIdentity>::one());
    assert_ne!(<pasta::Fq as OpsIdentity>::zero(), <pasta::Fq as OpsIdentity>::one());
}

#[test]
fn expression_zero_is_a_constant_leaf() {
    let node = <Expression<Fr> as OpsIdentity>::zero();
    assert!(matches!(node, Expression::Constant(c) if c == Fr::ZERO));
    let node = <Expression<Fq> as OpsIdentity>::zero();
    assert!(matches!(node, Expression::Constant(c) if c == Fq::ZERO));
    let node = <Expression<pasta::Fp> as OpsIdentity>::zero();
    assert!(matches!(node, Expression::Constant(c) if c == pasta::Fp::ZERO));
}

#[test]
fn expression_one_is_a_constant_leaf() {
    let node = <Expression<Fr> as OpsIdentity>::one();
    assert!(matches!(node, Expression::Constant(c) if c == Fr::ONE));
    let node = <Expression<Fq> as OpsIdentity>::one();
    assert!(matches!(node, Expression::Constant(c) if c == Fq::ONE));
    let node = <Expression<pasta::Fp> as OpsIdentity>::one();
    assert!(matches!(node, Expression::Constant(c) if c == pasta::Fp::ONE));
}

#[test]
fn expression_identities_evaluate_to_the_fields_identities() {
    assert_eq!(constant_of(&<Expression<Fr> as OpsIdentity>::zero()), Fr::ZERO);
    assert_eq!(constant_of(&<Expression<Fr> as OpsIdentity>::one()), Fr::ONE);
    assert_eq!(constant_of(&<Expression<Fq> as OpsIdentity>::zero()), Fq::ZERO);
    assert_eq!(constant_of(&<Expression<Fq> as OpsIdentity>::one()), Fq::ONE);
    assert_eq!(
        constant_of(&<Expression<pasta::Fp> as OpsIdentity>::zero()),
        pasta::Fp::ZERO
    );
    assert_eq!(
        constant_of(&<Expression<pasta::Fp> as OpsIdentity>::one()),
        pasta::Fp::ONE
    );
}

#[test]
fn expression_identities_compose_without_evaluation() {
    let sum = <Expression<Fr> as OpsIdentity>::zero() + <Expression<Fr> as OpsIdentity>::one();
    assert!(matches!(sum, Expression::Sum(_, _)));
    assert_eq!(sum.degree(), 0);
}

#[test]
fn constant_leaf_holds_the_element_it_was_made_of() {
    let x = Fr::from(42);
    let node = field_exts::Field::constant(x);
    assert!(matches!(node, Expression::Constant(c) if c == x));
    let y = Fq::from(43);
    let node = field_exts::Field::constant(y);
    assert!(matches!(node, Expression::Constant(c) if c == y));
    let z = pasta::Fp::from(44);
    let node = field_exts::Field::constant(z);
    assert!(matches!(node, Expression::Constant(c) if c == z));
}
