use ark_bn254::Fr;
use ark_ff::{BigInt, Field, PrimeField};
use poseidon_hash::field::Felt;
use poseidon_hash::poseidon::{load_constants, Constants, Poseidon};

const ROUNDS_P: [usize; 8] = [56, 57, 56, 60, 60, 63, 64, 63];
const MODULUS: &str = "21888242871839275222246405745257275088548364400416034343698204186575808495617";

fn felt(s: &str) -> Felt {
    Felt::from_decimal(s).unwrap()
}

fn to_fr(f: &Felt) -> Fr {
    Fr::from_bigint(BigInt::new(f.limbs)).unwrap()
}

fn decimal(f: &Felt) -> String {
    to_fr(f).to_string()
}

// Numeral tables of the right shape: round constant `j` of arity `a` is
// `a * 1000 + j + 1`; the mixing matrix has 2 on its diagonal and `r + k + 1`
// elsewhere.
fn sample_text() -> (Vec<Vec<String>>, Vec<Vec<Vec<String>>>) {
    let mut c = Vec::new();
    let mut m = Vec::new();
    for a in 0..8 {
        let w = a + 2;
        let n = (8 + ROUNDS_P[a]) * w;
        c.push((0..n).map(|j| (a * 1000 + j + 1).to_string()).collect());
        let mut mat = Vec::new();
        for r in 0..w {
            let row: Vec<String> = (0..w)
                .map(|k| if r == k { "2".to_string() } else { (r + k + 1).to_string() })
                .collect();
            mat.push(row);
        }
        m.push(mat);
    }
    (c, m)
}

fn load(c: &Vec<Vec<String>>, m: &Vec<Vec<Vec<String>>>) -> Option<Constants> {
    let cs: Vec<Vec<&str>> = c.iter().map(|r| r.iter().map(|s| s.as_str()).collect()).collect();
    let ms: Vec<Vec<Vec<&str>>> = m
        .iter()
        .map(|mat| mat.iter().map(|r| r.iter().map(|s| s.as_str()).collect()).collect())
        .collect();
    load_constants(&cs, &ms)
}

fn sample_poseidon() -> Poseidon {
    let (c, m) = sample_text();
    Poseidon::new(load(&c, &m).unwrap())
}

// A direct computation of the permutation on ark's field type.
fn reference_hash(c: &Vec<Vec<String>>, m: &Vec<Vec<Vec<String>>>, inp: &[u64]) -> String {
    let t = inp.len() + 1;
    let a = t - 2;
    let cs: Vec<Fr> = c[a].iter().map(|s| s.parse().unwrap()).collect();
    let ms: Vec<Vec<Fr>> = m[a].iter().map(|r| r.iter().map(|s| s.parse().unwrap()).collect()).collect();
    let mut state: Vec<Fr> = vec![Fr::from(0u64)];
    state.extend(inp.iter().map(|&x| Fr::from(x)));
    let p = ROUNDS_P[a];
    for i in 0..(8 + p) {
        for j in 0..t {
            state[j] += cs[i * t + j];
        }
        for j in 0..t {
            if j == 0 || i < 4 || i >= 4 + p {
                state[j] = state[j].pow([5u64]);
            }
        }
        state = (0..t).map(|r| (0..t).map(|k| ms[r][k] * state[k]).sum()).collect();
    }
    state[0].to_string()
}

fn hash_u64(h: &Poseidon, inp: &[u64]) -> Result<Felt, String> {
    h.hash(inp.iter().map(|&x| Felt::from_u64(x)).collect())
}

#[test]
fn field_arithmetic_small_values() {
    let two = felt("2");
    let three = felt("3");
    assert_eq!(decimal(&two.add(&three)), "5");
    assert_eq!(decimal(&two.mul(&three)), "6");
    assert_eq!(decimal(&three.square()), "9");
    assert_eq!(decimal(&two.fifth_power()), "32");
    assert_eq!(decimal(&three.fifth_power()), "243");
}

#[test]
fn field_arithmetic_wraps_at_modulus() {
    let top = felt("21888242871839275222246405745257275088548364400416034343698204186575808495616");
    assert_eq!(top.add(&felt("1")), Felt::zero());
    assert_eq!(top.add(&felt("3")), felt("2"));
    assert_eq!(top.mul(&top), felt("1"));
    assert_eq!(top.square(), felt("1"));
}

#[test]
fn from_decimal_reads_numerals() {
    assert_eq!(felt("0"), Felt::zero());
    assert_eq!(felt("7"), Felt::from_u64(7));
    assert_eq!(felt("18446744073709551616").limbs, [0, 1, 0, 0]);
    assert_eq!(felt(MODULUS), Felt::zero());
    assert!(Felt::from_decimal("").is_none());
    assert!(Felt::from_decimal("01").is_none());
    assert!(Felt::from_decimal("00").is_none());
    assert!(Felt::from_decimal("1a").is_none());
    assert!(Felt::from_decimal("-1").is_none());
}

#[test]
fn ark_adds_constants_at_offset() {
    let h = sample_poseidon();
    let mut state = vec![felt("1"), felt("2")];
    let c = vec![felt("100"), felt("5"), felt("7")];
    h.ark(&mut state, &c, 1);
    assert_eq!(state, vec![felt("6"), felt("9")]);
}

#[test]
fn sbox_full_and_partial_rounds() {
    let h = sample_poseidon();
    let start = vec![felt("2"), felt("3"), felt("4")];
    for i in [0usize, 3, 60, 63] {
        let mut state = start.clone();
        h.sbox(8, 56, &mut state, i);
        assert_eq!(state, vec![felt("32"), felt("243"), felt("1024")], "round {}", i);
    }
    for i in [4usize, 30, 59] {
        let mut state = start.clone();
        h.sbox(8, 56, &mut state, i);
        assert_eq!(state, vec![felt("32"), felt("3"), felt("4")], "round {}", i);
    }
}

#[test]
fn mix_multiplies_by_matrix() {
    let h = sample_poseidon();
    let state = vec![felt("5"), felt("6")];
    let m = vec![vec![felt("1"), felt("2")], vec![felt("3"), felt("4")]];
    assert_eq!(h.mix(&state, &m), vec![felt("17"), felt("39")]);
}

#[test]
fn load_constants_keeps_values() {
    let (c, m) = sample_text();
    let k = load(&c, &m).unwrap();
    assert_eq!(k.n_rounds_f, 8);
    assert_eq!(k.n_rounds_p, ROUNDS_P.to_vec());
    assert_eq!(k.c.len(), 8);
    assert_eq!(k.m.len(), 8);
    assert_eq!(k.c[0].len(), 128);
    assert_eq!(decimal(&k.c[0][0]), "1");
    assert_eq!(decimal(&k.c[7][k.c[7].len() - 1]), "7639");
    assert_eq!(decimal(&k.m[0][0][0]), "2");
    assert_eq!(decimal(&k.m[7][8][0]), "9");
}

#[test]
fn load_constants_rejects_bad_tables() {
    let (c, m) = sample_text();
    let mut bad = c.clone();
    bad[2][5] = "05".to_string();
    assert!(load(&bad, &m).is_none());
    let mut bad = c.clone();
    bad[3].pop();
    assert!(load(&bad, &m).is_none());
    let mut bad = c.clone();
    bad.pop();
    assert!(load(&bad, &m).is_none());
    let mut bad = m.clone();
    bad[1][2][0] = "x".to_string();
    assert!(load(&c, &bad).is_none());
    let mut bad = m.clone();
    bad[4][0].push("1".to_string());
    assert!(load(&c, &bad).is_none());
}

#[test]
fn hash_rejects_wrong_lengths() {
    let h = sample_poseidon();
    assert_eq!(hash_u64(&h, &[]), Err("Wrong inputs length".to_string()));
    assert_eq!(hash_u64(&h, &[1, 2, 3, 4, 5, 6, 7]), Err("Wrong inputs length".to_string()));
    assert_eq!(hash_u64(&h, &[1, 2, 3, 4, 5, 6, 7, 8]), Err("Wrong inputs length".to_string()));
    for k in 1..=6u64 {
        let inp: Vec<u64> = (1..=k).collect();
        assert!(hash_u64(&h, &inp).is_ok(), "length {}", k);
    }
}

#[test]
fn hash_matches_direct_computation() {
    let (c, m) = sample_text();
    let h = Poseidon::new(load(&c, &m).unwrap());
    for inp in [vec![1u64], vec![1, 2], vec![1, 2, 0, 0, 0], vec![1, 2, 0, 0, 0, 0], vec![3, 4, 0, 0, 0], vec![1, 2, 3, 4, 5, 6]] {
        let got = hash_u64(&h, &inp).unwrap();
        assert_eq!(decimal(&got), reference_hash(&c, &m, &inp), "inputs {:?}", inp);
    }
}

#[test]
fn hash_is_deterministic() {
    let h = sample_poseidon();
    let a = hash_u64(&h, &[1, 2, 3]).unwrap();
    let b = hash_u64(&h, &[1, 2, 3]).unwrap();
    let other = sample_poseidon();
    let c = hash_u64(&other, &[1, 2, 3]).unwrap();
    assert_eq!(a, b);
    assert_eq!(a, c);
}

#[test]
fn hash_changes_with_each_input() {
    let h = sample_poseidon();
    let base = [1u64, 2, 3, 4, 5, 6];
    let d = hash_u64(&h, &base).unwrap();
    for i in 0..base.len() {
        let mut changed = base;
        changed[i] += 1;
        assert_ne!(hash_u64(&h, &changed).unwrap(), d, "position {}", i);
    }
    assert_ne!(hash_u64(&h, &[1, 2, 0, 0, 0]).unwrap(), hash_u64(&h, &[3, 4, 0, 0, 0]).unwrap());
    assert_ne!(hash_u64(&h, &[1, 2, 0, 0, 0]).unwrap(), hash_u64(&h, &[1, 2, 0, 0, 0, 0]).unwrap());
}
