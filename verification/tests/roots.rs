use diffsquare::bigint::{is_negative, is_zero};
use diffsquare::legendre::{LegendreTable, QuadraticResidueFilter, NON_RESIDUE, RESIDUE};
use diffsquare::legendre::legendre_tables;
use diffsquare::sqrt::{is_probably_square, sqrt_ceil, sqrt_exact};
use diffsquare::utils::sqr_perf;
use malachite::Integer;
use std::str::FromStr;

#[test]
fn sqrt_exact_gives_floor_and_exactness() {
    assert_eq!(sqrt_exact(&Integer::from(0)), (true, Integer::from(0)));
    assert_eq!(sqrt_exact(&Integer::from(1)), (true, Integer::from(1)));
    assert_eq!(sqrt_exact(&Integer::from(2)), (false, Integer::from(1)));
    assert_eq!(sqrt_exact(&Integer::from(99)), (false, Integer::from(9)));
    assert_eq!(sqrt_exact(&Integer::from(100)), (true, Integer::from(10)));
    assert_eq!(sqrt_exact(&Integer::from(101)), (false, Integer::from(10)));
}

#[test]
fn sqrt_exact_handles_many_limbs() {
    let root = Integer::from_str("123456789012345678901234567890123456789").unwrap();
    let square = &root * &root;
    assert_eq!(sqrt_exact(&square), (true, root.clone()));
    assert_eq!(sqrt_exact(&(&square + Integer::from(1))), (false, root.clone()));
    assert_eq!(sqrt_exact(&(&square - Integer::from(1))), (false, &root - Integer::from(1)));
}

#[test]
fn sqrt_ceil_rounds_up() {
    assert_eq!(sqrt_ceil(&Integer::from(0)), Integer::from(0));
    assert_eq!(sqrt_ceil(&Integer::from(1)), Integer::from(1));
    assert_eq!(sqrt_ceil(&Integer::from(2)), Integer::from(2));
    assert_eq!(sqrt_ceil(&Integer::from(99)), Integer::from(10));
    assert_eq!(sqrt_ceil(&Integer::from(100)), Integer::from(10));
    assert_eq!(sqrt_ceil(&Integer::from(101)), Integer::from(11));
    assert_eq!(sqrt_ceil(&Integer::from(5959)), Integer::from(78));
}

#[test]
fn sqrt_ceil_agrees_with_sqrt_exact() {
    for v in 0u64..3000 {
        let n = Integer::from(v);
        let (exact, root) = sqrt_exact(&n);
        let expected = if exact { root } else { root + Integer::from(1) };
        assert_eq!(sqrt_ceil(&n), expected, "at {}", v);
    }
}

#[test]
fn filter_passes_every_square() {
    for r in 0u64..5000 {
        assert!(is_probably_square(&Integer::from(r * r)), "{} squared", r);
        assert!(sqr_perf(&Integer::from(r * r)), "{} squared", r);
    }
    let root = Integer::from_str("98765432109876543210987654321098765432109876543210").unwrap();
    assert!(is_probably_square(&(&root * &root)));
    assert!(sqr_perf(&(&root * &root)));
}

#[test]
fn filter_lets_some_non_squares_pass() {
    // 3045 leaves the residue of a square modulo each of the ten primes
    assert!(is_probably_square(&Integer::from(3045)));
    assert!(sqr_perf(&Integer::from(3045)));
    assert_eq!(sqrt_exact(&Integer::from(3045)), (false, Integer::from(55)));
    for v in 0u64..3045 {
        let n = Integer::from(v);
        assert_eq!(is_probably_square(&n), sqrt_exact(&n).0, "at {}", v);
    }
}

#[test]
fn filter_rejects_at_each_prime() {
    // each of these passes the primes before the one named and fails it
    let filter = QuadraticResidueFilter::new();
    for (v, prime) in [
        (2u64, 3u64),
        (3, 5),
        (6, 7),
        (21, 11),
        (15, 13),
        (91, 17),
        (246, 19),
        (429, 23),
        (1005, 29),
        (399, 31),
    ] {
        let n = Integer::from(v);
        assert!(!filter.passes(&n), "{} fails at {}", v, prime);
        let mut seen = false;
        for table in filter.tables.iter() {
            let class = (v % table.prime) as usize;
            if table.prime == prime {
                assert_eq!(table.marks[class], NON_RESIDUE);
                seen = true;
                break;
            }
            assert_eq!(table.marks[class], RESIDUE);
        }
        assert!(seen);
    }
}

#[test]
fn both_tests_agree_on_non_negative_numbers() {
    for v in 0u64..20000 {
        let n = Integer::from(v);
        assert_eq!(sqr_perf(&n), is_probably_square(&n), "at {}", v);
    }
}

#[test]
fn sqr_perf_on_negative_numbers() {
    // a negative remainder is the residue of no square
    assert!(!sqr_perf(&Integer::from(-1)));
    assert!(!sqr_perf(&Integer::from(-4)));
    assert!(!sqr_perf(&Integer::from(-3)));
    // the product of the ten primes leaves no remainder at all
    assert!(sqr_perf(&Integer::from(-100280245065i64)));
    assert!(sqr_perf(&Integer::from(100280245065i64)));
}

#[test]
fn tables_of_the_first_primes() {
    let tables = legendre_tables();
    let primes: Vec<u64> = tables.iter().map(|t| t.prime).collect();
    assert_eq!(primes, vec![3, 5, 7, 11, 13, 17, 19, 23, 29, 31]);
    assert_eq!(tables[0].marks, vec![1, 1, -1]);
    assert_eq!(tables[1].marks, vec![1, 1, -1, -1, 1]);
    assert_eq!(tables[2].marks, vec![1, 1, 1, -1, 1, -1, -1]);
}

#[test]
fn tables_mark_zero_and_half_of_the_rest() {
    for table in legendre_tables().iter() {
        assert_eq!(table.marks[0], RESIDUE);
        let residues = table.marks.iter().filter(|&&m| m == RESIDUE).count() as u64;
        let others = table.marks.iter().filter(|&&m| m == NON_RESIDUE).count() as u64;
        assert_eq!(residues, (table.prime + 1) / 2);
        assert_eq!(others, (table.prime - 1) / 2);
    }
}

#[test]
fn table_of_any_modulus() {
    let table = LegendreTable::build(8);
    assert_eq!(table.prime, 8);
    assert_eq!(table.marks, vec![1, 1, -1, -1, 1, -1, -1, -1]);
    assert!(table.holds_square(4));
    assert!(!table.holds_square(5));
    let single = LegendreTable::build(1);
    assert_eq!(single.marks, vec![1]);
}

#[test]
fn sign_and_zero_tests() {
    assert!(is_negative(&Integer::from(-1)));
    assert!(!is_negative(&Integer::from(0)));
    assert!(!is_negative(&Integer::from(1)));
    assert!(is_negative(&Integer::from_str("-340282366920938463463374607431768211456").unwrap()));
    assert!(is_zero(&Integer::from(0)));
    assert!(!is_zero(&Integer::from(1)));
    assert!(!is_zero(&Integer::from(-1)));
    assert!(is_zero(&(Integer::from(5) - Integer::from(5))));
}
