use bench_multicore::workload::{
    count, count_in_critical_section, fib, fib_fits, matrix_mult, place_rows, product_fits_u8, COUNT_ROUNDS,
};

#[test]
fn fib_small_values() {
    let expected = [0usize, 1, 1, 2, 3, 5, 8, 13, 21, 34, 55];
    for (n, e) in expected.iter().enumerate() {
        assert_eq!(fib(n), *e);
    }
}

#[test]
fn fib_of_the_benchmark_input() {
    assert_eq!(fib(25), 75_025);
}

#[test]
fn fib_recurrence() {
    for n in 2..20 {
        assert_eq!(fib(n), fib(n - 1) + fib(n - 2));
    }
}

#[test]
fn count_reaches_its_rounds() {
    assert_eq!(count(), 1000);
    assert_eq!(COUNT_ROUNDS, 1000);
}

#[test]
fn count_in_critical_section_reaches_its_rounds() {
    assert_eq!(count_in_critical_section(), COUNT_ROUNDS);
}

#[test]
fn matrix_mult_of_the_benchmark_matrices() {
    let a = [[3u8; 10]; 10];
    let b = [[7u8; 10]; 10];
    let mut c = [[0u8; 10]; 10];
    matrix_mult(&a, &b, &mut c);
    assert_eq!(c, [[210u8; 10]; 10]);
}

#[test]
fn matrix_mult_of_half_the_rows() {
    let a = [[3u8; 10]; 5];
    let b = [[7u8; 10]; 10];
    let mut c = [[0u8; 10]; 5];
    matrix_mult(&a, &b, &mut c);
    assert_eq!(c, [[210u8; 10]; 5]);
}

#[test]
fn matrix_mult_adds_to_what_c_holds() {
    let a = [[1u8, 2], [3, 4]];
    let b = [[5u8, 6], [7, 8]];
    let mut c = [[1u8, 1], [0, 2]];
    matrix_mult(&a, &b, &mut c);
    assert_eq!(c, [[20u8, 23], [43, 52]]);
}

#[test]
fn place_rows_fills_the_lower_half() {
    let mut c = [[1u8; 4]; 4];
    let lower = [[9u8; 4], [8u8; 4]];
    place_rows(&mut c, &lower, 2);
    assert_eq!(c, [[1u8; 4], [1u8; 4], [9u8; 4], [8u8; 4]]);
}

#[test]
fn fib_fits_up_to_the_largest_usize_fibonacci_number() {
    assert!(fib_fits(0));
    assert!(fib_fits(25));
    if usize::BITS == 64 {
        assert!(fib_fits(93));
        assert!(!fib_fits(94));
    } else {
        assert!(fib_fits(47));
        assert!(!fib_fits(48));
    }
    assert!(!fib_fits(1_000));
}

#[test]
fn benchmark_matrices_fit_only_at_size_ten() {
    let a = [[3u8; 10]; 10];
    let b = [[7u8; 10]; 10];
    let c = [[0u8; 10]; 10];
    assert!(product_fits_u8(&a, &b, &c));
    let a = [[3u8; 20]; 20];
    let b = [[7u8; 20]; 20];
    let c = [[0u8; 20]; 20];
    assert!(!product_fits_u8(&a, &b, &c));
}

#[test]
fn product_fits_counts_what_c_holds() {
    let a = [[1u8]];
    let b = [[200u8]];
    assert!(product_fits_u8(&a, &b, &[[55u8]]));
    assert!(!product_fits_u8(&a, &b, &[[56u8]]));
}
