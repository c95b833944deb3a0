use num_bigint::BigInt;
use rinha::fib::{__fib_iter, __fib_matrix, fast_fib};

fn reference(upto: usize) -> Vec<BigInt> {
    let mut sequence = vec![BigInt::from(0), BigInt::from(1)];
    while sequence.len() <= upto {
        let next = &sequence[sequence.len() - 1] + &sequence[sequence.len() - 2];
        sequence.push(next);
    }
    sequence
}

#[test]
fn the_iterative_method_gives_the_sequence() {
    let expected: [u64; 13] = [0, 1, 1, 2, 3, 5, 8, 13, 21, 34, 55, 89, 144];
    for (n, value) in expected.iter().enumerate() {
        assert_eq!(__fib_iter(BigInt::from(n)), BigInt::from(*value));
    }
}

#[test]
fn the_matrix_method_gives_the_sequence() {
    let expected: [u64; 13] = [0, 1, 1, 2, 3, 5, 8, 13, 21, 34, 55, 89, 144];
    for (n, value) in expected.iter().enumerate().skip(1) {
        assert_eq!(__fib_matrix(BigInt::from(n)), BigInt::from(*value));
    }
}

#[test]
fn both_methods_agree_with_the_sequence_up_to_2000() {
    let sequence = reference(2000);
    for n in 1..=2000usize {
        let iterative = __fib_iter(BigInt::from(n));
        let matrix = __fib_matrix(BigInt::from(n));
        assert_eq!(iterative, matrix, "at {}", n);
        assert_eq!(iterative, sequence[n], "at {}", n);
    }
    assert_eq!(__fib_iter(BigInt::from(0)), sequence[0]);
}

#[test]
fn the_iterative_method_gives_zero_below_zero() {
    assert_eq!(__fib_iter(BigInt::from(-1)), BigInt::from(0));
    assert_eq!(__fib_iter(BigInt::from(-1000)), BigInt::from(0));
}

#[test]
fn the_threshold_cannot_be_seen() {
    let sequence = reference(1100);
    for n in 990..=1010usize {
        assert_eq!(fast_fib(BigInt::from(n)), sequence[n], "at {}", n);
    }
    assert_eq!(fast_fib(BigInt::from(-5)), BigInt::from(0));
    assert_eq!(fast_fib(BigInt::from(0)), BigInt::from(0));
    assert_eq!(fast_fib(BigInt::from(1)), BigInt::from(1));
}

#[test]
fn large_numbers_are_exact() {
    let expected = BigInt::parse_bytes(
        b"43466557686937456435688527675040625802564660517371780402481729089536555417949051890403879840079255169295922593080322634775209689623239873322471161642996440906533187938298969649928516003704476137795166849228875",
        10,
    )
    .unwrap();
    assert_eq!(__fib_iter(BigInt::from(1000)), expected);
    assert_eq!(__fib_matrix(BigInt::from(1000)), expected);
    assert_eq!(fast_fib(BigInt::from(1000)), expected);
}
