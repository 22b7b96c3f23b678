use layer::crypto::factorize;

#[test]
fn t1() {
    assert_eq!(factorize(1470626929934143021), (1206429347, 1218991343));
}

#[test]
fn t2() {
    assert_eq!(factorize(2363612107535801713), (1518968219, 1556064227));
}

#[test]
fn factorize_even_numbers() {
    assert_eq!(factorize(0), (2, 0));
    assert_eq!(factorize(2), (2, 1));
    assert_eq!(factorize(2 * 1000003), (2, 1000003));
}

#[test]
fn factorize_small_products() {
    let (p, q) = factorize(15);
    assert_eq!(p * q, 15);
    let (p, q) = factorize(1);
    assert_eq!((p, q), (1, 1));
}

#[test]
fn factorize_product_of_two_primes() {
    let (p, q) = factorize(1000003 * 998244353);
    assert_eq!((p, q), (1000003, 998244353));
}

#[test]
fn greatest_common_divisor() {
    assert_eq!(layer::crypto::factorize::gcd(12, 18), 6);
    assert_eq!(layer::crypto::factorize::gcd(18, 12), 6);
    assert_eq!(layer::crypto::factorize::gcd(17, 5), 1);
    assert_eq!(layer::crypto::factorize::gcd(0, 9), 9);
    assert_eq!(layer::crypto::factorize::gcd(9, 0), 9);
    assert_eq!(layer::crypto::factorize::gcd(0, 0), 0);
    assert_eq!(layer::crypto::factorize::gcd(1 << 100, 1 << 64), 1 << 64);
    assert_eq!(
        layer::crypto::factorize::gcd(1470626929934143021, 1206429347),
        1206429347
    );
}

#[test]
fn products_of_two_primes_and_a_number_too_small_for_the_walk() {
    assert_eq!(factorize(2363612107535801713), (1518968219, 1556064227));
    assert_eq!(factorize(15), (1, 15));
    assert_eq!(factorize(2 * 1_000_000_007), (2, 1_000_000_007));
}
