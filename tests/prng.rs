use vfc::prng::{Prng, Prng16, Prng32};
use vfc::random::{seed_from_time, shuffle};

#[test]
fn it_works() {
    assert_eq!(4, 4);
}

#[test]
fn test_some_seed_32() {
    let mut p = Prng32::from_string("[___sixteen____]");
    assert_eq!(3133062588, p.next());
}

#[test]
fn test_seed_32() {
    let mut p = Prng32::new([1, 1, 1, 1]);

    assert_eq!(257, p.next());

    p.seed([10, 10, 10, 10]);

    assert_eq!(2570, p.next());
}

#[test]
fn lib_first_values_16() {
    let mut prng = Prng16::new([1, 0]);

    let expected_values = [
        0x0201, 0x6269, 0xae16, 0x12a2, 0x4ae8, 0xd719, 0x0c52, 0x984b, 0x1df1, 0x743c, 0xdba0,
        0xbcc6, 0x34c9, 0x746c, 0x3643, 0x07ff,
    ];

    for (i, &value) in expected_values.iter().enumerate() {
        let n = prng.next();
        assert!(
            value == n,
            "failed at index {}: expected 0x{:04x}, found 0x{:04x}\n{value:016b}\n{n:016b}",
            i,
            value,
            n
        );
    }
}

#[test]
fn prng_first_values_16() {
    let mut prng = Prng::new([1, 0]);

    let expected_values = [
        0x0201, 0x6269, 0xae16, 0x12a2, 0x4ae8, 0xd719, 0x0c52, 0x984b, 0x1df1, 0x743c, 0xdba0,
        0xbcc6, 0x34c9, 0x746c, 0x3643, 0x07ff,
    ];

    for (i, &value) in expected_values.iter().enumerate() {
        let n = prng.next();
        assert!(
            value == n,
            "failed at index {}: expected 0x{:04x}, found 0x{:04x}\n{value:016b}\n{n:016b}",
            i,
            value,
            n
        );
    }
}

#[test]
fn from_byte_slice_matches_from_string() {
    let mut a = Prng32::from_byte_slice(b"[___sixteen____]");
    let mut b = Prng32::from_string("[___sixteen____]");
    assert_eq!(a.next(), b.next());
    assert_eq!(a.next(), b.next());
}

#[test]
fn jump_changes_the_sequence_deterministically() {
    let mut a = Prng32::new([1, 2, 3, 4]);
    let mut b = Prng32::new([1, 2, 3, 4]);
    let mut c = Prng32::new([1, 2, 3, 4]);
    a.jump();
    b.jump();
    c.long_jump();
    let x = a.next();
    assert_eq!(x, b.next());
    let mut plain = Prng32::new([1, 2, 3, 4]);
    assert_ne!(x, plain.next());
    assert_ne!(x, c.next());
}

#[test]
fn shuffle_keeps_the_elements() {
    let mut rng = Prng::new([1, 0]);
    let mut v: Vec<u32> = (0..20).collect();
    shuffle(&mut rng, &mut v);
    assert_ne!(v, (0..20).collect::<Vec<u32>>());
    let mut sorted = v.clone();
    sorted.sort();
    assert_eq!(sorted, (0..20).collect::<Vec<u32>>());
}

#[test]
fn shuffle_is_fisher_yates() {
    // positions 2 then 1 are exchanged with draw % 3 and draw % 2
    let mut draws = Prng::new([1, 0]);
    let d0 = draws.next() as usize;
    let d1 = draws.next() as usize;
    let mut expected = vec!['a', 'b', 'c'];
    expected.swap(2, d0 % 3);
    expected.swap(1, d1 % 2);
    let mut rng = Prng::new([1, 0]);
    let mut v = vec!['a', 'b', 'c'];
    shuffle(&mut rng, &mut v);
    assert_eq!(v, expected);
}

#[test]
fn shuffle_of_short_vectors() {
    let mut rng = Prng::new([1, 0]);
    let mut empty: Vec<u8> = vec![];
    shuffle(&mut rng, &mut empty);
    assert!(empty.is_empty());
    let mut one = vec![7u8];
    shuffle(&mut rng, &mut one);
    assert_eq!(one, vec![7u8]);
    assert_eq!(rng.next(), 0x0201);
}

#[test]
fn seed_from_clock_reading() {
    assert_eq!(seed_from_time(0x1_2345, 0xabcd_ef01), [0x2345, 0xef01]);
}
