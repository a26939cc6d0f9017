use squirrel_rng::{next_u64_via_u32, squirrel3, squirrel3_64, SquirrelRng, SquirrelRng64};

#[test]
fn copy_with_position_does_not_modify_original() {
    let mut a = SquirrelRng::with_seed(3);
    let mut b = a.with_position(1);

    let second_value = b.next_u32();

    assert_ne!(a.next_u32(), second_value);
    assert_eq!(a.next_u32(), second_value);
}

#[test]
fn known_vector_32() {
    assert_eq!(squirrel3(0, 0), 0xb042bb5c);
    assert_eq!(squirrel3(0, 3), 2590782482);
    assert_eq!(squirrel3(1, 3), 1169417807);
    assert_eq!(squirrel3(u32::MAX, 3), 0x9612d846);
}

#[test]
fn known_vector_64() {
    assert_eq!(squirrel3_64(0, 0), 0xcc0000001db01978);
    assert_eq!(squirrel3_64(0, 3), 16609275425953610439);
    assert_eq!(squirrel3_64(1, 3), 4435623420567102850);
    assert_eq!(squirrel3_64(u64::MAX, 3), 14156924691222949861);
}

#[test]
fn mix_is_deterministic() {
    for p in [0u32, 1, 17, 0x8000_0000, u32::MAX] {
        for s in [0u32, 3, 0xdead_beef] {
            assert_eq!(squirrel3(p, s), squirrel3(p, s));
            let (p64, s64) = (p as u64 * 0x1_0000_0001, s as u64 + 5);
            assert_eq!(squirrel3_64(p64, s64), squirrel3_64(p64, s64));
        }
    }
}

#[test]
fn explicit_position_matches_advanced_stream() {
    let mut skipped = SquirrelRng::with_seed(11);
    for _ in 0..5 {
        skipped.next_u32();
    }
    let mut direct = SquirrelRng::with_seed(11).with_position(5);
    assert_eq!(direct.next_u32(), skipped.next_u32());
    assert_eq!(SquirrelRng::with_seed(11).with_position(5).next_u32(), squirrel3(5, 11));

    let mut skipped64 = SquirrelRng64::with_seed(11);
    for _ in 0..5 {
        skipped64.next_u64();
    }
    let mut direct64 = SquirrelRng64::with_seed(11).with_position(5);
    assert_eq!(direct64.next_u64(), skipped64.next_u64());
}

#[test]
fn copy_isolation_64() {
    let mut a = SquirrelRng64::with_seed(3);
    let mut b = a.with_position(1);
    let first_of_b = b.next_u64();
    assert_ne!(a.next_u64(), first_of_b);
    assert_eq!(a.next_u64(), first_of_b);
}

#[test]
fn position_wraps_at_maximum() {
    let mut g = SquirrelRng::with_seed(3).with_position(u32::MAX);
    assert_eq!(g.next_u32(), squirrel3(u32::MAX, 3));
    assert_eq!(g, SquirrelRng::with_seed(3));
    assert_eq!(g.next_u32(), squirrel3(0, 3));

    let mut h = SquirrelRng64::with_seed(3).with_position(u64::MAX);
    assert_eq!(h.next_u64(), squirrel3_64(u64::MAX, 3));
    assert_eq!(h, SquirrelRng64::with_seed(3));
}

#[test]
fn wide_draw_joins_two_native_draws() {
    let mut g = SquirrelRng::with_seed(7);
    let v = g.next_u64();
    assert_eq!(v, 0x7dfadfe363061f0e);
    assert_eq!(v, ((squirrel3(1, 7) as u64) << 32) | squirrel3(0, 7) as u64);
    assert_eq!(g, SquirrelRng::with_seed(7).with_position(2));

    let mut h = SquirrelRng::with_seed(7);
    assert_eq!(next_u64_via_u32(&mut h), v);
    assert_eq!(h.next_u32(), squirrel3(2, 7));
}

#[test]
fn wide_draw_across_wraparound() {
    let mut g = SquirrelRng::with_seed(9).with_position(u32::MAX);
    let v = g.next_u64();
    assert_eq!(v, ((squirrel3(0, 9) as u64) << 32) | squirrel3(u32::MAX, 9) as u64);
    assert_eq!(g, SquirrelRng::with_seed(9).with_position(1));
}

#[test]
fn narrow_draw_truncates_64() {
    let mut g = SquirrelRng64::with_seed(7);
    assert_eq!(g.next_u32(), 0x04fdd077);
    assert_eq!(g, SquirrelRng64::with_seed(7).with_position(1));
    assert_eq!(g.next_u64(), squirrel3_64(1, 7));
}

fn fill32(n: usize) -> (Vec<u8>, SquirrelRng) {
    let mut g = SquirrelRng::with_seed(7);
    let mut buf = vec![0xaau8; n];
    g.fill_bytes(&mut buf);
    (buf, g)
}

fn fill64(n: usize) -> (Vec<u8>, SquirrelRng64) {
    let mut g = SquirrelRng64::with_seed(7);
    let mut buf = vec![0xaau8; n];
    g.fill_bytes(&mut buf);
    (buf, g)
}

#[test]
fn fill_bytes_32_tail_policy() {
    let full: [u8; 13] = [14, 31, 6, 99, 227, 223, 250, 125, 176, 151, 122, 244, 52];
    let draws: [(usize, u32); 7] = [(0, 0), (3, 1), (4, 1), (5, 2), (8, 2), (11, 3), (13, 4)];
    for (n, used) in draws {
        let (buf, g) = fill32(n);
        assert_eq!(&buf[..], &full[..n]);
        assert_eq!(g, SquirrelRng::with_seed(7).with_position(used));
    }
}

#[test]
fn fill_bytes_32_matches_draws() {
    let (buf, _) = fill32(16);
    let mut g = SquirrelRng::with_seed(7);
    let mut expected = Vec::new();
    for _ in 0..2 {
        expected.extend_from_slice(&g.next_u64().to_le_bytes());
    }
    assert_eq!(buf, expected);
}

#[test]
fn fill_bytes_64_tail_policy() {
    let full: [u8; 13] = [119, 208, 253, 4, 0, 0, 128, 179, 250, 55, 67, 4, 0];
    let draws: [(usize, u64); 7] = [(0, 0), (3, 1), (4, 1), (5, 1), (8, 1), (11, 2), (13, 2)];
    for (n, used) in draws {
        let (buf, g) = fill64(n);
        assert_eq!(&buf[..], &full[..n]);
        assert_eq!(g, SquirrelRng64::with_seed(7).with_position(used));
    }
}

#[test]
fn fill_bytes_64_matches_draws() {
    let (buf, _) = fill64(24);
    let mut g = SquirrelRng64::with_seed(7);
    let mut expected = Vec::new();
    for _ in 0..3 {
        expected.extend_from_slice(&g.next_u64().to_le_bytes());
    }
    assert_eq!(buf, expected);
}

#[test]
fn try_fill_bytes_always_succeeds() {
    let mut g = SquirrelRng::with_seed(7);
    let mut buf = [0u8; 11];
    assert!(g.try_fill_bytes(&mut buf).is_ok());
    assert_eq!(buf.to_vec(), fill32(11).0);

    let mut h = SquirrelRng64::with_seed(7);
    let mut buf64 = [0u8; 11];
    assert!(h.try_fill_bytes(&mut buf64).is_ok());
    assert_eq!(buf64.to_vec(), fill64(11).0);

    let mut empty: [u8; 0] = [];
    assert!(g.try_fill_bytes(&mut empty).is_ok());
}

#[test]
fn from_seed_reads_little_endian() {
    assert_eq!(SquirrelRng::from_seed([1, 2, 3, 4]), SquirrelRng::with_seed(0x0403_0201));
    assert_eq!(
        SquirrelRng64::from_seed([1, 2, 3, 4, 5, 6, 7, 8]),
        SquirrelRng64::with_seed(0x0807_0605_0403_0201)
    );
    assert_eq!(SquirrelRng::from_seed([0xff; 4]), SquirrelRng::with_seed(u32::MAX));
}

#[test]
fn seed_from_uses_the_draw_as_seed() {
    assert_eq!(SquirrelRng::seed_from(9), SquirrelRng::with_seed(9));
    assert_eq!(SquirrelRng64::seed_from(9), SquirrelRng64::with_seed(9));
}

#[test]
fn fresh_generators_start_at_zero() {
    let a = SquirrelRng::new();
    assert_eq!(a, a.with_position(0));
    let b = SquirrelRng::default();
    assert_eq!(b, b.with_position(0));
    let c = SquirrelRng64::new();
    assert_eq!(c, c.with_position(0));
    let d = SquirrelRng64::default();
    assert_eq!(d, d.with_position(0));
}

#[test]
fn wide_draw_from_seed_three() {
    let mut g = SquirrelRng::with_seed(3);
    assert_eq!(g.next_u64(), 0x45B3E64F9A6C3412);
    assert_eq!(g, SquirrelRng::with_seed(3).with_position(2));
}
