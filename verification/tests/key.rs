use path_tracer::key::{from_bits, to_bits, INF_KEY};

fn key(x: f32) -> i32 {
    from_bits(x.to_bits())
}

fn number(k: i32) -> f32 {
    f32::from_bits(to_bits(k))
}

fn samples() -> Vec<f32> {
    vec![
        f32::NEG_INFINITY,
        -f32::MAX,
        -1.0e10,
        -555.0,
        -1.5,
        -1.0,
        -0.5,
        -0.0001,
        -f32::MIN_POSITIVE,
        -1.0e-45,
        0.0,
        1.0e-45,
        f32::MIN_POSITIVE,
        0.0001,
        0.001,
        0.5,
        1.0,
        1.5,
        554.0,
        1.0e10,
        f32::MAX,
        f32::INFINITY,
    ]
}

#[test]
fn keys_of_known_numbers() {
    assert_eq!(key(0.0), 0);
    assert_eq!(key(-0.0), 0);
    assert_eq!(key(1.0), 0x3f80_0000);
    assert_eq!(key(-1.0), -0x3f80_0000);
    assert_eq!(key(f32::MAX), INF_KEY);
    assert_eq!(key(f32::INFINITY), 0x7f80_0000);
    assert_eq!(key(f32::NEG_INFINITY), -0x7f80_0000);
}

#[test]
fn bits_of_known_keys() {
    assert_eq!(to_bits(0), 0);
    assert_eq!(to_bits(0x3f80_0000), 1.0f32.to_bits());
    assert_eq!(to_bits(-0x3f80_0000), (-1.0f32).to_bits());
    assert_eq!(to_bits(-1), 0x8000_0001);
    assert_eq!(to_bits(i32::MAX), 0x7fff_ffff);
    assert_eq!(to_bits(i32::MIN), 0x8000_0000);
}

#[test]
fn keys_compare_as_the_numbers_do() {
    let xs = samples();
    for a in xs.iter() {
        for b in xs.iter() {
            assert_eq!(key(*a) < key(*b), a < b);
            assert_eq!(key(*a) == key(*b), a == b);
            assert_eq!(key(*a) > key(*b), a > b);
        }
    }
}

#[test]
fn numbers_survive_the_round_trip() {
    for a in samples() {
        assert_eq!(number(key(a)), a);
    }
    assert_eq!(number(key(-0.0)).to_bits(), 0);
}

#[test]
fn keys_survive_the_round_trip() {
    for k in [0, 1, -1, 12345, -12345, INF_KEY, -INF_KEY, i32::MAX, -i32::MAX] {
        assert_eq!(from_bits(to_bits(k)), k);
    }
}

#[test]
fn smallest_key_has_no_pattern_of_its_own() {
    assert_eq!(from_bits(to_bits(i32::MIN)), 0);
}
