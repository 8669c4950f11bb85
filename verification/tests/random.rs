use shbt_cf::random::Rng;

fn uniform(r: &mut Rng) -> f64 {
    (r.next_u64() >> 11) as f64 * (1.0 / (1u64 << 53) as f64)
}

fn uniform_open(r: &mut Rng) -> f64 {
    loop {
        let u = uniform(r);
        if u > 0.0 {
            return u;
        }
    }
}

fn normal(r: &mut Rng) -> f64 {
    let u1 = uniform_open(r);
    let u2 = uniform(r);
    (-2.0 * u1.ln()).sqrt() * (2.0 * std::f64::consts::PI * u2).cos()
}

#[test]
fn deterministic_and_well_behaved() {
    let mut a = Rng::new(42);
    let mut b = Rng::new(42);
    for _ in 0..1000 {
        assert_eq!(a.next_u64(), b.next_u64());
    }
    let mut r = Rng::new(7);
    let n = 200_000;
    let (mut m, mut v) = (0.0f64, 0.0f64);
    for _ in 0..n {
        m += normal(&mut r);
    }
    m /= n as f64;
    let mut r = Rng::new(7);
    for _ in 0..n {
        let z = normal(&mut r) - m;
        v += z * z;
    }
    v /= n as f64;
    assert!(m.abs() < 0.01, "{m}");
    assert!((v - 1.0).abs() < 0.01, "{v}");
}

#[test]
fn reference_stream_for_seed_42() {
    let mut r = Rng::new(42);
    assert_eq!(r.next_u64(), 0x1578_0b2e_0c2e_c716);
    assert_eq!(r.next_u64(), 0x6104_d986_6d11_3a7e);
    assert_eq!(r.next_u64(), 0xae17_5332_39e4_99a1);
    let mut z = Rng::new(0);
    assert_eq!(z.next_u64(), 0x99ec_5f36_cb75_f2b4);
    assert_eq!(z.next_u64(), 0xbf6e_1f78_4956_452a);
}
