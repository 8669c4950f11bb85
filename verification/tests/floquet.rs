use shbt_cf::floquet::{FloquetDielectricSolver, TOTAL_DIM};
use shbt_cf::truncation::{FloquetTruncation, Truncation};

#[test]
fn production_dimensions_are_15625() {
    let s = FloquetDielectricSolver::new();
    assert_eq!(s.num_spatial_modes, 625);
    assert_eq!(s.num_temporal_modes, 25);
    assert_eq!(s.total_dim, 15_625);
    assert_eq!(TOTAL_DIM, 15_625);
}

#[test]
fn custom_dimensions_and_overflow_check() {
    let s = FloquetDielectricSolver::with_dimensions(1, 4);
    assert_eq!(s.total_dim, 4);
    assert_eq!(FloquetDielectricSolver::default(), FloquetDielectricSolver::new());
    assert!(FloquetDielectricSolver::checked_with_dimensions(usize::MAX, 2).is_none());
    assert_eq!(
        FloquetDielectricSolver::checked_with_dimensions(3, 7).unwrap().total_dim,
        21
    );
}

#[test]
fn update8_dimension_is_explicit_without_dense_allocation() {
    assert_eq!(FloquetTruncation::update_8().harmonics(), 9375);
    assert_eq!(FloquetTruncation::update_8().system_dimension(), 37500);
}

#[test]
fn truncation_count_index_and_orders() {
    let tr = Truncation { m: 2, n: 1 };
    assert_eq!(tr.count(), 15);
    assert_eq!(tr.index(-2, -1), 0);
    assert_eq!(tr.index(0, 0), 7);
    assert_eq!(tr.index(2, 1), 14);
    assert_eq!(tr.orders(7), (0, 0));
    assert_eq!(tr.orders(5), (-1, 1));
    for p in 0..tr.count() {
        let (m, n) = tr.orders(p);
        assert_eq!(tr.index(m, n), p);
    }
    let lamellar = Truncation { m: 12, n: 0 };
    assert_eq!(lamellar.count(), 25);
    assert_eq!(lamellar.index(0, 0), 12);
}
