use shbt_cf::kernel::ShbtNumericalKernel;
use shbt_cf::{CRATE_NAME, UPSTREAM_CRATES};

#[test]
fn links_all_upstream_crates() {
    assert_eq!(
        UPSTREAM_CRATES,
        [
            "shbt-core-math",
            "shbt-dielectric-floquet",
            "shbt-rcwa-optics",
            "shbt-fea-structural",
            "shbt-metrology-gum",
        ]
    );
    assert_eq!(CRATE_NAME, "shbt-fabrication-hil");
}

#[test]
fn kernel_defaults_to_512_bits() {
    assert_eq!(ShbtNumericalKernel::default().precision_bits, 512);
}
