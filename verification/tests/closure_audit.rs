//! Physical-closure audit: reconciles the cross-module consistency of the
//! reactor budget figures:
//!
//! a. unified spatial integration: active metal volume → domain volume;
//! b. dual-channel GUM calorimetric covariance reconciliation;
//! c. Coffin–Manson low-cycle fatigue checks against Δεp ≤ 0.000153.


const TOL: f64 = 1e-6;

fn approx(a: f64, b: f64, rel: f64) -> bool {
    (a - b).abs() <= rel * b.abs().max(1.0)
}

// ---------------------------------------------------------------------------
// (a) Unified spatial integration.

/// Option B footprint: A = 1 cm², mean metal thickness 28.75 nm.
const A_FOOT: f64 = 1.0e-4;
const T_METAL: f64 = 28.75e-9;
/// Active metal film volume.
const V_METAL: f64 = 2.875e-12;
/// Domain microstructure: V_D per domain, N_D domains.
const V_D: f64 = 1.25e-15;
const N_DOMAINS_TABLE: f64 = 1.84e7;
const V_DOMAINS: f64 = 2.30e-8;
/// Loading chain: n_M · V_B gives the deuteron inventory at x_D = 1;
/// N_coh = 10⁵ atoms per coherent domain.
const N_M: f64 = 6.8250203e28;
const N_COH: f64 = 1.0e5;

#[test]
fn metal_volume_from_geometry() {
    let v = A_FOOT * T_METAL;
    assert!(approx(v, V_METAL, TOL), "A·t_metal = {v} vs {V_METAL}");
}

#[test]
fn domain_volume_from_microstructure() {
    let v = N_DOMAINS_TABLE * V_D;
    assert!(approx(v, V_DOMAINS, TOL), "N_D·V_D = {v} vs {V_DOMAINS}");
}

#[test]
fn unified_volume_mapping_is_factor_8000() {
    // The unified spatial integration maps the domain ensemble onto the
    // active metal film: V_domains / V_metal = 8000 exactly at the stated
    // precisions — this is the "factor of 8000" the consistency note
    // requires to be resolved into a single volume convention.
    let ratio = V_DOMAINS / V_METAL;
    assert!(approx(ratio, 8000.0, 1e-9), "ratio = {ratio}");
    let metal_fraction = V_METAL / V_DOMAINS;
    assert!(approx(metal_fraction, 1.25e-4, 1e-9), "{metal_fraction}");
}

#[test]
fn loading_chain_domain_count() {
    let n_deuterons = N_M * V_METAL;
    assert!(approx(n_deuterons, 1.9622e17, 1e-3), "{n_deuterons}");
    let n_domains = n_deuterons / N_COH;
    assert!(approx(n_domains, 1.9622e12, 1e-3), "{n_domains}");
}

// ---------------------------------------------------------------------------
// (b) Dual-channel GUM calorimetric covariance.

/// Dual-channel calorimetry inputs: (u_i native, c_i W/unit, listed σ²).
const CALORIMETRY_BUDGET: [(&str, f64, f64, f64); 7] = [
    ("mass flow", 0.0302, 48.26, 2.124),
    ("temperature difference", 0.0120, 253.16, 9.228),
    ("specific heat", 0.0021, 812.70, 2.914),
    ("envelope thermopile", 0.0800, 18.42, 2.171),
    ("optical input", 1.2000, 1.00, 1.440),
    ("rf input", 0.1500, 1.00, 0.023),
    ("ambient loss correction", 1.2124, 1.00, 1.470),
];

#[test]
fn table_xlvi_variance_terms_match() {
    for (name, u, c, listed) in CALORIMETRY_BUDGET {
        let var = (c * u) * (c * u);
        assert!(approx(var, listed, 0.01), "{name}: {var} vs {listed} W²");
    }
}

#[test]
fn nominal_rss_and_residual_reconciled() {
    let sum: f64 = CALORIMETRY_BUDGET
        .iter()
        .map(|(_, u, c, _)| (c * u) * (c * u))
        .sum();
    assert!(approx(sum, 19.370, 0.005), "Σ(c·u)² = {sum} W²");
    let u_rss = sum.sqrt();
    assert!(approx(u_rss, 4.4011, 0.001), "{u_rss}");
    // The 5.69 W claim leaves an unassigned residual that a
    // complete covariance matrix must absorb — the audit pins it exactly.
    let residual = 5.69 * 5.69 - sum;
    assert!(approx(residual, 13.0061, 0.001), "{residual} W²");
}

#[test]
fn two_term_allocation_within_limit() {
    // u²_c = u²_spatial_drift + u²_instrumentation.
    let u2_spatial = (185.4 * 0.0142) * (185.4 * 0.0142);
    assert!(approx(u2_spatial, 6.9310039824, 1e-9), "{u2_spatial}");
    let uc = (u2_spatial + 12.50).sqrt();
    assert!(approx(uc, 4.408060798, 2e-6), "{uc}");
    assert!(uc <= 5.6881, "u_c = {uc} exceeds the 5.6881 W allocation bound");
}


// ---------------------------------------------------------------------------
// (c) Coffin–Manson endurance: range convention
// Δεp = ε′f (2 N_f)^c with ε′f = 0.18, c = −0.62; qualify ≥ 44 820 cycles.

const EPS_F: f64 = 0.18;
const C: f64 = -0.62;
const N_TARGET: f64 = 44_820.0;

fn d_eps_at(n_f: f64) -> f64 {
    EPS_F * (2.0 * n_f).powf(C)
}

fn n_f_at(d_eps: f64) -> f64 {
    0.5 * (d_eps / EPS_F).powf(1.0 / C)
}

#[test]
fn strain_ceiling_reproduces_spec_values() {
    let ceiling = d_eps_at(N_TARGET);
    assert!(approx(ceiling, 0.000153010544, 1e-7), "{ceiling}");
    // Unrounded ceiling governs acceptance.
    assert!(ceiling <= 0.0001531);
    assert!(
        approx(n_f_at(0.00098), 2242.11, 0.01),
        "{}",
        n_f_at(0.00098)
    );
    assert!(
        approx(n_f_at(0.000155), 43895.79, 0.01),
        "{}",
        n_f_at(0.000155)
    );
}

#[test]
fn nominal_155ppm_ceiling_fails_endurance() {
    // The nominal 0.000155 ceiling does NOT ensure N_f ≥ 44 820.
    assert!(n_f_at(0.000155) < N_TARGET);
    assert!(n_f_at(0.000153010544) >= N_TARGET * (1.0 - 1e-9));
    assert!(n_f_at(0.000153) >= N_TARGET);
}

