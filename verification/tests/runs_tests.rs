use seisbox::bvalue_input::{catalog_columns, BVorMode, CatalogColumns, CatalogField};
use seisbox::stress_runs::{cfs_job, optimized_output_paths, CfsJob, CfsMode, OptTarget, OptimizationRequest};

fn request(enabled: bool, strike: bool, shear: bool, normal: bool, coulomb: bool) -> OptimizationRequest {
    OptimizationRequest { enabled, strike, dip: false, rake: false, shear, normal, coulomb }
}

fn headers(v: &[&str]) -> Vec<String> {
    v.iter().map(|s| s.to_string()).collect()
}

#[test]
fn mode_decides_the_calculation() {
    let req = request(true, true, true, false, true);
    assert!(matches!(cfs_job(CfsMode::Deformation, &req), CfsJob::Deformation));
    assert!(matches!(cfs_job(CfsMode::BatchReceiver, &req), CfsJob::BatchReceiver));
    match cfs_job(CfsMode::CoulombGrid, &req) {
        CfsJob::Optimized(t) => assert_eq!(t, vec![OptTarget::Shear, OptTarget::Coulomb]),
        other => panic!("unexpected job {:?}", other),
    }
}

#[test]
fn optimization_without_angles_is_a_plain_grid() {
    let req = request(true, false, true, true, true);
    assert!(matches!(cfs_job(CfsMode::CoulombGrid, &req), CfsJob::CoulombGrid));
    let off = request(false, true, true, true, true);
    assert!(matches!(cfs_job(CfsMode::CoulombGrid, &off), CfsJob::CoulombGrid));
    let none = request(true, true, false, false, false);
    match cfs_job(CfsMode::CoulombGrid, &none) {
        CfsJob::Optimized(t) => assert!(t.is_empty()),
        other => panic!("unexpected job {:?}", other),
    }
}

#[test]
fn target_suffixes() {
    assert_eq!(OptTarget::Shear.suffix(), "_max_shear");
    assert_eq!(OptTarget::Normal.suffix(), "_max_normal");
    assert_eq!(OptTarget::Coulomb.suffix(), "_max_coulomb");
}

#[test]
fn one_target_keeps_the_chosen_path() {
    let p = optimized_output_paths("/tmp/out/coulomb_opt.csv", &vec![OptTarget::Normal]);
    assert_eq!(p, vec!["/tmp/out/coulomb_opt.csv".to_string()]);
}

#[test]
fn several_targets_get_suffixed_files() {
    let p = optimized_output_paths("/tmp/run.v2/coulomb_opt.csv", &vec![OptTarget::Shear, OptTarget::Coulomb]);
    assert_eq!(
        p,
        vec![
            "/tmp/run.v2/coulomb_opt_max_shear.csv".to_string(),
            "/tmp/run.v2/coulomb_opt_max_coulomb.csv".to_string(),
        ]
    );
    let q = optimized_output_paths("results", &vec![OptTarget::Shear, OptTarget::Normal, OptTarget::Coulomb]);
    assert_eq!(
        q,
        vec![
            "results_max_shear.csv".to_string(),
            "results_max_normal.csv".to_string(),
            "results_max_coulomb.csv".to_string(),
        ]
    );
}

#[test]
fn bvalue_mode_names_and_axes() {
    assert_eq!(BVorMode::Spatial.name(), "spatial");
    assert_eq!(BVorMode::Temporal.name(), "temporal");
    assert_eq!(BVorMode::Spatial.axes(), (CatalogField::Longitude, CatalogField::Latitude));
    assert_eq!(BVorMode::Temporal.axes(), (CatalogField::Time, CatalogField::Depth));
}

#[test]
fn catalog_columns_take_first_matching_header() {
    let h = headers(&["EventID", "Origin Time", "Latitude", "Longitude", "Depth_km", "Magnitude", "MagType"]);
    assert_eq!(
        catalog_columns(&h),
        Some(CatalogColumns { lon: 3, lat: 2, mag: 5, depth: 4, time: 1 })
    );
    let h = headers(&["date", "lon", "lat", "dep", "mag"]);
    assert_eq!(catalog_columns(&h), Some(CatalogColumns { lon: 1, lat: 2, mag: 4, depth: 3, time: 0 }));
}

#[test]
fn catalog_columns_need_every_quantity() {
    let h = headers(&["lon", "lat", "mag", "depth"]);
    assert_eq!(catalog_columns(&h), None);
    assert_eq!(catalog_columns(&Vec::new()), None);
}
