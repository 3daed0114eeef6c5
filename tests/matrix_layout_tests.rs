use rust_lattice_analysis::{
    dispersion_block, drift_matrix, identity6, quadrupole_form, sector_bend_form, MatrixForm,
    PlaneForm, Signs,
};

#[test]
fn drift_layout_has_length_on_both_planes() {
    let m = drift_matrix(2.5f64, 0.0, 1.0);
    for i in 0..6 {
        for j in 0..6 {
            let expected = if (i, j) == (0, 1) || (i, j) == (2, 3) {
                2.5
            } else if i == j {
                1.0
            } else {
                0.0
            };
            assert_eq!(m[i][j], expected);
        }
    }
}

#[test]
fn identity_layout() {
    let m = identity6(0.0f64, 1.0);
    for i in 0..6 {
        for j in 0..6 {
            assert_eq!(m[i][j], if i == j { 1.0 } else { 0.0 });
        }
    }
}

#[test]
fn dispersion_block_takes_rows_and_columns_zero_one_five() {
    let mut r = [[0.0f64; 6]; 6];
    for i in 0..6 {
        for j in 0..6 {
            r[i][j] = (10 * i + j) as f64;
        }
    }
    let d = dispersion_block(&r, 0.0, 1.0);
    assert_eq!(d[0], [0.0, 1.0, 5.0]);
    assert_eq!(d[1], [10.0, 11.0, 15.0]);
    assert_eq!(d[2], [0.0, 0.0, 1.0]);
}

#[test]
fn dispersion_block_of_drift_keeps_homogeneous_row() {
    let d = dispersion_block(&drift_matrix(0.75f64, 0.0, 1.0), 0.0, 1.0);
    assert_eq!(d, [[1.0, 0.75, 0.0], [0.0, 1.0, 0.0], [0.0, 0.0, 1.0]]);
}

fn signs(x: f64) -> Signs {
    Signs { zero: x == 0.0, positive: x > 0.0, negative: x < 0.0 }
}

#[test]
fn quadrupole_forms() {
    assert_eq!(quadrupole_form(signs(0.0), signs(1.3)), MatrixForm::Marker);
    assert_eq!(quadrupole_form(signs(0.5), signs(0.0)), MatrixForm::Drift);
    assert_eq!(
        quadrupole_form(signs(0.5), signs(1.3)),
        MatrixForm::Quadrupole {
            horizontal: PlaneForm::Trigonometric,
            vertical: PlaneForm::Hyperbolic
        }
    );
    assert_eq!(
        quadrupole_form(signs(0.5), signs(-1.3)),
        MatrixForm::Quadrupole {
            horizontal: PlaneForm::Hyperbolic,
            vertical: PlaneForm::Trigonometric
        }
    );
}

#[test]
fn sector_bend_forms() {
    let (l, k1) = (1.2, -0.4);
    for angle in [0.0, 0.1] {
        let h: f64 = angle / l;
        let form = sector_bend_form(signs(l), signs(angle), signs(k1), signs(h * h + k1));
        if angle == 0.0 {
            assert_eq!(form, quadrupole_form(signs(l), signs(k1)));
        } else {
            assert_eq!(
                form,
                MatrixForm::Bend {
                    horizontal: PlaneForm::Hyperbolic,
                    vertical: PlaneForm::Trigonometric
                }
            );
        }
    }
    assert_eq!(
        sector_bend_form(signs(1.0), signs(0.2), signs(0.0), signs(0.04)),
        MatrixForm::Bend { horizontal: PlaneForm::Trigonometric, vertical: PlaneForm::Drift }
    );
    assert_eq!(
        sector_bend_form(signs(1.0), signs(0.2), signs(-0.04), signs(0.0)),
        MatrixForm::Bend { horizontal: PlaneForm::Drift, vertical: PlaneForm::Trigonometric }
    );
    assert_eq!(
        sector_bend_form(signs(0.0), signs(0.2), signs(1.0), signs(1.0)),
        MatrixForm::Marker
    );
}
