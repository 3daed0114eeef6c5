use rust_lattice_analysis::{
    align_right, element_kind, element_type, lay_out_scientific, optional_whitespace,
    parameter_expression, parse_statements, parse_tracy_file, resolve_beamline, symbol,
    use_instruction, variable_assignment_statement, Beamline, EleType, ElementKind,
    LatticeError, NonzeroFields, ParseError, Statement,
};

fn fields(length: bool, k: [bool; 4]) -> NonzeroFields {
    NonzeroFields {
        voltage: false,
        harmonic: false,
        lag: false,
        length,
        k0: k[0],
        k1: k[1],
        k2: k[2],
        k3: k[3],
    }
}

#[test]
fn whitespace_and_symbol() {
    let mut input = " \n\tq-1_a = 3;";
    assert_eq!(optional_whitespace(&mut input), Ok(" \n\t"));
    assert_eq!(input, "q-1_a = 3;");
    assert_eq!(symbol(&mut input), Ok("q-1_a"));
    assert_eq!(input, " = 3;");
    assert_eq!(optional_whitespace(&mut input), Ok(" "));
    let mut none = "abc";
    assert_eq!(optional_whitespace(&mut none), Ok(""));
    assert_eq!(none, "abc");
}

#[test]
fn failed_rules_leave_input_in_place() {
    let mut input = "= 3;";
    assert_eq!(symbol(&mut input), Err(ParseError));
    assert_eq!(input, "= 3;");
    let mut input = "USE : sp;";
    assert_eq!(use_instruction(&mut input), Err(ParseError));
    assert_eq!(input, "USE : sp;");
    let mut input = "x = 1,";
    assert_eq!(variable_assignment_statement(&mut input), Err(ParseError));
    assert_eq!(input, "x = 1,");
}

#[test]
fn assignment_statement_allows_space_before_semicolon() {
    let mut input = "x = 1 ;rest";
    assert_eq!(variable_assignment_statement(&mut input), Ok(("x", "1 ")));
    assert_eq!(input, "rest");
}

#[test]
fn statements_stop_where_text_does_not_parse() {
    let input = "a = 1;\n  b = ;\nc = 2;";
    let (statements, stop) = parse_statements(input);
    assert_eq!(statements, vec![Statement::Assignment("a", "1")]);
    assert_eq!(stop, 9);
    let (all, end) = parse_statements("a = 1;  ");
    assert_eq!(all.len(), 1);
    assert_eq!(end, 8);
    assert_eq!(parse_tracy_file("   "), vec![]);
}

#[test]
fn use_with_space_reads_as_element() {
    let statements = parse_tracy_file("USE : sp;");
    assert_eq!(statements, vec![Statement::Element("USE", "sp", vec![])]);
}

#[test]
fn line_with_only_blank_list_does_not_parse() {
    assert_eq!(parse_tracy_file("l: LINE = ( );"), vec![]);
    assert_eq!(parse_tracy_file("l: LINE = ();"), vec![Statement::Line("l", vec![])]);
}

#[test]
fn resolves_nested_and_reversed_lines() {
    let text = "d: Drift, L = 1;\nq: Quadrupole, L = 0.2, B_2 = 1;\nb: Bending, L = 1, Phi = 2;\n\
                cell: LINE = (d, q, b);\nring: LINE = (cell, -cell, -d);\nUSE: ring;\nz: Marker;";
    let statements = parse_tracy_file(text);
    assert_eq!(statements.len(), 7);
    let beamline = resolve_beamline(&statements);
    assert_eq!(
        beamline,
        Ok(Beamline { use_position: 5, element_statements: vec![0, 1, 2, 2, 1, 0, 0] })
    );
}

#[test]
fn later_definitions_shadow_earlier_ones() {
    let text = "d: Drift, L = 1;\nl: LINE = (d);\nd: Drift, L = 2;\nm: LINE = (l, d);\nUSE: m;";
    let statements = parse_tracy_file(text);
    assert_eq!(
        resolve_beamline(&statements),
        Ok(Beamline { use_position: 4, element_statements: vec![0, 2] })
    );
}

#[test]
fn resolution_errors() {
    let undefined = parse_tracy_file("d: Drift, L = 1;\nl: LINE = (d, e);\nUSE: l;");
    assert_eq!(resolve_beamline(&undefined), Err(LatticeError::UndefinedName(1)));
    let bad_use = parse_tracy_file("d: Drift, L = 1;\nUSE: d;");
    assert_eq!(resolve_beamline(&bad_use), Err(LatticeError::UndefinedLine(1)));
    let no_use = parse_tracy_file("d: Drift, L = 1;\nl: LINE = (d);");
    assert_eq!(resolve_beamline(&no_use), Err(LatticeError::MissingUse));
    assert_eq!(resolve_beamline(&vec![]), Err(LatticeError::MissingUse));
}

#[test]
fn kinds_of_type_names() {
    assert_eq!(element_kind("Marker"), Some(ElementKind::Marker));
    assert_eq!(element_kind("Drift"), Some(ElementKind::Drift));
    assert_eq!(element_kind("Bending"), Some(ElementKind::Bending));
    assert_eq!(element_kind("Quadrupole"), Some(ElementKind::Quadrupole));
    assert_eq!(element_kind("Sextupole"), Some(ElementKind::Sextupole));
    assert_eq!(element_kind("Octupole"), Some(ElementKind::Octupole));
    assert_eq!(element_kind("Cavity"), Some(ElementKind::Cavity));
    assert_eq!(element_kind("drift"), None);
    assert_eq!(element_kind("Solenoid"), None);
}

#[test]
fn parameter_expressions_default_to_zero() {
    let params = vec![("L", "0.25"), ("B_2", "4.8"), ("L", "0.5")];
    assert_eq!(parameter_expression(&params, "L"), "0.5");
    assert_eq!(parameter_expression(&params, "B_2"), "4.8");
    assert_eq!(parameter_expression(&params, "Phi"), "0.0");
    assert_eq!(parameter_expression(&vec![], "L"), "0.0");
}

#[test]
fn classification_order() {
    let mut cav = fields(false, [true, true, false, false]);
    cav.lag = true;
    assert_eq!(element_type(&cav), EleType::EleTypeCav);
    assert_eq!(element_type(&fields(false, [true, false, false, false])), EleType::EleTypeMarker);
    assert_eq!(element_type(&fields(true, [false; 4])), EleType::EleTypeDrift);
    assert_eq!(element_type(&fields(true, [true, false, false, false])), EleType::EleTypeBend);
    assert_eq!(element_type(&fields(true, [false, true, false, false])), EleType::EleTypeQuad);
    assert_eq!(element_type(&fields(true, [false, false, true, false])), EleType::EleTypeSext);
    assert_eq!(element_type(&fields(true, [false, false, false, true])), EleType::EleTypeOct);
    assert_eq!(element_type(&fields(true, [true, true, false, false])), EleType::EleTypeMult);
    assert_eq!(element_type(&fields(true, [false, true, true, true])), EleType::EleTypeMult);
}

#[test]
fn scientific_layout() {
    assert_eq!(lay_out_scientific("+1.234560e-5", 10, 2), "+1.234560e-05");
    assert_eq!(lay_out_scientific("+1.000000e0", 15, 2), "  +1.000000e+00");
    assert_eq!(lay_out_scientific("-2.500000e123", 14, 2), "-2.500000e+123");
    assert_eq!(lay_out_scientific("+5e7", 8, 3), " +5e+007");
    assert_eq!(align_right("NaN", 10), "       NaN");
    assert_eq!(align_right("-inf", 3), "-inf");
}

#[test]
fn unicode_names_and_whitespace() {
    let mut input = "\u{a0}\u{2003}énergie_2 = 1;";
    assert_eq!(optional_whitespace(&mut input), Ok("\u{a0}\u{2003}"));
    assert_eq!(symbol(&mut input), Ok("énergie_2"));
    assert_eq!(input, " = 1;");
    let mut punct = "+x";
    assert_eq!(symbol(&mut punct), Err(ParseError));
}
