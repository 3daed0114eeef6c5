//! Storage-ring lattice analysis: the lattice description grammar, the
//! resolution of a parsed description into a flat beamline, the kinds and
//! classification of beamline elements, the entry layouts of transport
//! matrices, and the layout of printed numbers.

pub mod text;
pub mod grammar;
pub mod parser;
pub mod lattice;
pub mod element_kind;
pub mod layout;
pub mod matrix_layout;
pub mod matrix_form;

pub use element_kind::{element_kind, element_type, parameter_expression, EleType, ElementKind, NonzeroFields};
pub use lattice::{resolve_beamline, Beamline, LatticeError};
pub use layout::{align_right, lay_out_scientific};
pub use parser::{
    element_creation, expr_til_semicolon_or_comma, line_creation, optional_whitespace,
    parse_statement, parse_statements, parse_tracy_file, symbol, use_instruction,
    variable_assignment, variable_assignment_statement, ParseError, Statement,
};
pub use matrix_layout::{dispersion_block, drift_matrix, identity6};
pub use matrix_form::{quadrupole_form, sector_bend_form, MatrixForm, PlaneForm, Signs};
