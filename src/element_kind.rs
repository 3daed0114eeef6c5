//! Element kinds: the type tag that a lattice description gives an element,
//! the expressions of its parameters, and the classification of a built
//! element by which of its values are nonzero.

use vstd::prelude::*;
use crate::lattice::lookup;
use crate::parser::pairs_view;
use crate::text::{chars_of, same_chars};

verus! {

/// The element types that a lattice description can define.
#[derive(Debug, Clone, Copy, PartialEq, Eq, Structural)]
pub enum ElementKind {
    Marker,
    Drift,
    Bending,
    Quadrupole,
    Sextupole,
    Octupole,
    Cavity,
}

/// The kind that a type name stands for.
pub open spec fn kind_named(t: Seq<char>) -> Option<ElementKind> {
    if t == "Marker"@ {
        Some(ElementKind::Marker)
    } else if t == "Drift"@ {
        Some(ElementKind::Drift)
    } else if t == "Bending"@ {
        Some(ElementKind::Bending)
    } else if t == "Quadrupole"@ {
        Some(ElementKind::Quadrupole)
    } else if t == "Sextupole"@ {
        Some(ElementKind::Sextupole)
    } else if t == "Octupole"@ {
        Some(ElementKind::Octupole)
    } else if t == "Cavity"@ {
        Some(ElementKind::Cavity)
    } else {
        None
    }
}

/// The kind that a type name stands for; `None` for a name that is not one
/// of the supported element types.
pub fn element_kind(tag: &str) -> (r: Option<ElementKind>)
    ensures
        r == kind_named(tag@),
{
    let t = chars_of(tag);
    if same_chars(&t, &chars_of("Marker")) {
        Some(ElementKind::Marker)
    } else if same_chars(&t, &chars_of("Drift")) {
        Some(ElementKind::Drift)
    } else if same_chars(&t, &chars_of("Bending")) {
        Some(ElementKind::Bending)
    } else if same_chars(&t, &chars_of("Quadrupole")) {
        Some(ElementKind::Quadrupole)
    } else if same_chars(&t, &chars_of("Sextupole")) {
        Some(ElementKind::Sextupole)
    } else if same_chars(&t, &chars_of("Octupole")) {
        Some(ElementKind::Octupole)
    } else if same_chars(&t, &chars_of("Cavity")) {
        Some(ElementKind::Cavity)
    } else {
        None
    }
}

/// The expression given for parameter `key`: the last one written under that
/// name, or `0.0` when there is none.
pub fn parameter_expression<'a>(params: &Vec<(&'a str, &'a str)>, key: &str) -> (r: &'a str)
    ensures
        match lookup(pairs_view(params@), key@) {
            Some(e) => r@ == e,
            None => r@ == "0.0"@,
        },
{
    let ghost d = pairs_view(params@);
    let k = chars_of(key);
    let mut m = params.len();
    assert(d.subrange(0, m as int) =~= d);
    while m > 0
        invariant
            m <= params.len(),
            k@ == key@,
            d == pairs_view(params@),
            lookup(d.subrange(0, m as int), key@) == lookup(d, key@),
        decreases m,
    {
        if same_chars(&chars_of(params[m - 1].0), &k) {
            assert(d.subrange(0, m as int).last() == d[m - 1]);
            return params[m - 1].1;
        }
        assert(d.subrange(0, m as int).drop_last() =~= d.subrange(0, m - 1));
        m = m - 1;
    }
    "0.0"
}

/// How a built element is classified for display.
#[derive(Debug, Clone, Copy, PartialEq, Eq, Structural)]
pub enum EleType {
    EleTypeMarker,
    EleTypeDrift,
    EleTypeBend,
    EleTypeQuad,
    EleTypeSext,
    EleTypeOct,
    EleTypeMult,
    EleTypeCav,
}

/// Which of an element's values are nonzero: its RF voltage, harmonic number
/// and phase lag, its length, and its strengths `k0` (bend angle), `k1`
/// (quadrupole), `k2` (sextupole) and `k3` (octupole).
#[derive(Debug, Clone, Copy, PartialEq, Eq, Structural)]
pub struct NonzeroFields {
    pub voltage: bool,
    pub harmonic: bool,
    pub lag: bool,
    pub length: bool,
    pub k0: bool,
    pub k1: bool,
    pub k2: bool,
    pub k3: bool,
}

/// The number of nonzero strengths.
pub open spec fn nonzero_strengths(f: NonzeroFields) -> nat {
    (if f.k0 { 1nat } else { 0nat }) + (if f.k1 { 1nat } else { 0nat }) + (if f.k2 {
        1nat
    } else {
        0nat
    }) + (if f.k3 { 1nat } else { 0nat })
}

/// The classification, by the first rule that applies: any RF value makes a
/// cavity; a zero length a marker; no strength a drift; exactly one strength
/// a bend, quadrupole, sextupole or octupole after that strength; several a
/// multipole.
pub open spec fn classify(f: NonzeroFields) -> EleType {
    if f.voltage || f.harmonic || f.lag {
        EleType::EleTypeCav
    } else if !f.length {
        EleType::EleTypeMarker
    } else if nonzero_strengths(f) == 0 {
        EleType::EleTypeDrift
    } else if nonzero_strengths(f) == 1 {
        if f.k0 {
            EleType::EleTypeBend
        } else if f.k1 {
            EleType::EleTypeQuad
        } else if f.k2 {
            EleType::EleTypeSext
        } else {
            EleType::EleTypeOct
        }
    } else {
        EleType::EleTypeMult
    }
}

/// Classifies an element from which of its values are nonzero.
pub fn element_type(f: &NonzeroFields) -> (r: EleType)
    ensures
        r == classify(*f),
{
    if f.voltage || f.harmonic || f.lag {
        EleType::EleTypeCav
    } else if !f.length {
        EleType::EleTypeMarker
    } else if !f.k0 && !f.k1 && !f.k2 && !f.k3 {
        EleType::EleTypeDrift
    } else if f.k0 && !f.k1 && !f.k2 && !f.k3 {
        EleType::EleTypeBend
    } else if !f.k0 && f.k1 && !f.k2 && !f.k3 {
        EleType::EleTypeQuad
    } else if !f.k0 && !f.k1 && f.k2 && !f.k3 {
        EleType::EleTypeSext
    } else if !f.k0 && !f.k1 && !f.k2 && f.k3 {
        EleType::EleTypeOct
    } else {
        EleType::EleTypeMult
    }
}

} // verus!
