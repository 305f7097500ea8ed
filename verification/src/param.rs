//! A Param is a single named, typed controllable value with display and
//! behavior flags, owned by a Device.

use vstd::prelude::*;

verus! {

/// Param property bit: the value may be read remotely.
pub const PROPERTY_READ: u64 = 1;

/// Param property bit: the value may be written remotely.
pub const PROPERTY_WRITE: u64 = 2;

/// The typed value carried by a Param.
#[derive(Clone, Debug, PartialEq)]
pub enum ParamValue {
    Bool(bool),
    Integer(i64),
    Text(String),
}

/// Mathematical image of a `ParamValue`.
pub enum ParamValueView {
    Bool(bool),
    Integer(i64),
    Text(Seq<char>),
}

impl View for ParamValue {
    type V = ParamValueView;

    open spec fn view(&self) -> ParamValueView {
        match self {
            ParamValue::Bool(b) => ParamValueView::Bool(*b),
            ParamValue::Integer(i) => ParamValueView::Integer(*i),
            ParamValue::Text(s) => ParamValueView::Text(s@),
        }
    }
}

/// An exact copy of a value; unlike a derived clone, its contract states
/// that the copy equals the original.
pub fn dup_value(v: &ParamValue) -> (r: ParamValue)
    ensures
        r == *v,
{
    match v {
        ParamValue::Bool(b) => ParamValue::Bool(*b),
        ParamValue::Integer(i) => ParamValue::Integer(*i),
        ParamValue::Text(s) => ParamValue::Text(s.clone()),
    }
}

/// Optional numeric bounds for a Param, used by UI sliders.
#[derive(Clone, Copy, Debug, PartialEq, Eq, Structural)]
pub struct ParamBounds {
    pub min: i64,
    pub max: i64,
    pub step: i64,
}

/// A single named, typed controllable value.
#[derive(Clone, Debug, PartialEq)]
pub struct Param {
    name: String,
    value: ParamValue,
    ui_type: String,
    properties: u64,
    bounds: Option<ParamBounds>,
}

/// Mathematical image of a `Param`.
pub struct ParamView {
    pub name: Seq<char>,
    pub value: ParamValueView,
    pub ui_type: Seq<char>,
    pub properties: u64,
    pub bounds: Option<ParamBounds>,
}

impl View for Param {
    type V = ParamView;

    closed spec fn view(&self) -> ParamView {
        ParamView {
            name: self.name@,
            value: self.value@,
            ui_type: self.ui_type@,
            properties: self.properties,
            bounds: self.bounds,
        }
    }
}

impl Param {
    /// A Param with the given name and value, readable and writable, with
    /// no UI type and no bounds.
    pub fn new(name: &str, value: ParamValue) -> (r: Param)
        ensures
            r@.name == name@,
            r@.value == value@,
            r@.ui_type == ""@,
            r@.properties == PROPERTY_READ | PROPERTY_WRITE,
            r@.bounds is None,
    {
        Param {
            name: name.to_owned(),
            value,
            ui_type: String::from_str(""),
            properties: PROPERTY_READ | PROPERTY_WRITE,
            bounds: None,
        }
    }

    /// A standard boolean power toggle.
    pub fn new_power(name: &str, initial_value: bool) -> (r: Param)
        ensures
            r@.name == name@,
            r@.value == ParamValueView::Bool(initial_value),
            r@.ui_type == "esp.ui.toggle"@,
            r@.properties == PROPERTY_READ | PROPERTY_WRITE,
            r@.bounds is None,
    {
        Param {
            name: name.to_owned(),
            value: ParamValue::Bool(initial_value),
            ui_type: String::from_str("esp.ui.toggle"),
            properties: PROPERTY_READ | PROPERTY_WRITE,
            bounds: None,
        }
    }

    /// A standard brightness slider in percent.
    pub fn new_brightness(name: &str, initial_value: i64) -> (r: Param)
        ensures
            r@.name == name@,
            r@.value == ParamValueView::Integer(initial_value),
            r@.ui_type == "esp.ui.slider"@,
            r@.properties == PROPERTY_READ | PROPERTY_WRITE,
            r@.bounds == Some(ParamBounds { min: 0, max: 100, step: 1 }),
    {
        Param {
            name: name.to_owned(),
            value: ParamValue::Integer(initial_value),
            ui_type: String::from_str("esp.ui.slider"),
            properties: PROPERTY_READ | PROPERTY_WRITE,
            bounds: Some(ParamBounds { min: 0, max: 100, step: 1 }),
        }
    }

    /// A standard hue slider in degrees.
    pub fn new_hue(name: &str, initial_value: i64) -> (r: Param)
        ensures
            r@.name == name@,
            r@.value == ParamValueView::Integer(initial_value),
            r@.ui_type == "esp.ui.hue-slider"@,
            r@.properties == PROPERTY_READ | PROPERTY_WRITE,
            r@.bounds == Some(ParamBounds { min: 0, max: 360, step: 1 }),
    {
        Param {
            name: name.to_owned(),
            value: ParamValue::Integer(initial_value),
            ui_type: String::from_str("esp.ui.hue-slider"),
            properties: PROPERTY_READ | PROPERTY_WRITE,
            bounds: Some(ParamBounds { min: 0, max: 360, step: 1 }),
        }
    }

    /// A standard saturation slider in percent; the spelling follows the
    /// established public API.
    pub fn new_satuation(name: &str, initial_value: i64) -> (r: Param)
        ensures
            r@.name == name@,
            r@.value == ParamValueView::Integer(initial_value),
            r@.ui_type == "esp.ui.slider"@,
            r@.properties == PROPERTY_READ | PROPERTY_WRITE,
            r@.bounds == Some(ParamBounds { min: 0, max: 100, step: 1 }),
    {
        Param {
            name: name.to_owned(),
            value: ParamValue::Integer(initial_value),
            ui_type: String::from_str("esp.ui.slider"),
            properties: PROPERTY_READ | PROPERTY_WRITE,
            bounds: Some(ParamBounds { min: 0, max: 100, step: 1 }),
        }
    }

    /// The Param's name.
    pub fn name(&self) -> (r: &str)
        ensures
            r@ == self@.name,
    {
        self.name.as_str()
    }

    /// The Param's current value.
    pub fn value(&self) -> (r: &ParamValue)
        ensures
            r@ == self@.value,
    {
        &self.value
    }

    /// The Param's UI type tag.
    pub fn ui_type(&self) -> (r: &str)
        ensures
            r@ == self@.ui_type,
    {
        self.ui_type.as_str()
    }

    /// The Param's property bitset.
    pub fn properties(&self) -> (r: u64)
        ensures
            r == self@.properties,
    {
        self.properties
    }

    /// The Param's optional numeric bounds.
    pub fn bounds(&self) -> (r: Option<ParamBounds>)
        ensures
            r == self@.bounds,
    {
        self.bounds
    }
}

/// An exact copy of a Param.
pub fn dup_param(p: &Param) -> (r: Param)
    ensures
        r == *p,
{
    Param {
        name: p.name.clone(),
        value: dup_value(&p.value),
        ui_type: p.ui_type.clone(),
        properties: p.properties,
        bounds: p.bounds,
    }
}

/// Mathematical image of a sequence of Params.
pub open spec fn params_view(ps: Seq<Param>) -> Seq<ParamView> {
    ps.map_values(|p: Param| p@)
}

/// Whether a sequence of Params has pairwise distinct names.
pub open spec fn param_names_unique(ps: Seq<ParamView>) -> bool {
    forall|i: int, j: int| 0 <= i < j < ps.len() ==> ps[i].name != ps[j].name
}

} // verus!
