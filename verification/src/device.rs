//! A Device is a named bundle of Params plus one registered behavior
//! callback. Executing the callback hands it a handle with read access to
//! the current Params and a report operation; everything the callback
//! reports is published under this device's name.

use vstd::prelude::*;

use crate::param::dup_param;
use crate::param::dup_value;
use crate::param::params_view;
use crate::param::Param;
use crate::param::ParamValue;
use crate::param::ParamValueView;
use crate::param::ParamView;

verus! {

/// The `{param_name: value}` mapping shape that flows through the router.
pub type ParamsMap = Vec<(String, ParamValue)>;

/// Mathematical image of a `ParamsMap`.
pub open spec fn params_map_view(m: Seq<(String, ParamValue)>) -> Seq<(Seq<char>, ParamValueView)> {
    m.map_values(|e: (String, ParamValue)| (e.0@, e.1@))
}

/// An exact copy of a params mapping.
pub fn dup_params_map(m: &ParamsMap) -> (r: ParamsMap)
    ensures
        r@ == m@,
{
    let mut r: ParamsMap = Vec::new();
    let mut i: usize = 0;
    while i < m.len()
        invariant
            i <= m@.len(),
            r@ == m@.subrange(0, i as int),
        decreases m@.len() - i,
    {
        r.push((m[i].0.clone(), dup_value(&m[i].1)));
        i = i + 1;
    }
    proof {
        assert(r@ =~= m@);
    }
    r
}

/// An exact copy of a list of Params.
pub fn dup_params(ps: &Vec<Param>) -> (r: Vec<Param>)
    ensures
        r@ == ps@,
{
    let mut r: Vec<Param> = Vec::new();
    let mut i: usize = 0;
    while i < ps.len()
        invariant
            i <= ps@.len(),
            r@ == ps@.subrange(0, i as int),
        decreases ps@.len() - i,
    {
        r.push(dup_param(&ps[i]));
        i = i + 1;
    }
    proof {
        assert(r@ =~= ps@);
    }
    r
}

/// Tags a list of reported `{param_name: value}` mappings with the
/// reporting device's name, one publication per report, in order and
/// with exactly the reported mapping.
pub fn reports_to_publications(name: &str, reports: &Vec<ParamsMap>) -> (pubs: Vec<Publication>)
    ensures
        pubs@.len() == reports@.len(),
        forall|i: int|
            0 <= i < pubs@.len() ==> (#[trigger] pubs@[i])@.device == name@ && pubs@[i]@.params
                == params_map_view(reports@[i]@),
{
    let mut pubs: Vec<Publication> = Vec::new();
    let mut i: usize = 0;
    while i < reports.len()
        invariant
            i <= reports@.len(),
            pubs@.len() == i,
            forall|k: int|
                0 <= k < pubs@.len() ==> (#[trigger] pubs@[k])@.device == name@ && pubs@[k]@.params
                    == params_map_view(reports@[k]@),
        decreases reports@.len() - i,
    {
        pubs.push(Publication { device: name.to_owned(), params: dup_params_map(&reports[i]) });
        i = i + 1;
    }
    pubs
}

/// A `{device_name: {param_name: value}}` state-changed event for the
/// outbound channel.
#[derive(Clone, Debug, PartialEq)]
pub struct Publication {
    pub device: String,
    pub params: ParamsMap,
}

/// Mathematical image of a `Publication`.
pub struct PublicationView {
    pub device: Seq<char>,
    pub params: Seq<(Seq<char>, ParamValueView)>,
}

impl View for Publication {
    type V = PublicationView;

    open spec fn view(&self) -> PublicationView {
        PublicationView { device: self.device@, params: params_map_view(self.params@) }
    }
}

/// The standard device kinds known to dashboard clients.
#[derive(Clone, Copy, Debug, PartialEq, Eq, Structural)]
pub enum DeviceType {
    Switch,
    Lightbulb,
    Light,
    Fan,
    TemperatureSensor,
    SmartPlugOutlet,
    Smartplug,
    SmartplugSocket,
    Smartlock,
    InteriorBlind,
    ExteriorBlind,
    GarageDoor,
    Speaker,
    AirConditioner,
    Thermostat,
    TV,
    Washer,
    ContactSensor,
    MotionSensor,
    Doorbell,
    SecurityPanel,
    X,
    OTHER,
}

/// What a device callback receives besides the requested changes: read
/// access to the Device's current Params and a report operation. The
/// handle lives only for the one callback invocation.
pub struct DeviceHandle {
    params: Vec<Param>,
    name: String,
    reports: Vec<ParamsMap>,
}

/// Mathematical image of a `DeviceHandle`.
pub struct DeviceHandleView {
    pub params: Seq<ParamView>,
    pub name: Seq<char>,
    pub reports: Seq<Seq<(Seq<char>, ParamValueView)>>,
}

impl View for DeviceHandle {
    type V = DeviceHandleView;

    closed spec fn view(&self) -> DeviceHandleView {
        DeviceHandleView {
            params: params_view(self.params@),
            name: self.name@,
            reports: self.reports@.map_values(|m: ParamsMap| params_map_view(m@)),
        }
    }
}

impl DeviceHandle {
    /// The owning Device's name.
    pub fn name(&self) -> (r: &str)
        ensures
            r@ == self@.name,
    {
        self.name.as_str()
    }

    /// Read access to the Device's current Params (a snapshot taken when
    /// the callback was invoked).
    pub fn params(&self) -> (r: &Vec<Param>)
        ensures
            params_view(r@) == self@.params,
    {
        &self.params
    }

    /// Records one `{param_name: value}` mapping for publication on the
    /// outbound state-changed channel, under the owning Device's name.
    pub fn update_and_report(&mut self, params: ParamsMap)
        ensures
            final(self)@.reports == old(self)@.reports.push(params_map_view(params@)),
            final(self)@.name == old(self)@.name,
            final(self)@.params == old(self)@.params,
    {
        self.reports.push(params);
        proof {
            assert(final(self)@.reports =~= old(self)@.reports.push(
                params_map_view(final(self).reports@.last()@),
            ));
        }
    }
}

/// A fresh handle for one callback invocation: it carries the invoked
/// Device's name and a snapshot of its current Params, and has no
/// reports yet.
pub fn make_handle(name: &str, params: &Vec<Param>) -> (h: DeviceHandle)
    ensures
        h@.name == name@,
        h@.params == params_view(params@),
        h@.reports.len() == 0,
{
    let h = DeviceHandle { params: dup_params(params), name: name.to_owned(), reports: Vec::new() };
    proof {
        assert(h@.reports =~= Seq::<Seq<(Seq<char>, ParamValueView)>>::empty());
    }
    h
}

/// The behavior of a Device: exactly one per Device, replaceable. Users
/// of the library implement this for their device kinds; hardware is
/// driven inside `apply`, and applied state is reported back through the
/// handle.
pub trait DeviceCallback {
    /// Applies the requested `{param_name: value}` changes to hardware
    /// and reports the resulting state through `handle`.
    fn apply(&mut self, params: &ParamsMap, handle: &mut DeviceHandle);
}

/// A named bundle of Params plus one optional behavior callback.
pub struct Device<C> {
    name: String,
    device_type: DeviceType,
    primary_param: Option<String>,
    attributes: Vec<(String, String)>,
    params: Vec<Param>,
    callback: Option<C>,
}

/// Mathematical image of a `Device`; the callback's internal state is not
/// part of the observable image, only its presence.
pub struct DeviceView {
    pub name: Seq<char>,
    pub device_type: DeviceType,
    pub primary_param: Option<Seq<char>>,
    pub attributes: Seq<(Seq<char>, Seq<char>)>,
    pub params: Seq<ParamView>,
    pub has_callback: bool,
}

/// Mathematical image of a list of string attributes.
pub open spec fn attrs_view(a: Seq<(String, String)>) -> Seq<(Seq<char>, Seq<char>)> {
    a.map_values(|e: (String, String)| (e.0@, e.1@))
}

impl<C> View for Device<C> {
    type V = DeviceView;

    closed spec fn view(&self) -> DeviceView {
        DeviceView {
            name: self.name@,
            device_type: self.device_type,
            primary_param: match self.primary_param {
                Option::Some(s) => Option::Some(s@),
                Option::None => Option::None,
            },
            attributes: attrs_view(self.attributes@),
            params: params_view(self.params@),
            has_callback: self.callback is Some,
        }
    }
}

/// Whether some attribute list holds the key.
pub open spec fn attrs_has_key(a: Seq<(Seq<char>, Seq<char>)>, key: Seq<char>) -> bool {
    exists|i: int| 0 <= i < a.len() && a[i].0 == key
}

/// The attribute list after setting `key` to `value`: replaced in place
/// if the key exists, appended otherwise.
pub open spec fn attrs_set(
    a: Seq<(Seq<char>, Seq<char>)>,
    key: Seq<char>,
    value: Seq<char>,
) -> Seq<(Seq<char>, Seq<char>)>
    decreases a.len(),
{
    if a.len() == 0 {
        seq![(key, value)]
    } else if a[0].0 == key {
        seq![(key, value)] + a.drop_first()
    } else {
        seq![a[0]] + attrs_set(a.drop_first(), key, value)
    }
}

/// Whether some list of Params holds the name.
pub open spec fn params_have_name(ps: Seq<ParamView>, name: Seq<char>) -> bool {
    exists|i: int| 0 <= i < ps.len() && ps[i].name == name
}

impl<C: DeviceCallback> Device<C> {
    /// The installed behavior callback, for contracts: which value is
    /// stored, not just that one is.
    pub closed spec fn spec_callback(&self) -> Option<C> {
        self.callback
    }

    /// A Device with the given name and type: no params, no attributes,
    /// no primary param, no callback.
    pub fn new(name: &str, device_type: DeviceType) -> (r: Device<C>)
        ensures
            r@.name == name@,
            r@.device_type == device_type,
            r@.primary_param is None,
            r@.attributes.len() == 0,
            r@.params.len() == 0,
            !r@.has_callback,
            r.spec_callback() is None,
    {
        let r = Device {
            name: name.to_owned(),
            device_type,
            primary_param: None,
            attributes: Vec::new(),
            params: Vec::new(),
            callback: None,
        };
        proof {
            assert(r@.attributes =~= Seq::<(Seq<char>, Seq<char>)>::empty());
            assert(r@.params =~= Seq::<ParamView>::empty());
        }
        r
    }

    /// Records a param name as the primary one. The name is not validated
    /// here; consumers resolve it against the Params when they need it.
    pub fn set_primary_param(&mut self, param_name: &str)
        ensures
            final(self)@ == (DeviceView { primary_param: Some(param_name@), ..old(self)@ }),
    {
        self.primary_param = Some(param_name.to_owned());
    }

    /// Sets a free-form metadata attribute, replacing any previous value
    /// under the same name.
    pub fn add_attribute(&mut self, name: String, value: String)
        ensures
            final(self)@ == (DeviceView {
                attributes: attrs_set(old(self)@.attributes, name@, value@),
                ..old(self)@
            }),
    {
        let ghost old_attrs = self.attributes@;
        let mut i: usize = 0;
        while i < self.attributes.len()
            invariant
                i <= self.attributes@.len(),
                *self == *old(self),
                self.attributes@ == old_attrs,
                forall|j: int| 0 <= j < i ==> attrs_view(old_attrs)[j].0 != name@,
            decreases self.attributes@.len() - i,
        {
            if crate::text::string_eq(&self.attributes[i].0, &name) {
                self.attributes.set(i, (name, value));
                proof {
                    lemma_attrs_set_replaces(attrs_view(old_attrs), name@, value@, i as int);
                    assert(attrs_view(self.attributes@) =~= attrs_view(old_attrs).update(
                        i as int,
                        (name@, value@),
                    ));
                }
                return ;
            }
            i = i + 1;
        }
        self.attributes.push((name, value));
        proof {
            lemma_attrs_set_appends(attrs_view(old_attrs), name@, value@);
            assert(attrs_view(self.attributes@) =~= attrs_view(old_attrs).push((name@, value@)));
        }
    }

    /// Appends a Param. Name uniqueness is enforced here: a Param whose
    /// name the Device already holds is not added.
    pub fn add_param(&mut self, param: Param)
        ensures
            params_have_name(old(self)@.params, param@.name) ==> final(self)@ == old(self)@,
            !params_have_name(old(self)@.params, param@.name) ==> final(self)@ == (DeviceView {
                params: old(self)@.params.push(param@),
                ..old(self)@
            }),
    {
        let ghost old_params = self.params@;
        let mut i: usize = 0;
        while i < self.params.len()
            invariant
                i <= self.params@.len(),
                *self == *old(self),
                self.params@ == old_params,
                forall|j: int| 0 <= j < i ==> params_view(old_params)[j].name != param@.name,
            decreases self.params@.len() - i,
        {
            if crate::text::str_eq(self.params[i].name(), param.name()) {
                proof {
                    assert(params_view(old_params)[i as int].name == param@.name);
                }
                return ;
            }
            i = i + 1;
        }
        self.params.push(param);
        proof {
            assert(params_view(self.params@) =~= params_view(old_params).push(
                self.params@.last()@,
            ));
        }
    }

    /// Installs the given behavior callback, replacing any previous
    /// one: exactly one behavior per Device.
    pub fn register_callback(&mut self, cb: C)
        ensures
            final(self)@ == (DeviceView { has_callback: true, ..old(self)@ }),
            final(self).spec_callback() == Some(cb),
    {
        self.callback = Some(cb);
    }

    /// The Device's name.
    pub fn name(&self) -> (r: &str)
        ensures
            r@ == self@.name,
    {
        self.name.as_str()
    }

    /// The Device's Params.
    pub fn params(&self) -> (r: &Vec<Param>)
        ensures
            params_view(r@) == self@.params,
    {
        &self.params
    }

    /// The Device's type tag.
    pub fn device_type(&self) -> (r: DeviceType)
        ensures
            r == self@.device_type,
    {
        self.device_type
    }

    /// The name recorded as the primary param, if any.
    pub fn primary_param(&self) -> (r: &Option<String>)
        ensures
            r matches Some(s) ==> self@.primary_param == Some(s@),
            r is None ==> self@.primary_param is None,
    {
        &self.primary_param
    }

    /// The Device's free-form metadata attributes.
    pub fn attributes(&self) -> (r: &Vec<(String, String)>)
        ensures
            attrs_view(r@) == self@.attributes,
    {
        &self.attributes
    }

    /// Invokes the registered callback with the requested changes, or
    /// does nothing if none is registered. The callback receives the
    /// given mapping and a handle carrying this Device's name and a
    /// snapshot of its current Params; what the callback reported
    /// through the handle comes back verbatim, alongside one
    /// publication per report, each carrying this Device's name and
    /// exactly the reported mapping. The Device's observable state is
    /// unchanged.
    pub fn execute_callback(&mut self, params: &ParamsMap) -> (r: (Vec<ParamsMap>, Vec<
        Publication,
    >))
        ensures
            final(self)@ == old(self)@,
            !old(self)@.has_callback ==> r.0@.len() == 0 && r.1@.len() == 0,
            r.1@.len() == r.0@.len(),
            forall|i: int|
                0 <= i < r.1@.len() ==> (#[trigger] r.1@[i])@.device == old(self)@.name
                    && r.1@[i]@.params == params_map_view(r.0@[i]@),
    {
        if self.callback.is_none() {
            return (Vec::new(), Vec::new());
        }
        let mut handle = make_handle(self.name.as_str(), &self.params);
        match &mut self.callback {
            Some(cb) => cb.apply(params, &mut handle),
            None => {},
        }
        let reports = handle.reports;
        let pubs = reports_to_publications(self.name.as_str(), &reports);
        (reports, pubs)
    }
}

/// Setting a key that sits at position `i` (and nowhere earlier) replaces
/// exactly that entry.
proof fn lemma_attrs_set_replaces(
    a: Seq<(Seq<char>, Seq<char>)>,
    key: Seq<char>,
    value: Seq<char>,
    i: int,
)
    requires
        0 <= i < a.len(),
        a[i].0 == key,
        forall|j: int| 0 <= j < i ==> a[j].0 != key,
    ensures
        attrs_set(a, key, value) == a.update(i, (key, value)),
    decreases a.len(),
{
    if i == 0 {
        assert(attrs_set(a, key, value) =~= a.update(0, (key, value)));
    } else {
        lemma_attrs_set_replaces(a.drop_first(), key, value, i - 1);
        assert(attrs_set(a, key, value) =~= a.update(i, (key, value)));
    }
}

/// Setting a key that no entry holds appends a new entry.
proof fn lemma_attrs_set_appends(a: Seq<(Seq<char>, Seq<char>)>, key: Seq<char>, value: Seq<char>)
    requires
        forall|j: int| 0 <= j < a.len() ==> a[j].0 != key,
    ensures
        attrs_set(a, key, value) == a.push((key, value)),
    decreases a.len(),
{
    if a.len() == 0 {
        assert(attrs_set(a, key, value) =~= a.push((key, value)));
    } else {
        lemma_attrs_set_appends(a.drop_first(), key, value);
        assert(attrs_set(a, key, value) =~= a.push((key, value)));
    }
}

} // verus!
