//! The node configuration blob: a full serialization of the Node — its
//! id, display info and every Device with its Params' metadata — served
//! through the read-only `config` local property and published once at
//! startup.

use vstd::prelude::*;

use crate::codec::enc_str;
use crate::codec::enc_u64;
use crate::codec::enc_value;
use crate::codec::spec_enc_str;
use crate::codec::spec_enc_u64;
use crate::codec::spec_enc_value;
use crate::device::attrs_view;
use crate::device::Device;
use crate::device::DeviceCallback;
use crate::device::DeviceType;
use crate::device::DeviceView;
use crate::node::Node;
use crate::node::NodeView;
use crate::param::params_view;
use crate::param::Param;
use crate::param::ParamBounds;
use crate::param::ParamView;

verus! {

/// The wire code of a device type.
pub open spec fn spec_device_type_code(t: DeviceType) -> u64 {
    match t {
        DeviceType::Switch => 0,
        DeviceType::Lightbulb => 1,
        DeviceType::Light => 2,
        DeviceType::Fan => 3,
        DeviceType::TemperatureSensor => 4,
        DeviceType::SmartPlugOutlet => 5,
        DeviceType::Smartplug => 6,
        DeviceType::SmartplugSocket => 7,
        DeviceType::Smartlock => 8,
        DeviceType::InteriorBlind => 9,
        DeviceType::ExteriorBlind => 10,
        DeviceType::GarageDoor => 11,
        DeviceType::Speaker => 12,
        DeviceType::AirConditioner => 13,
        DeviceType::Thermostat => 14,
        DeviceType::TV => 15,
        DeviceType::Washer => 16,
        DeviceType::ContactSensor => 17,
        DeviceType::MotionSensor => 18,
        DeviceType::Doorbell => 19,
        DeviceType::SecurityPanel => 20,
        DeviceType::X => 21,
        DeviceType::OTHER => 22,
    }
}

/// The wire code of a device type, as executable code.
pub fn device_type_code(t: DeviceType) -> (r: u64)
    ensures
        r == spec_device_type_code(t),
{
    match t {
        DeviceType::Switch => 0,
        DeviceType::Lightbulb => 1,
        DeviceType::Light => 2,
        DeviceType::Fan => 3,
        DeviceType::TemperatureSensor => 4,
        DeviceType::SmartPlugOutlet => 5,
        DeviceType::Smartplug => 6,
        DeviceType::SmartplugSocket => 7,
        DeviceType::Smartlock => 8,
        DeviceType::InteriorBlind => 9,
        DeviceType::ExteriorBlind => 10,
        DeviceType::GarageDoor => 11,
        DeviceType::Speaker => 12,
        DeviceType::AirConditioner => 13,
        DeviceType::Thermostat => 14,
        DeviceType::TV => 15,
        DeviceType::Washer => 16,
        DeviceType::ContactSensor => 17,
        DeviceType::MotionSensor => 18,
        DeviceType::Doorbell => 19,
        DeviceType::SecurityPanel => 20,
        DeviceType::X => 21,
        DeviceType::OTHER => 22,
    }
}

/// Encoding of optional numeric bounds: a presence byte, then min, max
/// and step.
pub open spec fn spec_enc_bounds(b: Option<ParamBounds>) -> Seq<u8> {
    match b {
        Option::None => seq![0u8],
        Option::Some(x) => seq![1u8] + spec_enc_u64(x.min as u64) + spec_enc_u64(x.max as u64)
            + spec_enc_u64(x.step as u64),
    }
}

/// Appends the encoding of optional numeric bounds.
pub fn enc_bounds(out: &mut Vec<u8>, b: &Option<ParamBounds>)
    ensures
        final(out)@ == old(out)@ + spec_enc_bounds(*b),
{
    match b {
        None => {
            out.push(0u8);
            proof {
                assert(final(out)@ =~= old(out)@ + spec_enc_bounds(*b));
            }
        },
        Some(x) => {
            out.push(1u8);
            enc_u64(out, x.min as u64);
            enc_u64(out, x.max as u64);
            enc_u64(out, x.step as u64);
            proof {
                assert(final(out)@ =~= old(out)@ + spec_enc_bounds(*b));
            }
        },
    }
}

/// Encoding of one Param's full metadata: name, current value, UI type,
/// property bitset and bounds.
pub open spec fn spec_enc_param_meta(p: ParamView) -> Seq<u8> {
    spec_enc_str(p.name) + spec_enc_value(p.value) + spec_enc_str(p.ui_type) + spec_enc_u64(
        p.properties,
    ) + spec_enc_bounds(p.bounds)
}

/// Appends the encoding of one Param's full metadata.
pub fn enc_param_meta(out: &mut Vec<u8>, p: &Param)
    ensures
        final(out)@ == old(out)@ + spec_enc_param_meta(p@),
{
    enc_str(out, p.name());
    enc_value(out, p.value());
    enc_str(out, p.ui_type());
    enc_u64(out, p.properties());
    let bounds = p.bounds();
    enc_bounds(out, &bounds);
    proof {
        assert(final(out)@ =~= old(out)@ + spec_enc_param_meta(p@));
    }
}

/// Encoding of a list of Param metadata blocks, in order.
pub open spec fn spec_enc_param_meta_list(ps: Seq<ParamView>) -> Seq<u8>
    decreases ps.len(),
{
    if ps.len() == 0 {
        Seq::empty()
    } else {
        spec_enc_param_meta(ps.first()) + spec_enc_param_meta_list(ps.drop_first())
    }
}

/// Appending a Param appends its metadata encoding.
pub proof fn lemma_enc_param_meta_list_push(ps: Seq<ParamView>, p: ParamView)
    ensures
        spec_enc_param_meta_list(ps.push(p)) == spec_enc_param_meta_list(ps)
            + spec_enc_param_meta(p),
    decreases ps.len(),
{
    if ps.len() == 0 {
        assert(ps.push(p).drop_first() =~= Seq::<ParamView>::empty());
        assert(spec_enc_param_meta_list(Seq::<ParamView>::empty()) == Seq::<u8>::empty());
        assert(ps.push(p).first() == p);
        assert(spec_enc_param_meta_list(ps.push(p)) == spec_enc_param_meta(p)
            + spec_enc_param_meta_list(ps.push(p).drop_first()));
        assert(spec_enc_param_meta_list(ps.push(p)) =~= spec_enc_param_meta_list(ps)
            + spec_enc_param_meta(p));
    } else {
        assert(ps.push(p).first() == ps.first());
        assert(ps.push(p).drop_first() =~= ps.drop_first().push(p));
        lemma_enc_param_meta_list_push(ps.drop_first(), p);
        assert(spec_enc_param_meta_list(ps.push(p)) == spec_enc_param_meta(ps.first())
            + spec_enc_param_meta_list(ps.drop_first().push(p)));
        assert(spec_enc_param_meta_list(ps.push(p)) =~= spec_enc_param_meta_list(ps)
            + spec_enc_param_meta(p));
    }
}

/// Encoding of one string attribute pair.
pub open spec fn spec_enc_attr(e: (Seq<char>, Seq<char>)) -> Seq<u8> {
    spec_enc_str(e.0) + spec_enc_str(e.1)
}

/// Encoding of a list of string attribute pairs, in order.
pub open spec fn spec_enc_attr_list(a: Seq<(Seq<char>, Seq<char>)>) -> Seq<u8>
    decreases a.len(),
{
    if a.len() == 0 {
        Seq::empty()
    } else {
        spec_enc_attr(a.first()) + spec_enc_attr_list(a.drop_first())
    }
}

/// Appending an attribute appends its encoding.
pub proof fn lemma_enc_attr_list_push(a: Seq<(Seq<char>, Seq<char>)>, e: (Seq<char>, Seq<char>))
    ensures
        spec_enc_attr_list(a.push(e)) == spec_enc_attr_list(a) + spec_enc_attr(e),
    decreases a.len(),
{
    if a.len() == 0 {
        assert(a.push(e).drop_first() =~= Seq::<(Seq<char>, Seq<char>)>::empty());
        assert(spec_enc_attr_list(Seq::<(Seq<char>, Seq<char>)>::empty()) == Seq::<u8>::empty());
        assert(a.push(e).first() == e);
        assert(spec_enc_attr_list(a.push(e)) == spec_enc_attr(e) + spec_enc_attr_list(
            a.push(e).drop_first(),
        ));
        assert(spec_enc_attr_list(a.push(e)) =~= spec_enc_attr_list(a) + spec_enc_attr(e));
    } else {
        assert(a.push(e).first() == a.first());
        assert(a.push(e).drop_first() =~= a.drop_first().push(e));
        lemma_enc_attr_list_push(a.drop_first(), e);
        assert(spec_enc_attr_list(a.push(e)) == spec_enc_attr(a.first()) + spec_enc_attr_list(
            a.drop_first().push(e),
        ));
        assert(spec_enc_attr_list(a.push(e)) =~= spec_enc_attr_list(a) + spec_enc_attr(e));
    }
}

/// Encoding of the optional primary param name: a presence byte, then
/// the name.
pub open spec fn spec_enc_primary(p: Option<Seq<char>>) -> Seq<u8> {
    match p {
        Option::None => seq![0u8],
        Option::Some(s) => seq![1u8] + spec_enc_str(s),
    }
}

/// Encoding of one Device's configuration: name, type, primary param,
/// attributes and Param metadata.
pub open spec fn spec_enc_device_config(d: DeviceView) -> Seq<u8> {
    spec_enc_str(d.name) + spec_enc_u64(spec_device_type_code(d.device_type)) + spec_enc_primary(
        d.primary_param,
    ) + spec_enc_u64(d.attributes.len() as u64) + spec_enc_attr_list(d.attributes) + spec_enc_u64(
        d.params.len() as u64,
    ) + spec_enc_param_meta_list(d.params)
}

/// Appends the encoding of one Device's configuration.
#[verifier::rlimit(100)]
pub fn enc_device_config<C: DeviceCallback>(out: &mut Vec<u8>, d: &Device<C>)
    ensures
        final(out)@ == old(out)@ + spec_enc_device_config(d@),
{
    enc_str(out, d.name());
    enc_u64(out, device_type_code(d.device_type()));
    match d.primary_param() {
        None => {
            out.push(0u8);
            proof {
                assert(out@ =~= old(out)@ + spec_enc_str(d@.name) + spec_enc_u64(
                    spec_device_type_code(d@.device_type),
                ) + spec_enc_primary(d@.primary_param));
            }
        },
        Some(s) => {
            out.push(1u8);
            enc_str(out, s.as_str());
            proof {
                assert(out@ =~= old(out)@ + spec_enc_str(d@.name) + spec_enc_u64(
                    spec_device_type_code(d@.device_type),
                ) + spec_enc_primary(d@.primary_param));
            }
        },
    }
    let ghost base1 = out@;
    let attrs = d.attributes();
    let ghost av = attrs_view(attrs@);
    enc_u64(out, attrs.len() as u64);
    let ghost base2 = out@;
    let mut i: usize = 0;
    while i < attrs.len()
        invariant
            i <= attrs@.len(),
            av == attrs_view(attrs@),
            av.len() == attrs@.len(),
            base2 == base1 + spec_enc_u64(attrs@.len() as u64),
            out@ == base2 + spec_enc_attr_list(av.take(i as int)),
        decreases attrs@.len() - i,
    {
        enc_str(out, attrs[i].0.as_str());
        enc_str(out, attrs[i].1.as_str());
        i = i + 1;
        proof {
            assert(av.take(i as int) =~= av.take(i - 1).push(av[i - 1]));
            lemma_enc_attr_list_push(av.take(i - 1), av[i - 1]);
            assert(out@ =~= base2 + spec_enc_attr_list(av.take(i as int)));
        }
    }
    proof {
        assert(av.take(attrs@.len() as int) =~= av);
    }
    let ghost base3 = out@;
    let ps = d.params();
    let ghost pv = params_view(ps@);
    enc_u64(out, ps.len() as u64);
    let ghost base4 = out@;
    let mut k: usize = 0;
    while k < ps.len()
        invariant
            k <= ps@.len(),
            pv == params_view(ps@),
            pv.len() == ps@.len(),
            base4 == base3 + spec_enc_u64(ps@.len() as u64),
            out@ == base4 + spec_enc_param_meta_list(pv.take(k as int)),
        decreases ps@.len() - k,
    {
        enc_param_meta(out, &ps[k]);
        k = k + 1;
        proof {
            assert(pv.take(k as int) =~= pv.take(k - 1).push(pv[k - 1]));
            lemma_enc_param_meta_list_push(pv.take(k - 1), pv[k - 1]);
        }
    }
    proof {
        assert(pv.take(ps@.len() as int) =~= pv);
        assert(final(out)@ =~= old(out)@ + spec_enc_device_config(d@));
    }
}

/// Encoding of a list of Device configurations, in order.
pub open spec fn spec_enc_device_config_list(ds: Seq<DeviceView>) -> Seq<u8>
    decreases ds.len(),
{
    if ds.len() == 0 {
        Seq::empty()
    } else {
        spec_enc_device_config(ds.first()) + spec_enc_device_config_list(ds.drop_first())
    }
}

/// Appending a Device appends its configuration encoding.
pub proof fn lemma_enc_device_config_list_push(ds: Seq<DeviceView>, d: DeviceView)
    ensures
        spec_enc_device_config_list(ds.push(d)) == spec_enc_device_config_list(ds)
            + spec_enc_device_config(d),
    decreases ds.len(),
{
    if ds.len() == 0 {
        assert(ds.push(d).drop_first() =~= Seq::<DeviceView>::empty());
        assert(spec_enc_device_config_list(Seq::<DeviceView>::empty()) == Seq::<u8>::empty());
        assert(ds.push(d).first() == d);
        assert(spec_enc_device_config_list(ds.push(d)) == spec_enc_device_config(d)
            + spec_enc_device_config_list(ds.push(d).drop_first()));
        assert(spec_enc_device_config_list(ds.push(d)) =~= spec_enc_device_config_list(ds)
            + spec_enc_device_config(d));
    } else {
        assert(ds.push(d).first() == ds.first());
        assert(ds.push(d).drop_first() =~= ds.drop_first().push(d));
        lemma_enc_device_config_list_push(ds.drop_first(), d);
        assert(spec_enc_device_config_list(ds.push(d)) == spec_enc_device_config(ds.first())
            + spec_enc_device_config_list(ds.drop_first().push(d)));
        assert(spec_enc_device_config_list(ds.push(d)) =~= spec_enc_device_config_list(ds)
            + spec_enc_device_config(d));
    }
}

/// Encoding of the full node configuration: id, display info and every
/// Device.
pub open spec fn spec_enc_node_config(n: NodeView) -> Seq<u8> {
    spec_enc_str(n.id) + spec_enc_str(n.info.name) + spec_enc_str(n.info.fw_version)
        + spec_enc_u64(n.devices.len() as u64) + spec_enc_device_config_list(n.devices)
}

/// Serializes the full node configuration.
pub fn encode_node_config<C: DeviceCallback>(node: &Node<C>) -> (r: Vec<u8>)
    ensures
        r@ == spec_enc_node_config(node@),
{
    let mut out: Vec<u8> = Vec::new();
    enc_str(&mut out, node.id());
    enc_str(&mut out, node.info().name.as_str());
    enc_str(&mut out, node.info().fw_version.as_str());
    let devices = node.devices();
    let ghost dv = node@.devices;
    enc_u64(&mut out, devices.len() as u64);
    let ghost base = out@;
    let mut i: usize = 0;
    while i < devices.len()
        invariant
            i <= devices@.len(),
            dv == devices@.map_values(|d: Device<C>| d@),
            dv.len() == devices@.len(),
            base == spec_enc_str(node@.id) + spec_enc_str(node@.info.name) + spec_enc_str(
                node@.info.fw_version,
            ) + spec_enc_u64(devices@.len() as u64),
            out@ == base + spec_enc_device_config_list(dv.take(i as int)),
        decreases devices@.len() - i,
    {
        enc_device_config(&mut out, &devices[i]);
        i = i + 1;
        proof {
            assert(dv.take(i as int) =~= dv.take(i - 1).push(dv[i - 1]));
            lemma_enc_device_config_list_push(dv.take(i - 1), dv[i - 1]);
        }
    }
    proof {
        assert(dv.take(devices@.len() as int) =~= dv);
        assert(out@ =~= spec_enc_node_config(node@));
    }
    out
}

} // verus!
