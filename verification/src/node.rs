//! The Node owns the Devices of one physical unit and is the target of
//! the synchronization router: parameter-change requests from any origin
//! are dispatched here to device callbacks, and everything the callbacks
//! report comes back as outbound publications.

use vstd::prelude::*;

use crate::device::dup_params_map;
use crate::device::params_map_view;
use crate::device::Device;
use crate::device::DeviceCallback;
use crate::device::DeviceView;
use crate::device::ParamsMap;
use crate::device::Publication;
use crate::param::ParamValueView;
use crate::param::ParamView;

verus! {

/// Display information for one Node.
#[derive(Clone, Debug, PartialEq)]
pub struct Info {
    pub name: String,
    pub fw_version: String,
}

/// Mathematical image of `Info`.
pub struct InfoView {
    pub name: Seq<char>,
    pub fw_version: Seq<char>,
}

impl View for Info {
    type V = InfoView;

    open spec fn view(&self) -> InfoView {
        InfoView { name: self.name@, fw_version: self.fw_version@ }
    }
}

/// One entry of the `{device_name: {param_name: value}}` mapping shape in
/// which every parameter update travels, whatever its origin.
#[derive(Clone, Debug, PartialEq)]
pub struct DeviceUpdate {
    pub device: String,
    pub params: ParamsMap,
}

/// Mathematical image of a `DeviceUpdate`.
pub struct DeviceUpdateView {
    pub device: Seq<char>,
    pub params: Seq<(Seq<char>, ParamValueView)>,
}

impl View for DeviceUpdate {
    type V = DeviceUpdateView;

    open spec fn view(&self) -> DeviceUpdateView {
        DeviceUpdateView { device: self.device@, params: params_map_view(self.params@) }
    }
}

/// The full `{device_name: {param_name: value}}` mapping of one update or
/// snapshot, as an ordered list of per-device entries.
pub type UpdatePayload = Vec<DeviceUpdate>;

/// Mathematical image of an `UpdatePayload`.
pub open spec fn update_payload_view(s: Seq<DeviceUpdate>) -> Seq<DeviceUpdateView> {
    s.map_values(|u: DeviceUpdate| u@)
}

/// A copy of one update entry, with the same image.
pub fn dup_device_update(u: &DeviceUpdate) -> (r: DeviceUpdate)
    ensures
        r@ == u@,
{
    DeviceUpdate { device: u.device.clone(), params: dup_params_map(&u.params) }
}

/// Whether the device list holds a device of this name.
pub open spec fn has_device(devs: Seq<DeviceView>, name: Seq<char>) -> bool {
    exists|i: int| 0 <= i < devs.len() && devs[i].name == name
}

/// The invocation log that a payload produces against a device list: the
/// payload's entries restricted, in order, to devices that exist. This is
/// the routing rule shared by every origin (cloud, local control,
/// hardware report).
pub open spec fn spec_route(
    devs: Seq<DeviceView>,
    payload: Seq<DeviceUpdateView>,
) -> Seq<DeviceUpdateView>
    decreases payload.len(),
{
    if payload.len() == 0 {
        Seq::empty()
    } else {
        spec_route(devs, payload.drop_last()) + (if has_device(devs, payload.last().device) {
            seq![payload.last()]
        } else {
            Seq::empty()
        })
    }
}

/// Law: every entry of a payload whose device exists is routed exactly
/// once, in order, with exactly its own submap: over a payload that names
/// only existing devices, the invocation log is the payload itself.
pub proof fn lemma_route_all_known(devs: Seq<DeviceView>, payload: Seq<DeviceUpdateView>)
    requires
        forall|i: int| 0 <= i < payload.len() ==> has_device(
            devs,
            (#[trigger] payload[i]).device,
        ),
    ensures
        spec_route(devs, payload) == payload,
    decreases payload.len(),
{
    if payload.len() == 0 {
        assert(spec_route(devs, payload) =~= payload);
    } else {
        lemma_route_all_known(devs, payload.drop_last());
        assert(spec_route(devs, payload) =~= payload);
    }
}

/// Law: an entry naming an unknown device contributes nothing: dropping
/// it from the payload leaves the invocation log unchanged, so it cannot
/// affect what any other device receives, and it raises no error.
pub proof fn lemma_unknown_device_ignored(
    devs: Seq<DeviceView>,
    payload: Seq<DeviceUpdateView>,
    i: int,
)
    requires
        0 <= i < payload.len(),
        !has_device(devs, payload[i].device),
    ensures
        spec_route(devs, payload) == spec_route(devs, payload.remove(i)),
    decreases payload.len(),
{
    if i == payload.len() - 1 {
        assert(payload.remove(i) =~= payload.drop_last());
    } else {
        lemma_unknown_device_ignored(devs, payload.drop_last(), i);
        assert(payload.remove(i).drop_last() =~= payload.drop_last().remove(i));
        assert(payload.remove(i).last() == payload.last());
        assert(spec_route(devs, payload) =~= spec_route(devs, payload.remove(i)));
    }
}

/// The full current parameter snapshot of a device list, in the same
/// mapping shape as updates.
pub open spec fn spec_param_snapshot(devs: Seq<DeviceView>) -> Seq<DeviceUpdateView> {
    devs.map_values(
        |d: DeviceView| DeviceUpdateView {
            device: d.name,
            params: d.params.map_values(|p: ParamView| (p.name, p.value)),
        },
    )
}

/// The owning collection of Devices for one physical unit.
pub struct Node<C> {
    id: String,
    info: Info,
    devices: Vec<Device<C>>,
}

/// Mathematical image of a `Node`.
pub struct NodeView {
    pub id: Seq<char>,
    pub info: InfoView,
    pub devices: Seq<DeviceView>,
}

impl<C> View for Node<C> {
    type V = NodeView;

    closed spec fn view(&self) -> NodeView {
        NodeView {
            id: self.id@,
            info: self.info@,
            devices: self.devices@.map_values(|d: Device<C>| d@),
        }
    }
}

impl<C: DeviceCallback> Node<C> {
    /// A Node with the given immutable id, empty info and no devices.
    pub fn new(id: String) -> (r: Node<C>)
        ensures
            r@.id == id@,
            r@.info.name.len() == 0,
            r@.info.fw_version.len() == 0,
            r@.devices.len() == 0,
    {
        let r = Node {
            id,
            info: Info { name: String::new(), fw_version: String::new() },
            devices: Vec::new(),
        };
        proof {
            assert(r@.devices =~= Seq::<DeviceView>::empty());
        }
        r
    }

    /// The Node's id.
    pub fn id(&self) -> (r: &str)
        ensures
            r@ == self@.id,
    {
        self.id.as_str()
    }

    /// Replaces the Node's display information.
    pub fn set_info(&mut self, info: Info)
        ensures
            final(self)@ == (NodeView { info: info@, ..old(self)@ }),
    {
        self.info = info;
    }

    /// The Node's display information.
    pub fn info(&self) -> (r: &Info)
        ensures
            r@ == self@.info,
    {
        &self.info
    }

    /// Appends a Device. Name uniqueness is enforced here: a Device whose
    /// name the Node already holds is not added.
    pub fn add_device(&mut self, device: Device<C>)
        ensures
            has_device(old(self)@.devices, device@.name) ==> final(self)@ == old(self)@,
            !has_device(old(self)@.devices, device@.name) ==> final(self)@ == (NodeView {
                devices: old(self)@.devices.push(device@),
                ..old(self)@
            }),
    {
        let mut i: usize = 0;
        while i < self.devices.len()
            invariant
                i <= self.devices@.len(),
                *self == *old(self),
                forall|j: int| 0 <= j < i ==> old(self)@.devices[j].name != device@.name,
            decreases self.devices@.len() - i,
        {
            if crate::text::str_eq(self.devices[i].name(), device.name()) {
                proof {
                    assert(old(self)@.devices[i as int].name == device@.name);
                }
                return ;
            }
            i = i + 1;
        }
        self.devices.push(device);
        proof {
            assert(self@.devices =~= old(self)@.devices.push(self.devices@.last()@));
        }
    }

    /// The number of Devices.
    pub fn device_count(&self) -> (r: usize)
        ensures
            r == self@.devices.len(),
    {
        self.devices.len()
    }

    /// The Node's Devices.
    pub fn devices(&self) -> (r: &Vec<Device<C>>)
        ensures
            r@.map_values(|d: Device<C>| d@) == self@.devices,
    {
        &self.devices
    }

    /// Whether the Node holds a Device of this name.
    pub fn has_device_named(&self, name: &str) -> (r: bool)
        ensures
            r == has_device(self@.devices, name@),
    {
        let mut i: usize = 0;
        while i < self.devices.len()
            invariant
                i <= self.devices@.len(),
                forall|j: int| 0 <= j < i ==> self@.devices[j].name != name@,
            decreases self.devices@.len() - i,
        {
            if crate::text::str_eq(self.devices[i].name(), name) {
                proof {
                    assert(self@.devices[i as int].name == name@);
                }
                return true;
            }
            i = i + 1;
        }
        false
    }

    /// The full current parameter snapshot: one entry per Device, in
    /// order, each carrying the names and current values of its Params.
    pub fn get_param_values(&self) -> (r: UpdatePayload)
        ensures
            update_payload_view(r@) == spec_param_snapshot(self@.devices),
    {
        let mut r: UpdatePayload = Vec::new();
        let ghost snap = spec_param_snapshot(self@.devices);
        let mut i: usize = 0;
        while i < self.devices.len()
            invariant
                i <= self.devices@.len(),
                snap == spec_param_snapshot(self@.devices),
                snap.len() == self.devices@.len(),
                update_payload_view(r@) =~= snap.take(i as int),
            decreases self.devices@.len() - i,
        {
            let dev = &self.devices[i];
            let ps = dev.params();
            let ghost pmap = crate::param::params_view(ps@).map_values(
                |p: ParamView| (p.name, p.value),
            );
            proof {
                assert(self@.devices[i as int] == dev@);
                assert(snap[i as int] == (DeviceUpdateView { device: dev@.name, params: pmap }));
            }
            let mut entry: ParamsMap = Vec::new();
            let mut k: usize = 0;
            while k < ps.len()
                invariant
                    k <= ps@.len(),
                    pmap == crate::param::params_view(ps@).map_values(
                        |p: ParamView| (p.name, p.value),
                    ),
                    pmap.len() == ps@.len(),
                    params_map_view(entry@) =~= pmap.take(k as int),
                decreases ps@.len() - k,
            {
                let pname = ps[k].name().to_owned();
                let pval = crate::param::dup_value(ps[k].value());
                proof {
                    assert(crate::param::params_view(ps@)[k as int] == ps@[k as int]@);
                    assert(pmap[k as int] == (pname@, pval@));
                }
                let ghost prev = entry@;
                entry.push((pname, pval));
                proof {
                    assert(params_map_view(entry@) =~= params_map_view(prev).push(
                        pmap[k as int],
                    ));
                    assert(pmap.take(k + 1) =~= pmap.take(k as int).push(pmap[k as int]));
                }
                k = k + 1;
            }
            proof {
                assert(pmap.take(ps@.len() as int) =~= pmap);
            }
            let ghost prev_r = r@;
            r.push(DeviceUpdate { device: dev.name().to_owned(), params: entry });
            proof {
                assert(r@.last()@ == snap[i as int]);
                assert(update_payload_view(r@) =~= update_payload_view(prev_r).push(
                    snap[i as int],
                ));
                assert(snap.take(i + 1) =~= snap.take(i as int).push(snap[i as int]));
            }
            i = i + 1;
        }
        proof {
            assert(snap.take(self.devices@.len() as int) =~= snap);
        }
        r
    }

    /// Dispatches one `{param_name: value}` mapping to the named Device's
    /// callback. An unknown device name is skipped without effect and
    /// without error; otherwise the Device's callback runs once and
    /// what it reported comes back verbatim, alongside one publication
    /// per report, each carrying that device's name and exactly the
    /// reported mapping. The Node's observable state is unchanged
    /// either way.
    pub fn exeute_device_callback(&mut self, device: &str, params: &ParamsMap) -> (r: (Vec<
        crate::device::ParamsMap,
    >, Vec<Publication>))
        ensures
            final(self)@ == old(self)@,
            !has_device(old(self)@.devices, device@) ==> r.0@.len() == 0 && r.1@.len() == 0,
            r.1@.len() == r.0@.len(),
            forall|k: int|
                0 <= k < r.1@.len() ==> (#[trigger] r.1@[k])@.device == device@ && r.1@[k]@.params
                    == params_map_view(r.0@[k]@),
    {
        let n = self.devices.len();
        let mut i: usize = 0;
        while i < n
            invariant
                i <= n,
                n == self.devices@.len(),
                *self == *old(self),
            decreases n - i,
        {
            if crate::text::str_eq(self.devices[i].name(), device) {
                proof {
                    assert(old(self)@.devices[i as int].name == device@);
                }
                let ghost pre = self@;
                let d = &mut self.devices[i];
                let (reports, pubs) = d.execute_callback(params);
                proof {
                    assert(pre.devices[i as int] == old(self)@.devices[i as int]);
                    assert(self@.devices =~= pre.devices);
                }
                return (reports, pubs);
            }
            i = i + 1;
        }
        (Vec::new(), Vec::new())
    }

    /// Routes a full `{device_name: {param_name: value}}` payload: every
    /// entry whose device exists is dispatched to that device's callback,
    /// exactly once, in payload order; unknown device names are skipped
    /// without error and without affecting the rest of the payload. The
    /// first result is the invocation log, pinned to `spec_route`; the
    /// second collects the publications the callbacks reported, each
    /// carrying the name of an invoked device.
    pub fn process_remote_update(&mut self, payload: &UpdatePayload) -> (r: (
        Vec<DeviceUpdate>,
        Vec<Publication>,
    ))
        ensures
            final(self)@ == old(self)@,
            update_payload_view(r.0@) == spec_route(
                old(self)@.devices,
                update_payload_view(payload@),
            ),
            forall|k: int| 0 <= k < r.1@.len() ==> has_device(
                old(self)@.devices,
                (#[trigger] r.1@[k])@.device,
            ),
            r.0@.len() == 0 ==> r.1@.len() == 0,
    {
        let ghost devs = self@.devices;
        let ghost pv = update_payload_view(payload@);
        let mut invocations: Vec<DeviceUpdate> = Vec::new();
        let mut pubs: Vec<Publication> = Vec::new();
        let mut i: usize = 0;
        while i < payload.len()
            invariant
                i <= payload@.len(),
                self@ == old(self)@,
                devs == old(self)@.devices,
                pv == update_payload_view(payload@),
                update_payload_view(invocations@) =~= spec_route(devs, pv.take(i as int)),
                forall|k: int| 0 <= k < pubs@.len() ==> has_device(
                    devs,
                    (#[trigger] pubs@[k])@.device,
                ),
                invocations@.len() == 0 ==> pubs@.len() == 0,
            decreases payload@.len() - i,
        {
            let entry = &payload[i];
            proof {
                assert(pv.take(i + 1).drop_last() =~= pv.take(i as int));
                assert(pv.take(i + 1).last() == entry@);
            }
            if self.has_device_named(entry.device.as_str()) {
                invocations.push(dup_device_update(entry));
                let (_reports, mut entry_pubs) = self.exeute_device_callback(
                    entry.device.as_str(),
                    &entry.params,
                );
                proof {
                    assert(update_payload_view(invocations@) =~= spec_route(
                        devs,
                        pv.take(i as int),
                    ).push(entry@));
                    assert(spec_route(devs, pv.take(i + 1)) =~= spec_route(
                        devs,
                        pv.take(i as int),
                    ).push(entry@));
                }
                pubs.append(&mut entry_pubs);
            } else {
                proof {
                    assert(spec_route(devs, pv.take(i + 1)) =~= spec_route(
                        devs,
                        pv.take(i as int),
                    ));
                }
            }
            i = i + 1;
        }
        proof {
            assert(pv.take(payload@.len() as int) =~= pv);
        }
        (invocations, pubs)
    }
}

} // verus!
