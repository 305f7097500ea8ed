//! The local control channel: a fixed registry of named properties
//! (`config`, `params`) with type and access-flag metadata, get/set
//! accessors over the Node, the typed command handlers, and the two
//! endpoint handlers layered over the binary protocol of `proto`.

use vstd::prelude::*;
use vstd::string::StrSliceExecFns;
use vstd::string::StringSliceAdditionalSpecFns;

use crate::codec::decode_params_payload;
use crate::codec::encode_params_payload;
use crate::codec::spec_decode_params_payload;
use crate::codec::spec_encode_params_payload;
use crate::codec::wf_payload;
use crate::config::encode_node_config;
use crate::config::spec_enc_node_config;
use crate::device::DeviceCallback;
use crate::device::DeviceView;
use crate::device::Publication;
use crate::error::RmakerError;
use crate::node::has_device;
use crate::node::spec_param_snapshot;
use crate::node::spec_route;
use crate::node::update_payload_view;
use crate::node::DeviceUpdate;
use crate::node::DeviceUpdateView;
use crate::node::Node;
use crate::proto::decode_message;
use crate::proto::encode_message;
use crate::proto::info_list_view;
use crate::proto::spec_decode_message;
use crate::proto::spec_enc_message;
use crate::proto::write_list_view;
use crate::proto::LocalCtrlMessage;
use crate::proto::LocalCtrlMessageView;
use crate::proto::PropertyInfo;
use crate::proto::PropertyInfoView;
use crate::proto::PropertyWrite;
use crate::proto::PropertyWriteView;
use crate::proto::Status;
use crate::text::str_eq;

verus! {

/// Wire type code of the node-configuration property.
pub const LOCAL_CTRL_TYPE_NODECONFIG: u64 = 1;

/// Wire type code of the node-parameters property.
pub const LOCAL_CTRL_TYPE_PARAM: u64 = 2;

/// Access-flag bit marking a property read-only.
pub const LOCAL_CTRL_FLAG_READONLY: u64 = 1;

/// The kinds of local properties.
#[derive(Clone, Copy, Debug, PartialEq, Eq, Structural)]
pub enum PropertyTypes {
    NodeConfig,
    NodeParams,
}

impl PropertyTypes {
    /// The wire type code of this property kind.
    pub fn code(&self) -> (r: u64)
        ensures
            *self is NodeConfig ==> r == LOCAL_CTRL_TYPE_NODECONFIG,
            *self is NodeParams ==> r == LOCAL_CTRL_TYPE_PARAM,
    {
        match self {
            PropertyTypes::NodeConfig => LOCAL_CTRL_TYPE_NODECONFIG,
            PropertyTypes::NodeParams => LOCAL_CTRL_TYPE_PARAM,
        }
    }
}

/// The access flags of local properties.
#[derive(Clone, Copy, Debug, PartialEq, Eq, Structural)]
pub enum PropertyFlags {
    FlagReadonly,
}

impl PropertyFlags {
    /// The flag bit of this access flag.
    pub fn bit(&self) -> (r: u64)
        ensures
            r == LOCAL_CTRL_FLAG_READONLY,
    {
        match self {
            PropertyFlags::FlagReadonly => LOCAL_CTRL_FLAG_READONLY,
        }
    }
}

/// One registered local property: name, wire type code and access
/// flags. Registered once at startup; immutable thereafter.
#[derive(Clone, Debug, PartialEq)]
pub struct PropertyDescriptor {
    pub name: String,
    pub ptype: u64,
    pub flags: u64,
}

/// Mathematical image of a `PropertyDescriptor`.
pub struct PropertyDescriptorView {
    pub name: Seq<char>,
    pub ptype: u64,
    pub flags: u64,
}

impl View for PropertyDescriptor {
    type V = PropertyDescriptorView;

    open spec fn view(&self) -> PropertyDescriptorView {
        PropertyDescriptorView { name: self.name@, ptype: self.ptype, flags: self.flags }
    }
}

/// Mathematical image of a property registry.
pub open spec fn properties_view(s: Seq<PropertyDescriptor>) -> Seq<PropertyDescriptorView> {
    s.map_values(|d: PropertyDescriptor| d@)
}

/// First registered property of this name, if any.
pub open spec fn spec_find_property(
    props: Seq<PropertyDescriptorView>,
    name: Seq<char>,
) -> Option<PropertyDescriptorView>
    decreases props.len(),
{
    if props.len() == 0 {
        None
    } else if props.first().name == name {
        Some(props.first())
    } else {
        spec_find_property(props.drop_first(), name)
    }
}

/// The standard property registry: the read-only `config` property and
/// the writable `params` property.
pub open spec fn spec_standard_properties() -> Seq<PropertyDescriptorView> {
    seq![
        PropertyDescriptorView {
            name: "config"@,
            ptype: LOCAL_CTRL_TYPE_NODECONFIG,
            flags: LOCAL_CTRL_FLAG_READONLY,
        },
        PropertyDescriptorView { name: "params"@, ptype: LOCAL_CTRL_TYPE_PARAM, flags: 0 },
    ]
}

/// The local control state: the property registry.
pub struct RmakerLocalCtrl {
    properties: Vec<PropertyDescriptor>,
}

impl View for RmakerLocalCtrl {
    type V = Seq<PropertyDescriptorView>;

    closed spec fn view(&self) -> Seq<PropertyDescriptorView> {
        properties_view(self.properties@)
    }
}

impl RmakerLocalCtrl {
    /// The local control state with the standard registry: `config`
    /// (read-only) and `params` (writable), registered once here.
    pub fn new() -> (r: RmakerLocalCtrl)
        ensures
            r@ == spec_standard_properties(),
    {
        let mut properties: Vec<PropertyDescriptor> = Vec::new();
        properties.push(
            PropertyDescriptor {
                name: String::from_str("config"),
                ptype: PropertyTypes::NodeConfig.code(),
                flags: PropertyFlags::FlagReadonly.bit(),
            },
        );
        properties.push(
            PropertyDescriptor {
                name: String::from_str("params"),
                ptype: PropertyTypes::NodeParams.code(),
                flags: 0,
            },
        );
        let r = RmakerLocalCtrl { properties };
        proof {
            assert(r@ =~= spec_standard_properties());
        }
        r
    }

    /// The number of registered properties.
    pub fn property_count(&self) -> (r: usize)
        ensures
            r == self@.len(),
    {
        self.properties.len()
    }

    /// The registered property of this name, if any: its wire type code
    /// and its access flags.
    pub fn find_property(&self, name: &str) -> (r: Option<(u64, u64)>)
        ensures
            match spec_find_property(self@, name@) {
                Some(d) => r == Some((d.ptype, d.flags)),
                None => r is None,
            },
    {
        proof {
            assert(self@.skip(0) =~= self@);
        }
        let mut i: usize = 0;
        while i < self.properties.len()
            invariant
                i <= self.properties@.len(),
                spec_find_property(self@, name@) == spec_find_property(
                    self@.skip(i as int),
                    name@,
                ),
            decreases self.properties@.len() - i,
        {
            proof {
                assert(self@.skip(i as int).first() == self@[i as int]);
                assert(self@.skip(i as int).drop_first() =~= self@.skip(i + 1));
            }
            if str_eq(self.properties[i].name.as_str(), name) {
                return Some((self.properties[i].ptype, self.properties[i].flags));
            }
            i = i + 1;
        }
        proof {
            assert(self@.skip(self.properties@.len() as int) =~= Seq::<
                PropertyDescriptorView,
            >::empty());
        }
        None
    }

    /// The descriptor at an index, as a `PropertyInfo` without a value.
    pub fn property_at(&self, i: usize) -> (r: (String, u64, u64))
        requires
            i < self@.len(),
        ensures
            r.0@ == self@[i as int].name,
            r.1 == self@[i as int].ptype,
            r.2 == self@[i as int].flags,
    {
        let d = &self.properties[i];
        (d.name.clone(), d.ptype, d.flags)
    }
}

/// What the get-accessor serves for a property name: `config` is the
/// full node configuration, `params` the current parameter snapshot,
/// and any other name an empty blob.
pub open spec fn spec_get_val(n: crate::node::NodeView, name: Seq<char>) -> Seq<u8> {
    if name == "config"@ {
        spec_enc_node_config(n)
    } else if name == "params"@ {
        spec_encode_params_payload(spec_param_snapshot(n.devices))
    } else {
        Seq::empty()
    }
}

/// The get-accessor of the Local Property Registry: serializes the full
/// Node for `config`, the current parameter snapshot for `params`, and
/// serves an empty blob for an unknown name (logged and ignored, not
/// fatal).
pub fn local_ctrl_get_val<C: DeviceCallback>(name: &str, node: &Node<C>) -> (r: Vec<u8>)
    ensures
        r@ == spec_get_val(node@, name@),
{
    if str_eq(name, "config") {
        encode_node_config(node)
    } else if str_eq(name, "params") {
        let snapshot = node.get_param_values();
        encode_params_payload(&snapshot)
    } else {
        let r: Vec<u8> = Vec::new();
        proof {
            assert(r@ =~= Seq::<u8>::empty());
        }
        r
    }
}

/// The status of one set-accessor call: rejected while the property is
/// read-only, rejected for a name the accessor does not write, rejected
/// when the blob does not decode, successful otherwise.
pub open spec fn spec_set_status(name: Seq<char>, flags: u64, data: Seq<u8>) -> Status {
    if flags & LOCAL_CTRL_FLAG_READONLY != 0 {
        Status::Fail
    } else if name == "params"@ {
        match spec_decode_params_payload(data) {
            Some(_) => Status::Success,
            None => Status::Fail,
        }
    } else {
        Status::InvalidArgument
    }
}

/// The invocation log of one set-accessor call: only a writable
/// `params` write that decodes reaches the router, and then routes
/// exactly as a remote update of the decoded payload would.
pub open spec fn spec_set_invocations(
    devs: Seq<DeviceView>,
    name: Seq<char>,
    flags: u64,
    data: Seq<u8>,
) -> Seq<DeviceUpdateView> {
    if flags & LOCAL_CTRL_FLAG_READONLY == 0 && name == "params"@ {
        match spec_decode_params_payload(data) {
            Some(pv) => spec_route(devs, pv),
            None => Seq::empty(),
        }
    } else {
        Seq::empty()
    }
}

/// The set-accessor of the Local Property Registry: a write to a
/// read-only property is rejected without effect; a write to `params`
/// decodes the blob into the `{device_name: {param_name: value}}` shape
/// and dispatches it as a local-control update through the router; any
/// other name is rejected. The Node's observable state is unchanged in
/// every case.
pub fn local_ctrl_set_val<C: DeviceCallback>(
    name: &str,
    flags: u64,
    data: &[u8],
    node: &mut Node<C>,
) -> (r: (Status, Vec<DeviceUpdate>, Vec<Publication>))
    ensures
        final(node)@ == old(node)@,
        r.0 == spec_set_status(name@, flags, data@),
        update_payload_view(r.1@) == spec_set_invocations(old(node)@.devices, name@, flags, data@),
        forall|k: int| 0 <= k < r.2@.len() ==> has_device(
            old(node)@.devices,
            (#[trigger] r.2@[k])@.device,
        ),
        r.1@.len() == 0 ==> r.2@.len() == 0,
{
    if flags & LOCAL_CTRL_FLAG_READONLY != 0 {
        let inv: Vec<DeviceUpdate> = Vec::new();
        proof {
            assert(update_payload_view(inv@) =~= Seq::<DeviceUpdateView>::empty());
        }
        return (Status::Fail, inv, Vec::new());
    }
    if str_eq(name, "params") {
        match decode_params_payload(data) {
            Some(payload) => {
                let (invocations, publications) = node.process_remote_update(&payload);
                (Status::Success, invocations, publications)
            },
            None => {
                let inv: Vec<DeviceUpdate> = Vec::new();
                proof {
                    assert(update_payload_view(inv@) =~= Seq::<DeviceUpdateView>::empty());
                }
                (Status::Fail, inv, Vec::new())
            },
        }
    } else {
        let inv: Vec<DeviceUpdate> = Vec::new();
        proof {
            assert(update_payload_view(inv@) =~= Seq::<DeviceUpdateView>::empty());
        }
        (Status::InvalidArgument, inv, Vec::new())
    }
}

/// The status of one entry of a set-property-values command: an
/// unregistered name is rejected; a registered one gets the
/// set-accessor's status under the registered flags.
pub open spec fn spec_set_entry_status(
    reg: Seq<PropertyDescriptorView>,
    w: PropertyWriteView,
) -> Status {
    match spec_find_property(reg, w.name) {
        Some(d) => spec_set_status(w.name, d.flags, w.value),
        None => Status::InvalidArgument,
    }
}

/// The invocation log of one entry of a set-property-values command.
pub open spec fn spec_set_entry_invocations(
    reg: Seq<PropertyDescriptorView>,
    devs: Seq<DeviceView>,
    w: PropertyWriteView,
) -> Seq<DeviceUpdateView> {
    match spec_find_property(reg, w.name) {
        Some(d) => spec_set_invocations(devs, w.name, d.flags, w.value),
        None => Seq::empty(),
    }
}

/// The per-entry statuses of a whole set-property-values command.
pub open spec fn spec_set_statuses(
    reg: Seq<PropertyDescriptorView>,
    ws: Seq<PropertyWriteView>,
) -> Seq<Status> {
    ws.map_values(|w: PropertyWriteView| spec_set_entry_status(reg, w))
}

/// The concatenated invocation log of a whole set-property-values
/// command, in entry order.
pub open spec fn spec_set_all_invocations(
    reg: Seq<PropertyDescriptorView>,
    devs: Seq<DeviceView>,
    ws: Seq<PropertyWriteView>,
) -> Seq<DeviceUpdateView>
    decreases ws.len(),
{
    if ws.len() == 0 {
        Seq::empty()
    } else {
        spec_set_all_invocations(reg, devs, ws.drop_last()) + spec_set_entry_invocations(
            reg,
            devs,
            ws.last(),
        )
    }
}

/// Whether every status in the list is a success.
pub open spec fn spec_all_success(ss: Seq<Status>) -> bool {
    forall|i: int| 0 <= i < ss.len() ==> ss[i] == Status::Success
}

/// Law: a set-property-values entry that names the read-only `config`
/// property always fails, and never reaches the router: it produces no
/// device callback invocation at all.
pub proof fn lemma_set_config_rejected(devs: Seq<DeviceView>, value: Seq<u8>)
    ensures
        spec_set_entry_status(
            spec_standard_properties(),
            PropertyWriteView { name: "config"@, value },
        ) == Status::Fail,
        spec_set_entry_invocations(
            spec_standard_properties(),
            devs,
            PropertyWriteView { name: "config"@, value },
        ) == Seq::<DeviceUpdateView>::empty(),
{
    let reg = spec_standard_properties();
    assert(reg.first().name == "config"@);
    assert(spec_find_property(reg, "config"@) == Some(reg.first()));
    assert(LOCAL_CTRL_FLAG_READONLY & LOCAL_CTRL_FLAG_READONLY != 0) by (bit_vector);
}

/// Law: origin independence of the routing effect. A local-control
/// write of a payload to the writable `params` property succeeds and
/// produces exactly the invocation log that the same payload produces
/// as a remote update: `spec_route` of the payload, entry for entry.
pub proof fn lemma_local_set_matches_remote(devs: Seq<DeviceView>, payload: Seq<DeviceUpdateView>)
    requires
        wf_payload(payload),
    ensures
        spec_set_entry_status(
            spec_standard_properties(),
            PropertyWriteView { name: "params"@, value: spec_encode_params_payload(payload) },
        ) == Status::Success,
        spec_set_entry_invocations(
            spec_standard_properties(),
            devs,
            PropertyWriteView { name: "params"@, value: spec_encode_params_payload(payload) },
        ) == spec_route(devs, payload),
{
    let reg = spec_standard_properties();
    proof_strings_differ();
    assert(reg.first().name == "config"@);
    assert(reg.first().name != "params"@);
    assert(reg.drop_first().first().name == "params"@);
    assert(spec_find_property(reg.drop_first(), "params"@) == Some(reg.drop_first().first()));
    assert(reg.drop_first().first() == reg[1]);
    assert(spec_find_property(reg, "params"@) == Some(reg[1]));
    assert(0u64 & LOCAL_CTRL_FLAG_READONLY == 0) by (bit_vector);
    crate::codec::lemma_params_payload_round_trip(payload);
}

/// The literals `config` and `params` name different properties.
proof fn proof_strings_differ()
    ensures
        "config"@ != "params"@,
{
    reveal_strlit("config");
    reveal_strlit("params");
    assert("config"@[0] == 'c');
    assert("params"@[0] == 'p');
}


// ---------------------------------------------------------------------
// typed command handlers
// ---------------------------------------------------------------------

/// Answers a get-property-count command: always successful, with the
/// number of registered properties.
pub fn handle_cmd_get_property_count(ctrl: &RmakerLocalCtrl) -> (r: LocalCtrlMessage)
    ensures
        r@ == (LocalCtrlMessageView::RespGetPropertyCount {
            status: Status::Success,
            count: ctrl@.len() as u64,
        }),
{
    LocalCtrlMessage::RespGetPropertyCount {
        status: Status::Success,
        count: ctrl.property_count() as u64,
    }
}

/// The property info served for one requested index, if it is in
/// range: the descriptor plus the get-accessor's value.
pub open spec fn spec_get_info(
    reg: Seq<PropertyDescriptorView>,
    n: crate::node::NodeView,
    idx: u64,
) -> Option<PropertyInfoView> {
    if idx < reg.len() {
        Some(
            PropertyInfoView {
                name: reg[idx as int].name,
                ptype: reg[idx as int].ptype,
                flags: reg[idx as int].flags,
                value: spec_get_val(n, reg[idx as int].name),
            },
        )
    } else {
        None
    }
}

/// The property infos served for a list of requested indices, in
/// order; an out-of-range index contributes nothing.
pub open spec fn spec_get_infos(
    reg: Seq<PropertyDescriptorView>,
    n: crate::node::NodeView,
    indices: Seq<u64>,
) -> Seq<PropertyInfoView>
    decreases indices.len(),
{
    if indices.len() == 0 {
        Seq::empty()
    } else {
        spec_get_infos(reg, n, indices.drop_last()) + (match spec_get_info(reg, n, indices.last()) {
            Some(w) => seq![w],
            None => Seq::empty(),
        })
    }
}

/// The status of a get-property-values command: successful exactly when
/// every requested index is in range.
pub open spec fn spec_get_status(reg: Seq<PropertyDescriptorView>, indices: Seq<u64>) -> Status {
    if forall|i: int| 0 <= i < indices.len() ==> indices[i] < reg.len() {
        Status::Success
    } else {
        Status::InvalidArgument
    }
}

/// Answers a get-property-values command: for each index in range, the
/// descriptor and the get-accessor's value; an out-of-range index makes
/// the overall status a failure and contributes no entry.
pub fn handle_cmd_get_property_values<C: DeviceCallback>(
    indices: &Vec<u64>,
    ctrl: &RmakerLocalCtrl,
    node: &Node<C>,
) -> (r: LocalCtrlMessage)
    ensures
        r@ == (LocalCtrlMessageView::RespGetPropertyValues {
            status: spec_get_status(ctrl@, indices@),
            props: spec_get_infos(ctrl@, node@, indices@),
        }),
{
    let mut props: Vec<PropertyInfo> = Vec::new();
    let mut ok: bool = true;
    let count = ctrl.property_count();
    let mut i: usize = 0;
    while i < indices.len()
        invariant
            i <= indices@.len(),
            count == ctrl@.len(),
            info_list_view(props@) =~= spec_get_infos(ctrl@, node@, indices@.take(i as int)),
            ok <==> (forall|j: int| 0 <= j < i ==> indices@[j] < ctrl@.len()),
        decreases indices@.len() - i,
    {
        let idx = indices[i];
        proof {
            assert(indices@.take(i + 1).drop_last() =~= indices@.take(i as int));
            assert(indices@.take(i + 1).last() == indices@[i as int]);
        }
        if idx < count as u64 {
            let (name, ptype, flags) = ctrl.property_at(idx as usize);
            let value = local_ctrl_get_val(name.as_str(), node);
            let ghost before = info_list_view(props@);
            props.push(PropertyInfo { name, ptype, flags, value });
            proof {
                assert(info_list_view(props@) =~= before.push(props@.last()@));
                assert(props@.last()@ == spec_get_info(ctrl@, node@, indices@[i as int]).unwrap());
                assert(info_list_view(props@) =~= spec_get_infos(
                    ctrl@,
                    node@,
                    indices@.take(i + 1),
                ));
            }
        } else {
            ok = false;
            proof {
                assert(info_list_view(props@) =~= spec_get_infos(
                    ctrl@,
                    node@,
                    indices@.take(i + 1),
                ));
            }
        }
        i = i + 1;
    }
    proof {
        assert(indices@.take(indices@.len() as int) =~= indices@);
    }
    let status = if ok {
        Status::Success
    } else {
        Status::InvalidArgument
    };
    LocalCtrlMessage::RespGetPropertyValues { status, props }
}

/// Answers a set-property-values command: each `(name, value-bytes)`
/// entry is resolved against the registry and handed to the
/// set-accessor under the registered flags; a read-only or unknown
/// property fails that entry without touching the others. The response
/// carries one status per entry, and an overall status that is
/// successful exactly when every entry was.
pub fn handle_cmd_set_property_values<C: DeviceCallback>(
    props: &Vec<PropertyWrite>,
    ctrl: &RmakerLocalCtrl,
    node: &mut Node<C>,
) -> (r: (LocalCtrlMessage, Vec<DeviceUpdate>, Vec<Publication>))
    ensures
        final(node)@ == old(node)@,
        r.0@ == (LocalCtrlMessageView::RespSetPropertyValues {
            status: if spec_all_success(spec_set_statuses(ctrl@, write_list_view(props@))) {
                Status::Success
            } else {
                Status::Fail
            },
            statuses: spec_set_statuses(ctrl@, write_list_view(props@)),
        }),
        update_payload_view(r.1@) == spec_set_all_invocations(
            ctrl@,
            old(node)@.devices,
            write_list_view(props@),
        ),
        forall|k: int| 0 <= k < r.2@.len() ==> has_device(
            old(node)@.devices,
            (#[trigger] r.2@[k])@.device,
        ),
        r.1@.len() == 0 ==> r.2@.len() == 0,
{
    let ghost wl = write_list_view(props@);
    let ghost devs = old(node)@.devices;
    let mut statuses: Vec<Status> = Vec::new();
    let mut invocations: Vec<DeviceUpdate> = Vec::new();
    let mut publications: Vec<Publication> = Vec::new();
    let mut all_ok: bool = true;
    let mut i: usize = 0;
    proof {
        assert(statuses@ =~= spec_set_statuses(ctrl@, wl.take(0)));
        assert(update_payload_view(invocations@) =~= spec_set_all_invocations(
            ctrl@,
            devs,
            wl.take(0),
        ));
    }
    while i < props.len()
        invariant
            i <= props@.len(),
            wl == write_list_view(props@),
            wl.len() == props@.len(),
            devs == old(node)@.devices,
            node@ == old(node)@,
            statuses@ =~= spec_set_statuses(ctrl@, wl.take(i as int)),
            update_payload_view(invocations@) =~= spec_set_all_invocations(
                ctrl@,
                devs,
                wl.take(i as int),
            ),
            all_ok <==> spec_all_success(statuses@),
            forall|k: int| 0 <= k < publications@.len() ==> has_device(
                devs,
                (#[trigger] publications@[k])@.device,
            ),
            invocations@.len() == 0 ==> publications@.len() == 0,
        decreases props@.len() - i,
    {
        let w = &props[i];
        proof {
            assert(wl.take(i + 1).drop_last() =~= wl.take(i as int));
            assert(wl.take(i + 1).last() == wl[i as int]);
            assert(spec_set_statuses(ctrl@, wl.take(i + 1)) =~= spec_set_statuses(
                ctrl@,
                wl.take(i as int),
            ).push(spec_set_entry_status(ctrl@, wl[i as int])));
        }
        let st: Status;
        match ctrl.find_property(w.name.as_str()) {
            None => {
                st = Status::InvalidArgument;
                proof {
                    assert(spec_set_entry_invocations(ctrl@, devs, wl[i as int]) =~= Seq::<
                        DeviceUpdateView,
                    >::empty());
                }
            },
            Some((_ptype, flags)) => {
                let (est, mut inv, mut pubs) = local_ctrl_set_val(
                    w.name.as_str(),
                    flags,
                    w.value.as_slice(),
                    node,
                );
                st = est;
                invocations.append(&mut inv);
                publications.append(&mut pubs);
            },
        }
        let ghost prev_statuses = statuses@;
        statuses.push(st);
        if !(st == Status::Success) {
            all_ok = false;
        }
        i = i + 1;
        proof {
            if !spec_all_success(prev_statuses) {
                assert(exists|j: int|
                    0 <= j < prev_statuses.len() && prev_statuses[j] != Status::Success);
                let j = choose|j: int|
                    0 <= j < prev_statuses.len() && prev_statuses[j] != Status::Success;
                assert(statuses@[j] != Status::Success);
            } else if st != Status::Success {
                assert(statuses@[statuses@.len() - 1] != Status::Success);
            } else {
                assert forall|j: int| 0 <= j < statuses@.len() implies statuses@[j]
                    == Status::Success by {
                    if j < prev_statuses.len() {
                        assert(prev_statuses[j] == Status::Success);
                    }
                }
            }
            assert(statuses@ =~= spec_set_statuses(ctrl@, wl.take(i as int)));
            assert(update_payload_view(invocations@) =~= spec_set_all_invocations(
                ctrl@,
                devs,
                wl.take(i as int),
            ));
        }
    }
    proof {
        assert(wl.take(props@.len() as int) =~= wl);
    }
    let status = if all_ok {
        Status::Success
    } else {
        Status::Fail
    };
    (LocalCtrlMessage::RespSetPropertyValues { status, statuses }, invocations, publications)
}

// ---------------------------------------------------------------------
// endpoint handlers
// ---------------------------------------------------------------------

/// The `version` endpoint: returns the fixed capability string,
/// whatever the request holds.
pub fn version_handler(ep: String, data: Vec<u8>) -> (r: Vec<u8>)
    ensures
        r@ == "version url Local control version v1.0".spec_bytes(),
{
    "version url Local control version v1.0".as_bytes_vec()
}

/// The `control` endpoint: decodes one protocol message, dispatches the
/// command against the registry and the Node, and encodes the response.
/// A blob that does not decode, or that holds a response instead of a
/// command, is answered with an empty blob; the Node's observable state
/// is unchanged in every case. Alongside the response come the
/// invocation log and the publications the dispatch produced.
pub fn control_handler<C: DeviceCallback>(
    ep: String,
    data: Vec<u8>,
    ctrl: &RmakerLocalCtrl,
    node: &mut Node<C>,
) -> (r: (Vec<u8>, Vec<DeviceUpdate>, Vec<Publication>))
    ensures
        final(node)@ == old(node)@,
        spec_decode_message(data@) is None ==> r.0@.len() == 0 && r.1@.len() == 0,
        spec_decode_message(data@) matches Some(m) && m is CmdGetPropertyCount ==> r.0@
            == spec_enc_message(
            LocalCtrlMessageView::RespGetPropertyCount {
                status: Status::Success,
                count: ctrl@.len() as u64,
            },
        ) && r.1@.len() == 0,
        spec_decode_message(data@) matches Some(LocalCtrlMessageView::CmdGetPropertyValues {
            indices,
        }) ==> r.0@ == spec_enc_message(
            LocalCtrlMessageView::RespGetPropertyValues {
                status: spec_get_status(ctrl@, indices),
                props: spec_get_infos(ctrl@, old(node)@, indices),
            },
        ) && r.1@.len() == 0,
        spec_decode_message(data@) matches Some(LocalCtrlMessageView::CmdSetPropertyValues {
            props,
        }) ==> r.0@ == spec_enc_message(
            LocalCtrlMessageView::RespSetPropertyValues {
                status: if spec_all_success(spec_set_statuses(ctrl@, props)) {
                    Status::Success
                } else {
                    Status::Fail
                },
                statuses: spec_set_statuses(ctrl@, props),
            },
        ) && update_payload_view(r.1@) == spec_set_all_invocations(
            ctrl@,
            old(node)@.devices,
            props,
        ),
        spec_decode_message(data@) matches Some(m) && (m is RespGetPropertyCount
            || m is RespGetPropertyValues || m is RespSetPropertyValues) ==> r.0@.len() == 0
            && r.1@.len() == 0,
        forall|k: int| 0 <= k < r.2@.len() ==> has_device(
            old(node)@.devices,
            (#[trigger] r.2@[k])@.device,
        ),
        r.1@.len() == 0 ==> r.2@.len() == 0,
{
    match decode_message(data.as_slice()) {
        None => (Vec::new(), Vec::new(), Vec::new()),
        Some(msg) => match msg {
            LocalCtrlMessage::CmdGetPropertyCount => {
                let resp = handle_cmd_get_property_count(ctrl);
                (encode_message(&resp), Vec::new(), Vec::new())
            },
            LocalCtrlMessage::CmdGetPropertyValues { indices } => {
                let resp = handle_cmd_get_property_values(&indices, ctrl, node);
                (encode_message(&resp), Vec::new(), Vec::new())
            },
            LocalCtrlMessage::CmdSetPropertyValues { props } => {
                let (resp, invocations, publications) = handle_cmd_set_property_values(
                    &props,
                    ctrl,
                    node,
                );
                (encode_message(&resp), invocations, publications)
            },
            LocalCtrlMessage::RespGetPropertyCount { .. } => (Vec::new(), Vec::new(), Vec::new()),
            LocalCtrlMessage::RespGetPropertyValues { .. } => (Vec::new(), Vec::new(), Vec::new()),
            LocalCtrlMessage::RespSetPropertyValues { .. } => (Vec::new(), Vec::new(), Vec::new()),
        },
    }
}

// ---------------------------------------------------------------------
// endpoint registration
// ---------------------------------------------------------------------

/// Which handler an endpoint is served by.
#[derive(Clone, Copy, Debug, PartialEq, Eq, Structural)]
pub enum EndpointKind {
    Control,
    Version,
}

/// The request/response transport's endpoint table: a security session
/// endpoint plus named handler endpoints. The transport itself (HTTP or
/// BLE) is an external collaborator; this table is what the core
/// registers on it.
pub struct Protocomm {
    security_endpoint: Option<String>,
    endpoints: Vec<(String, EndpointKind)>,
    started: bool,
}

/// Mathematical image of a `Protocomm`.
pub struct ProtocommView {
    pub security_endpoint: Option<Seq<char>>,
    pub endpoints: Seq<(Seq<char>, EndpointKind)>,
    pub started: bool,
}

impl View for Protocomm {
    type V = ProtocommView;

    closed spec fn view(&self) -> ProtocommView {
        ProtocommView {
            security_endpoint: match self.security_endpoint {
                Option::Some(ref s) => Option::Some(s@),
                Option::None => Option::None,
            },
            endpoints: self.endpoints@.map_values(|e: (String, EndpointKind)| (e.0@, e.1)),
            started: self.started,
        }
    }
}

impl Protocomm {
    /// An empty endpoint table, not yet serving.
    pub fn new() -> (r: Protocomm)
        ensures
            r@.security_endpoint is None,
            r@.endpoints.len() == 0,
            !r@.started,
    {
        let r = Protocomm { security_endpoint: None, endpoints: Vec::new(), started: false };
        proof {
            assert(r@.endpoints =~= Seq::<(Seq<char>, EndpointKind)>::empty());
        }
        r
    }

    /// Records the endpoint that carries the security handshake.
    pub fn set_security_endpoint(&mut self, ep: &str) -> (r: Result<(), RmakerError>)
        ensures
            r is Ok,
            final(self)@ == (ProtocommView { security_endpoint: Some(ep@), ..old(self)@ }),
    {
        self.security_endpoint = Some(ep.to_owned());
        Ok(())
    }

    /// Registers one named handler endpoint.
    pub fn register_endpoint(&mut self, ep: &str, kind: EndpointKind) -> (r: Result<
        (),
        RmakerError,
    >)
        ensures
            r is Ok,
            final(self)@ == (ProtocommView {
                endpoints: old(self)@.endpoints.push((ep@, kind)),
                ..old(self)@
            }),
    {
        self.endpoints.push((ep.to_owned(), kind));
        proof {
            assert(self@.endpoints =~= old(self)@.endpoints.push((
                self.endpoints@.last().0@,
                self.endpoints@.last().1,
            )));
        }
        Ok(())
    }

    /// Marks the table as serving.
    pub fn start(&mut self)
        ensures
            final(self)@ == (ProtocommView { started: true, ..old(self)@ }),
    {
        self.started = true;
    }

    /// The registered handler endpoints.
    pub fn endpoints(&self) -> (r: &Vec<(String, EndpointKind)>)
        ensures
            r@.map_values(|e: (String, EndpointKind)| (e.0@, e.1)) == self@.endpoints,
    {
        &self.endpoints
    }

    /// The registered security endpoint, if any.
    pub fn security_endpoint(&self) -> (r: &Option<String>)
        ensures
            r matches Some(s) ==> self@.security_endpoint == Some(s@),
            r is None ==> self@.security_endpoint is None,
    {
        &self.security_endpoint
    }

    /// Whether the table is serving.
    pub fn is_started(&self) -> (r: bool)
        ensures
            r == self@.started,
    {
        self.started
    }
}

/// The local control channel's startup configuration: the transport's
/// endpoint table.
pub struct LocalCtrlConfig {
    pub protocom: Protocomm,
}

impl LocalCtrlConfig {
    /// Registers the local control listeners on the transport — the
    /// security session endpoint, the `control` endpoint and the
    /// `version` endpoint — and starts serving.
    pub fn local_ctrl_start(&mut self) -> (r: Result<(), RmakerError>)
        ensures
            r is Ok,
            final(self).protocom@.security_endpoint == Some("esp_local_ctrl/session"@),
            final(self).protocom@.endpoints == old(self).protocom@.endpoints + seq![
                ("esp_local_ctrl/control"@, EndpointKind::Control),
                ("esp_local_ctrl/version"@, EndpointKind::Version),
            ],
            final(self).protocom@.started,
    {
        let res = self.protocom.set_security_endpoint("esp_local_ctrl/session");
        if res.is_err() {
            return res;
        }
        let res = self.protocom.register_endpoint("esp_local_ctrl/control", EndpointKind::Control);
        if res.is_err() {
            return res;
        }
        let res = self.protocom.register_endpoint("esp_local_ctrl/version", EndpointKind::Version);
        if res.is_err() {
            return res;
        }
        self.protocom.start();
        proof {
            assert(final(self).protocom@.endpoints =~= old(self).protocom@.endpoints + seq![
                ("esp_local_ctrl/control"@, EndpointKind::Control),
                ("esp_local_ctrl/version"@, EndpointKind::Version),
            ]);
        }
        Ok(())
    }
}

} // verus!
