use std::cell::RefCell;
use std::rc::Rc;

use rainmaker::codec::decode_params_payload;
use rainmaker::codec::encode_params_payload;
use rainmaker::device::Device;
use rainmaker::device::DeviceCallback;
use rainmaker::device::DeviceHandle;
use rainmaker::device::DeviceType;
use rainmaker::device::ParamsMap;
use rainmaker::local_ctrl::control_handler;
use rainmaker::local_ctrl::handle_cmd_get_property_count;
use rainmaker::local_ctrl::handle_cmd_get_property_values;
use rainmaker::local_ctrl::handle_cmd_set_property_values;
use rainmaker::local_ctrl::local_ctrl_get_val;
use rainmaker::local_ctrl::local_ctrl_set_val;
use rainmaker::local_ctrl::version_handler;
use rainmaker::local_ctrl::EndpointKind;
use rainmaker::local_ctrl::LocalCtrlConfig;
use rainmaker::local_ctrl::Protocomm;
use rainmaker::local_ctrl::RmakerLocalCtrl;
use rainmaker::local_ctrl::LOCAL_CTRL_FLAG_READONLY;
use rainmaker::local_ctrl::LOCAL_CTRL_TYPE_NODECONFIG;
use rainmaker::local_ctrl::LOCAL_CTRL_TYPE_PARAM;
use rainmaker::node::DeviceUpdate;
use rainmaker::node::Node;
use rainmaker::param::Param;
use rainmaker::param::ParamValue;
use rainmaker::proto::decode_message;
use rainmaker::proto::encode_message;
use rainmaker::proto::LocalCtrlMessage;
use rainmaker::proto::PropertyWrite;
use rainmaker::proto::Status;

struct Tracker {
    log: Rc<RefCell<Vec<ParamsMap>>>,
}

impl DeviceCallback for Tracker {
    fn apply(&mut self, params: &ParamsMap, handle: &mut DeviceHandle) {
        self.log.borrow_mut().push(params.clone());
        handle.update_and_report(params.clone());
    }
}

fn tracked_node(log: &Rc<RefCell<Vec<ParamsMap>>>) -> Node<Tracker> {
    let mut node: Node<Tracker> = Node::new("N1".to_string());
    let mut led: Device<Tracker> = Device::new("LED", DeviceType::Switch);
    led.add_param(Param::new_power("Power", false));
    led.register_callback(Tracker { log: log.clone() });
    node.add_device(led);
    node
}

fn power_on_payload() -> Vec<DeviceUpdate> {
    vec![DeviceUpdate {
        device: "LED".to_string(),
        params: vec![("Power".to_string(), ParamValue::Bool(true))],
    }]
}

#[test]
fn set_on_readonly_config_fails_and_runs_no_callback() {
    let log = Rc::new(RefCell::new(Vec::new()));
    let mut node = tracked_node(&log);
    let ctrl = RmakerLocalCtrl::new();
    let blob = encode_params_payload(&power_on_payload());
    let writes = vec![PropertyWrite { name: "config".to_string(), value: blob }];
    let (resp, invocations, pubs) = handle_cmd_set_property_values(&writes, &ctrl, &mut node);
    match resp {
        LocalCtrlMessage::RespSetPropertyValues { status, statuses } => {
            assert_eq!(status, Status::Fail);
            assert_eq!(statuses, vec![Status::Fail]);
        }
        other => panic!("unexpected response {:?}", other),
    }
    assert_eq!(invocations.len(), 0);
    assert_eq!(pubs.len(), 0);
    assert_eq!(log.borrow().len(), 0);
}

#[test]
fn set_on_params_matches_remote_update() {
    let remote_log = Rc::new(RefCell::new(Vec::new()));
    let mut remote_node = tracked_node(&remote_log);
    let (remote_inv, _) = remote_node.process_remote_update(&power_on_payload());

    let local_log = Rc::new(RefCell::new(Vec::new()));
    let mut local_node = tracked_node(&local_log);
    let ctrl = RmakerLocalCtrl::new();
    let blob = encode_params_payload(&power_on_payload());
    let writes = vec![PropertyWrite { name: "params".to_string(), value: blob }];
    let (resp, local_inv, _pubs) = handle_cmd_set_property_values(&writes, &ctrl, &mut local_node);
    match resp {
        LocalCtrlMessage::RespSetPropertyValues { status, statuses } => {
            assert_eq!(status, Status::Success);
            assert_eq!(statuses, vec![Status::Success]);
        }
        other => panic!("unexpected response {:?}", other),
    }
    assert_eq!(local_inv, remote_inv);
    assert_eq!(*local_log.borrow(), *remote_log.borrow());
}

#[test]
fn set_accessor_rejects_readonly_flag() {
    let log = Rc::new(RefCell::new(Vec::new()));
    let mut node = tracked_node(&log);
    let blob = encode_params_payload(&power_on_payload());
    let (status, invocations, _) =
        local_ctrl_set_val("params", LOCAL_CTRL_FLAG_READONLY, blob.as_slice(), &mut node);
    assert_eq!(status, Status::Fail);
    assert_eq!(invocations.len(), 0);
    assert_eq!(log.borrow().len(), 0);
}

#[test]
fn set_accessor_rejects_undecodable_blob() {
    let log = Rc::new(RefCell::new(Vec::new()));
    let mut node = tracked_node(&log);
    let (status, invocations, _) = local_ctrl_set_val("params", 0, &[1, 2, 3], &mut node);
    assert_eq!(status, Status::Fail);
    assert_eq!(invocations.len(), 0);
}

#[test]
fn set_accessor_rejects_unknown_property() {
    let log = Rc::new(RefCell::new(Vec::new()));
    let mut node = tracked_node(&log);
    let blob = encode_params_payload(&power_on_payload());
    let (status, invocations, _) = local_ctrl_set_val("wifi", 0, blob.as_slice(), &mut node);
    assert_eq!(status, Status::InvalidArgument);
    assert_eq!(invocations.len(), 0);
}

#[test]
fn get_accessor_serves_params_snapshot() {
    let log = Rc::new(RefCell::new(Vec::new()));
    let node = tracked_node(&log);
    let blob = local_ctrl_get_val("params", &node);
    let snapshot = decode_params_payload(blob.as_slice()).expect("must decode");
    assert_eq!(snapshot.len(), 1);
    assert_eq!(snapshot[0].device, "LED");
    assert_eq!(
        snapshot[0].params,
        vec![("Power".to_string(), ParamValue::Bool(false))]
    );
}

#[test]
fn get_accessor_serves_config_and_rejects_unknown() {
    let log = Rc::new(RefCell::new(Vec::new()));
    let node = tracked_node(&log);
    assert!(!local_ctrl_get_val("config", &node).is_empty());
    assert!(local_ctrl_get_val("wifi", &node).is_empty());
}

#[test]
fn property_count_is_two() {
    let ctrl = RmakerLocalCtrl::new();
    let resp = handle_cmd_get_property_count(&ctrl);
    match resp {
        LocalCtrlMessage::RespGetPropertyCount { status, count } => {
            assert_eq!(status, Status::Success);
            assert_eq!(count, 2);
        }
        other => panic!("unexpected response {:?}", other),
    }
}

#[test]
fn get_property_values_resolves_registered_indices() {
    let log = Rc::new(RefCell::new(Vec::new()));
    let node = tracked_node(&log);
    let ctrl = RmakerLocalCtrl::new();
    let resp = handle_cmd_get_property_values(&vec![0, 1], &ctrl, &node);
    match resp {
        LocalCtrlMessage::RespGetPropertyValues { status, props } => {
            assert_eq!(status, Status::Success);
            assert_eq!(props.len(), 2);
            assert_eq!(props[0].name, "config");
            assert_eq!(props[0].ptype, LOCAL_CTRL_TYPE_NODECONFIG);
            assert_eq!(props[0].flags, LOCAL_CTRL_FLAG_READONLY);
            assert_eq!(props[1].name, "params");
            assert_eq!(props[1].ptype, LOCAL_CTRL_TYPE_PARAM);
            assert_eq!(props[1].flags, 0);
            assert!(decode_params_payload(props[1].value.as_slice()).is_some());
        }
        other => panic!("unexpected response {:?}", other),
    }
}

#[test]
fn get_property_values_flags_out_of_range_index() {
    let log = Rc::new(RefCell::new(Vec::new()));
    let node = tracked_node(&log);
    let ctrl = RmakerLocalCtrl::new();
    let resp = handle_cmd_get_property_values(&vec![0, 7], &ctrl, &node);
    match resp {
        LocalCtrlMessage::RespGetPropertyValues { status, props } => {
            assert_eq!(status, Status::InvalidArgument);
            assert_eq!(props.len(), 1);
        }
        other => panic!("unexpected response {:?}", other),
    }
}

#[test]
fn control_handler_answers_count_command() {
    let log = Rc::new(RefCell::new(Vec::new()));
    let mut node = tracked_node(&log);
    let ctrl = RmakerLocalCtrl::new();
    let request = encode_message(&LocalCtrlMessage::CmdGetPropertyCount);
    let (resp_bytes, invocations, _) =
        control_handler("control".to_string(), request, &ctrl, &mut node);
    assert_eq!(invocations.len(), 0);
    match decode_message(resp_bytes.as_slice()).expect("must decode") {
        LocalCtrlMessage::RespGetPropertyCount { status, count } => {
            assert_eq!(status, Status::Success);
            assert_eq!(count, 2);
        }
        other => panic!("unexpected response {:?}", other),
    }
}

#[test]
fn control_handler_routes_set_command_to_callback() {
    let log = Rc::new(RefCell::new(Vec::new()));
    let mut node = tracked_node(&log);
    let ctrl = RmakerLocalCtrl::new();
    let blob = encode_params_payload(&power_on_payload());
    let request = encode_message(&LocalCtrlMessage::CmdSetPropertyValues {
        props: vec![PropertyWrite { name: "params".to_string(), value: blob }],
    });
    let (resp_bytes, invocations, pubs) =
        control_handler("control".to_string(), request, &ctrl, &mut node);
    assert_eq!(invocations.len(), 1);
    assert_eq!(invocations[0].device, "LED");
    assert_eq!(pubs.len(), 1);
    assert_eq!(log.borrow().len(), 1);
    match decode_message(resp_bytes.as_slice()).expect("must decode") {
        LocalCtrlMessage::RespSetPropertyValues { status, statuses } => {
            assert_eq!(status, Status::Success);
            assert_eq!(statuses, vec![Status::Success]);
        }
        other => panic!("unexpected response {:?}", other),
    }
}

#[test]
fn control_handler_ignores_garbage() {
    let log = Rc::new(RefCell::new(Vec::new()));
    let mut node = tracked_node(&log);
    let ctrl = RmakerLocalCtrl::new();
    let (resp_bytes, invocations, pubs) =
        control_handler("control".to_string(), vec![250, 251], &ctrl, &mut node);
    assert!(resp_bytes.is_empty());
    assert_eq!(invocations.len(), 0);
    assert_eq!(pubs.len(), 0);
}

#[test]
fn version_handler_returns_capability_string() {
    let r = version_handler("version".to_string(), Vec::new());
    assert_eq!(r, b"version url Local control version v1.0".to_vec());
}

#[test]
fn local_ctrl_start_registers_endpoints() {
    let mut config = LocalCtrlConfig { protocom: Protocomm::new() };
    assert!(config.local_ctrl_start().is_ok());
    assert_eq!(
        config.protocom.security_endpoint(),
        &Some("esp_local_ctrl/session".to_string())
    );
    assert_eq!(
        config.protocom.endpoints(),
        &vec![
            ("esp_local_ctrl/control".to_string(), EndpointKind::Control),
            ("esp_local_ctrl/version".to_string(), EndpointKind::Version),
        ]
    );
    assert!(config.protocom.is_started());
}
