use std::cell::RefCell;
use std::rc::Rc;

use rainmaker::device::Device;
use rainmaker::device::DeviceCallback;
use rainmaker::device::DeviceHandle;
use rainmaker::device::DeviceType;
use rainmaker::device::ParamsMap;
use rainmaker::node::DeviceUpdate;
use rainmaker::node::Node;
use rainmaker::param::Param;
use rainmaker::param::ParamValue;

/// Records every invocation and reports the received changes back.
struct Recorder {
    log: Rc<RefCell<Vec<ParamsMap>>>,
}

impl DeviceCallback for Recorder {
    fn apply(&mut self, params: &ParamsMap, handle: &mut DeviceHandle) {
        self.log.borrow_mut().push(params.clone());
        handle.update_and_report(params.clone());
    }
}

fn led_node(log: &Rc<RefCell<Vec<ParamsMap>>>) -> Node<Recorder> {
    let mut node: Node<Recorder> = Node::new("N1".to_string());
    let mut led: Device<Recorder> = Device::new("LED", DeviceType::Switch);
    led.add_param(Param::new_power("Power", false));
    led.set_primary_param("Power");
    led.register_callback(Recorder { log: log.clone() });
    node.add_device(led);
    node
}

#[test]
fn remote_update_invokes_named_device_exactly_once() {
    let log = Rc::new(RefCell::new(Vec::new()));
    let mut node = led_node(&log);
    let payload = vec![DeviceUpdate {
        device: "LED".to_string(),
        params: vec![("Power".to_string(), ParamValue::Bool(true))],
    }];
    let (invocations, _pubs) = node.process_remote_update(&payload);
    assert_eq!(invocations.len(), 1);
    assert_eq!(invocations[0].device, "LED");
    assert_eq!(
        invocations[0].params,
        vec![("Power".to_string(), ParamValue::Bool(true))]
    );
    let calls = log.borrow();
    assert_eq!(calls.len(), 1);
    assert_eq!(calls[0], vec![("Power".to_string(), ParamValue::Bool(true))]);
}

#[test]
fn unknown_device_is_skipped_without_error() {
    let log = Rc::new(RefCell::new(Vec::new()));
    let mut node = led_node(&log);
    let payload = vec![
        DeviceUpdate {
            device: "Heater".to_string(),
            params: vec![("Power".to_string(), ParamValue::Bool(true))],
        },
        DeviceUpdate {
            device: "LED".to_string(),
            params: vec![("Power".to_string(), ParamValue::Bool(true))],
        },
    ];
    let (invocations, _pubs) = node.process_remote_update(&payload);
    assert_eq!(invocations.len(), 1);
    assert_eq!(invocations[0].device, "LED");
    let calls = log.borrow();
    assert_eq!(calls.len(), 1);
}

#[test]
fn empty_payload_invokes_nothing() {
    let log = Rc::new(RefCell::new(Vec::new()));
    let mut node = led_node(&log);
    let payload: Vec<DeviceUpdate> = Vec::new();
    let (invocations, pubs) = node.process_remote_update(&payload);
    assert_eq!(invocations.len(), 0);
    assert_eq!(pubs.len(), 0);
    assert_eq!(log.borrow().len(), 0);
}

#[test]
fn device_without_callback_produces_no_publication() {
    let mut node: Node<Recorder> = Node::new("N1".to_string());
    let mut silent: Device<Recorder> = Device::new("LED", DeviceType::Switch);
    silent.add_param(Param::new_power("Power", false));
    node.add_device(silent);
    let payload = vec![DeviceUpdate {
        device: "LED".to_string(),
        params: vec![("Power".to_string(), ParamValue::Bool(true))],
    }];
    let (invocations, pubs) = node.process_remote_update(&payload);
    assert_eq!(invocations.len(), 1);
    assert_eq!(pubs.len(), 0);
}

#[test]
fn end_to_end_remote_update_reaches_outbound_channel() {
    let log = Rc::new(RefCell::new(Vec::new()));
    let mut node = led_node(&log);
    let payload = vec![DeviceUpdate {
        device: "LED".to_string(),
        params: vec![("Power".to_string(), ParamValue::Bool(true))],
    }];
    let (_invocations, pubs) = node.process_remote_update(&payload);
    let calls = log.borrow();
    assert_eq!(calls.len(), 1);
    assert_eq!(calls[0], vec![("Power".to_string(), ParamValue::Bool(true))]);
    assert_eq!(pubs.len(), 1);
    assert_eq!(pubs[0].device, "LED");
    assert_eq!(pubs[0].params, vec![("Power".to_string(), ParamValue::Bool(true))]);
}

#[test]
fn reports_are_tagged_verbatim() {
    let reports: Vec<ParamsMap> = vec![
        vec![("Power".to_string(), ParamValue::Bool(true))],
        vec![("Brightness".to_string(), ParamValue::Integer(7))],
    ];
    let pubs = rainmaker::device::reports_to_publications("LED", &reports);
    assert_eq!(pubs.len(), 2);
    assert_eq!(pubs[0].device, "LED");
    assert_eq!(pubs[0].params, reports[0]);
    assert_eq!(pubs[1].device, "LED");
    assert_eq!(pubs[1].params, reports[1]);
}

#[test]
fn snapshot_reflects_initial_values() {
    let log = Rc::new(RefCell::new(Vec::new()));
    let node = led_node(&log);
    let snapshot = node.get_param_values();
    assert_eq!(snapshot.len(), 1);
    assert_eq!(snapshot[0].device, "LED");
    assert_eq!(
        snapshot[0].params,
        vec![("Power".to_string(), ParamValue::Bool(false))]
    );
}
