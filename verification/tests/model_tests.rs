use rainmaker::device::Device;
use rainmaker::device::DeviceCallback;
use rainmaker::device::DeviceHandle;
use rainmaker::device::DeviceType;
use rainmaker::device::ParamsMap;
use rainmaker::error::RmakerError;
use rainmaker::http::HttpServer;
use rainmaker::node::Info;
use rainmaker::node::Node;
use rainmaker::node_topic;
use rainmaker::param::Param;
use rainmaker::param::ParamBounds;
use rainmaker::param::ParamValue;
use rainmaker::param::PROPERTY_READ;
use rainmaker::param::PROPERTY_WRITE;
use rainmaker::user_mapping_payload;
use rainmaker::Rainmaker;

struct Inert;

impl DeviceCallback for Inert {
    fn apply(&mut self, _params: &ParamsMap, _handle: &mut DeviceHandle) {}
}

#[test]
fn param_constructors_carry_metadata() {
    let power = Param::new_power("Power", true);
    assert_eq!(power.name(), "Power");
    assert_eq!(power.value(), &ParamValue::Bool(true));
    assert_eq!(power.ui_type(), "esp.ui.toggle");
    assert_eq!(power.properties(), PROPERTY_READ | PROPERTY_WRITE);
    assert_eq!(power.bounds(), None);

    let brightness = Param::new_brightness("Brightness", 15);
    assert_eq!(brightness.value(), &ParamValue::Integer(15));
    assert_eq!(brightness.bounds(), Some(ParamBounds { min: 0, max: 100, step: 1 }));

    let hue = Param::new_hue("Hue", 270);
    assert_eq!(hue.ui_type(), "esp.ui.hue-slider");
    assert_eq!(hue.bounds(), Some(ParamBounds { min: 0, max: 360, step: 1 }));

    let saturation = Param::new_satuation("Saturation", 100);
    assert_eq!(saturation.ui_type(), "esp.ui.slider");
    assert_eq!(saturation.bounds(), Some(ParamBounds { min: 0, max: 100, step: 1 }));
}

#[test]
fn duplicate_param_names_are_not_added() {
    let mut device: Device<Inert> = Device::new("LED", DeviceType::Lightbulb);
    device.add_param(Param::new_power("Power", false));
    device.add_param(Param::new_power("Power", true));
    assert_eq!(device.params().len(), 1);
    assert_eq!(device.params()[0].value(), &ParamValue::Bool(false));
    device.add_param(Param::new_brightness("Brightness", 50));
    assert_eq!(device.params().len(), 2);
}

#[test]
fn attributes_replace_in_place() {
    let mut device: Device<Inert> = Device::new("LED", DeviceType::Lightbulb);
    device.add_attribute("serial".to_string(), "001".to_string());
    device.add_attribute("vendor".to_string(), "acme".to_string());
    device.add_attribute("serial".to_string(), "002".to_string());
    assert_eq!(
        device.attributes(),
        &vec![
            ("serial".to_string(), "002".to_string()),
            ("vendor".to_string(), "acme".to_string()),
        ]
    );
}

#[test]
fn duplicate_device_names_are_not_added() {
    let mut node: Node<Inert> = Node::new("N1".to_string());
    node.add_device(Device::new("LED", DeviceType::Lightbulb));
    node.add_device(Device::new("LED", DeviceType::Switch));
    node.add_device(Device::new("Fan", DeviceType::Fan));
    assert_eq!(node.device_count(), 2);
    assert!(node.has_device_named("LED"));
    assert!(node.has_device_named("Fan"));
    assert!(!node.has_device_named("Heater"));
}

#[test]
fn node_info_is_replaceable() {
    let mut node: Node<Inert> = Node::new("N1".to_string());
    assert_eq!(node.id(), "N1");
    node.set_info(Info { name: "LED Example Node".to_string(), fw_version: "v1.0".to_string() });
    assert_eq!(node.info().name, "LED Example Node");
    assert_eq!(node.info().fw_version, "v1.0");
}

#[test]
fn topics_are_parameterized_by_node_id() {
    assert_eq!(node_topic("N1", "params/remote"), "node/N1/params/remote");
    assert_eq!(node_topic("", "config"), "node//config");
}

#[test]
fn error_labels_are_stable() {
    assert_eq!(RmakerError::AlreadyInitialized.describe(), "already initialized");
    assert_eq!(RmakerError::InvalidNodeId.describe(), "invalid node id");
    assert_eq!(RmakerError::NodeNotRegistered.describe(), "node not registered");
    assert_eq!(RmakerError::DecodeFailure.describe(), "decode failure");
    assert_eq!(RmakerError::UnknownError.describe(), "unknown error");
}

#[test]
fn agent_requires_a_node_identity() {
    let agent: Result<Rainmaker<Inert>, RmakerError> = Rainmaker::init(String::new());
    assert_eq!(agent.err(), Some(RmakerError::InvalidNodeId));
    let agent: Rainmaker<Inert> = Rainmaker::init("N1".to_string()).expect("must initialize");
    assert_eq!(agent.get_node_id(), "N1");
    assert!(agent.node().is_none());
}

#[test]
fn startup_plan_holds_topics_and_snapshot() {
    let mut agent: Rainmaker<Inert> = Rainmaker::init("N1".to_string()).expect("must initialize");
    let mut node: Node<Inert> = Node::new("N1".to_string());
    let mut led: Device<Inert> = Device::new("LED", DeviceType::Switch);
    led.add_param(Param::new_power("Power", false));
    node.add_device(led);
    agent.register_node(node);
    let plan = agent.start();
    assert_eq!(plan.node_config_topic, "node/N1/config");
    assert_eq!(plan.params_local_init_topic, "node/N1/params/local/init");
    assert_eq!(plan.remote_param_topic, "node/N1/params/remote");
    assert_eq!(plan.otaurl_topic, "node/N1/otaurl");
    assert_eq!(plan.otafetch_topic, "node/N1/otafetch");
    assert_eq!(plan.init_params.len(), 1);
    assert_eq!(plan.init_params[0].device, "LED");
}

#[test]
fn otafetch_request_is_exact_json() {
    assert_eq!(
        rainmaker::otafetch_request("N1"),
        "{\"node_id\": \"N1\"}"
    );
}

#[test]
fn user_mapping_record_always_resets() {
    let payload = user_mapping_payload("N1", "user-7", "shared-secret");
    assert_eq!(payload.node_id, "N1");
    assert_eq!(payload.user_id, "user-7");
    assert_eq!(payload.secret_key, "shared-secret");
    assert!(payload.reset);
}

#[test]
fn http_listeners_replace_by_path() {
    let mut server: HttpServer<u32> = HttpServer::new();
    server.add_listener("/esp_local_ctrl/control", 1);
    server.add_listener("/esp_local_ctrl/version", 2);
    assert_eq!(server.find_listener("/esp_local_ctrl/control"), Some(&1));
    assert_eq!(server.find_listener("/esp_local_ctrl/version"), Some(&2));
    assert_eq!(server.find_listener("/nope"), None);
    server.add_listener("/esp_local_ctrl/control", 3);
    assert_eq!(server.listeners.len(), 2);
    assert_eq!(server.find_listener("/esp_local_ctrl/control"), Some(&3));
}

#[test]
fn node_config_blob_is_served() {
    let mut node: Node<Inert> = Node::new("N1".to_string());
    let mut led: Device<Inert> = Device::new("LED", DeviceType::Switch);
    led.add_param(Param::new_power("Power", false));
    led.set_primary_param("Power");
    led.add_attribute("serial".to_string(), "001".to_string());
    node.add_device(led);
    let blob = rainmaker::config::encode_node_config(&node);
    assert!(!blob.is_empty());
    // id "N1": length prefix then the two bytes
    assert_eq!(&blob[0..8], &[2, 0, 0, 0, 0, 0, 0, 0]);
    assert_eq!(&blob[8..10], b"N1");
}
