//! Agent core for a cloud-connected IoT node: a Device/Param data model,
//! a synchronization router that turns parameter-change requests into
//! device callback invocations and outbound state publications, a local
//! control property protocol with a verified wire codec, and an OTA
//! update state machine with boot-time rollback reconciliation.

pub mod codec;
pub mod config;
pub mod device;
pub mod error;
pub mod http;
pub mod local_ctrl;
pub mod node;
pub mod ota;
pub mod param;
pub mod proto;
pub mod text;

use vstd::prelude::*;

verus! {

/// Builds the full publish/subscribe topic for one node: `node/<id>/<suffix>`.
pub fn node_topic(node_id: &str, suffix: &str) -> (r: String)
    ensures
        r@ == "node/"@ + node_id@ + "/"@ + suffix@,
{
    let mut t = String::from_str("node/");
    t.append(node_id);
    t.append("/");
    t.append(suffix);
    t
}


/// Topic suffix for the node configuration snapshot.
pub const NODE_CONFIG_TOPIC_SUFFIX: &'static str = "config";

/// Topic suffix for the initial parameter snapshot.
pub const NODE_PARAMS_LOCAL_INIT_TOPIC_SUFFIX: &'static str = "params/local/init";

/// Topic suffix for state-changed events.
pub const NODE_PARAMS_LOCAL_TOPIC_SUFFIX: &'static str = "params/local";

/// Topic suffix for inbound remote parameter commands.
pub const NODE_PARAMS_REMOTE_TOPIC_SUFFIX: &'static str = "params/remote";

/// Topic suffix for inbound OTA notifications.
pub const OTAURL_TOPC_SUFFIX: &'static str = "otaurl";

/// Topic suffix for requesting a pending OTA job.
pub const OTAFETCH_TOPC_SUFFIX: &'static str = "otafetch";

/// Topic suffix for outbound OTA status reports.
pub const OTASTATUS_TOPIC_SUFFIX: &'static str = "otastatus";

/// Topic suffix for the user mapping record.
pub const USER_MAPPING_TOPIC_SUFFIX: &'static str = "user/mapping";

/// Everything the agent publishes or subscribes to when it starts: the
/// one-shot node configuration and initial parameter snapshots with
/// their topics, and the topics of the inbound subscriptions. The
/// surrounding shell serializes and performs the transport calls.
pub struct StartupPlan {
    pub node_config_topic: String,
    pub params_local_init_topic: String,
    pub remote_param_topic: String,
    pub otaurl_topic: String,
    pub otafetch_topic: String,
    pub init_params: crate::node::UpdatePayload,
}

/// The user mapping record published after provisioning associates this
/// node with a user account.
pub struct UserMappingPayload {
    pub node_id: String,
    pub user_id: String,
    pub secret_key: String,
    pub reset: bool,
}

/// Builds the body of the request that asks the cloud for a pending OTA
/// job for this node.
pub fn otafetch_request(node_id: &str) -> (r: String)
    ensures
        r@ == "{\"node_id\": \""@ + node_id@ + "\"}"@,
{
    let mut t = String::from_str("{\"node_id\": \"");
    t.append(node_id);
    t.append("\"}");
    t
}

/// Builds the user mapping record for this node: the association is
/// always published with the reset marker set.
pub fn user_mapping_payload(node_id: &str, user_id: &str, secret_key: &str) -> (r:
    UserMappingPayload)
    ensures
        r.node_id@ == node_id@,
        r.user_id@ == user_id@,
        r.secret_key@ == secret_key@,
        r.reset,
{
    UserMappingPayload {
        node_id: node_id.to_owned(),
        user_id: user_id.to_owned(),
        secret_key: secret_key.to_owned(),
        reset: true,
    }
}

/// The agent: one Node identity and, once registered, the Node it
/// serves. Owned explicitly by the caller and passed where needed; no
/// ambient singleton.
pub struct Rainmaker<C> {
    node_id: String,
    node: Option<crate::node::Node<C>>,
}

/// Mathematical image of the agent.
pub struct RainmakerView {
    pub node_id: Seq<char>,
    pub node: Option<crate::node::NodeView>,
}

impl<C> View for Rainmaker<C> {
    type V = RainmakerView;

    closed spec fn view(&self) -> RainmakerView {
        RainmakerView {
            node_id: self.node_id@,
            node: match self.node {
                Option::Some(ref n) => Option::Some(n@),
                Option::None => Option::None,
            },
        }
    }
}

impl<C: crate::device::DeviceCallback> Rainmaker<C> {
    /// Initializes the agent with the provisioning identity. A missing
    /// identity is a configuration error, fatal at startup: the agent
    /// must not proceed without a valid node id.
    pub fn init(node_id: String) -> (r: Result<Rainmaker<C>, crate::error::RmakerError>)
        ensures
            node_id@.len() == 0 ==> r == Err::<Rainmaker<C>, _>(
                crate::error::RmakerError::InvalidNodeId,
            ),
            node_id@.len() > 0 ==> (r matches Ok(a) && a@.node_id == node_id@
                && a@.node is None),
    {
        if node_id.as_str().unicode_len() == 0 {
            Err(crate::error::RmakerError::InvalidNodeId)
        } else {
            Ok(Rainmaker { node_id, node: None })
        }
    }

    /// The agent's node id.
    pub fn get_node_id(&self) -> (r: &str)
        ensures
            r@ == self@.node_id,
    {
        self.node_id.as_str()
    }

    /// Registers the Node the agent serves, before `start`.
    pub fn register_node(&mut self, node: crate::node::Node<C>)
        ensures
            final(self)@.node_id == old(self)@.node_id,
            final(self)@.node == Some(node@),
    {
        self.node = Some(node);
    }

    /// The registered Node.
    pub fn node(&self) -> (r: &Option<crate::node::Node<C>>)
        ensures
            r matches Some(n) ==> self@.node == Some(n@),
            r is None ==> self@.node is None,
    {
        &self.node
    }

    /// Routes a remote parameter command to the registered Node, as
    /// `Node::process_remote_update` does.
    pub fn process_remote_update(&mut self, payload: &crate::node::UpdatePayload) -> (r: (
        Vec<crate::node::DeviceUpdate>,
        Vec<crate::device::Publication>,
    ))
        requires
            old(self)@.node is Some,
        ensures
            final(self)@.node_id == old(self)@.node_id,
            final(self)@.node == old(self)@.node,
            crate::node::update_payload_view(r.0@) == crate::node::spec_route(
                old(self)@.node.unwrap().devices,
                crate::node::update_payload_view(payload@),
            ),
    {
        match &mut self.node {
            Some(node) => node.process_remote_update(payload),
            None => (Vec::new(), Vec::new()),
        }
    }

    /// Prepares the startup publications and subscriptions: the
    /// one-shot node configuration snapshot, the one-shot initial
    /// parameter snapshot, and the topics to subscribe to for remote
    /// parameter commands and OTA notifications. The Node must have
    /// been registered.
    pub fn start(&self) -> (r: StartupPlan)
        requires
            self@.node is Some,
        ensures
            r.node_config_topic@ == "node/"@ + self@.node_id + "/"@ + "config"@,
            r.params_local_init_topic@ == "node/"@ + self@.node_id + "/"@ + "params/local/init"@,
            r.remote_param_topic@ == "node/"@ + self@.node_id + "/"@ + "params/remote"@,
            r.otaurl_topic@ == "node/"@ + self@.node_id + "/"@ + "otaurl"@,
            r.otafetch_topic@ == "node/"@ + self@.node_id + "/"@ + "otafetch"@,
            crate::node::update_payload_view(r.init_params@) == crate::node::spec_param_snapshot(
                self@.node.unwrap().devices,
            ),
    {
        let init_params = match &self.node {
            Some(node) => node.get_param_values(),
            None => Vec::new(),
        };
        StartupPlan {
            node_config_topic: node_topic(self.node_id.as_str(), NODE_CONFIG_TOPIC_SUFFIX),
            params_local_init_topic: node_topic(
                self.node_id.as_str(),
                NODE_PARAMS_LOCAL_INIT_TOPIC_SUFFIX,
            ),
            remote_param_topic: node_topic(self.node_id.as_str(), NODE_PARAMS_REMOTE_TOPIC_SUFFIX),
            otaurl_topic: node_topic(self.node_id.as_str(), OTAURL_TOPC_SUFFIX),
            otafetch_topic: node_topic(self.node_id.as_str(), OTAFETCH_TOPC_SUFFIX),
            init_params,
        }
    }
}

} // verus!
