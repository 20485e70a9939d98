//! The connector: one identity, registered with every router it is given.
use vstd::prelude::*;
use crate::ids::{new_id, is_uuid_v4};
use crate::registration::RouterRegistration;

verus! {

/// The settings of a connector that are plain values.
pub struct ConnectorConfig {
    /// The route that the connector serves at the routers.
    pub route: String,
    /// The base URI of the service that requests are relayed to.
    pub target_uri: String,
    /// The name under which the connector registers.
    pub component_name: String,
    /// How many idle sockets each registration keeps open.
    pub sliding_window: usize,
}

/// A connector instance with its own random identifier.
pub struct CrankerConnector {
    pub connector_instance_id: String,
    pub config: ConnectorConfig,
}

impl CrankerConnector {
    /// A connector with a fresh random identifier.
    pub fn new(config: ConnectorConfig) -> (c: Self)
        ensures
            c.config == config,
            is_uuid_v4(c.connector_instance_id@),
    {
        CrankerConnector { connector_instance_id: new_id(), config }
    }

    /// The registration made for the router at `registration_uri`.
    pub open spec fn registers_at(&self, r: RouterRegistration, registration_uri: Seq<char>) -> bool {
        &&& r.wf()
        &&& r.idle() == Set::<Seq<char>>::empty()
        &&& r.registration_uri@ == registration_uri
        &&& r.connector_instance_id@ == self.connector_instance_id@
        &&& r.target_uri@ == self.config.target_uri@
        &&& r.component_name@ == self.config.component_name@
        &&& r.route@ == self.config.route@
        &&& r.sliding_window == self.config.sliding_window
    }

    /// A registration made for this connector carries its route as its route,
    /// its component name as its component name, its target and window, and
    /// the connector's identifier.
    pub proof fn lemma_registration_settings(&self, r: RouterRegistration, registration_uri: Seq<char>)
        requires
            self.registers_at(r, registration_uri),
        ensures
            r.route@ == self.config.route@,
            r.component_name@ == self.config.component_name@,
            r.target_uri@ == self.config.target_uri@,
            r.sliding_window == self.config.sliding_window,
            r.connector_instance_id@ == self.connector_instance_id@,
            r.registration_uri@ == registration_uri,
    {
    }

    /// One registration per router URI, in the order given; the caller starts them.
    pub fn router_registrations(&self, registration_uris: &Vec<String>) -> (rs: Vec<RouterRegistration>)
        ensures
            rs@.len() == registration_uris@.len(),
            forall|i: int| 0 <= i < rs@.len() ==> self.registers_at(#[trigger] rs@[i], registration_uris@[i]@),
            forall|i: int| 0 <= i < rs@.len() ==> {
                &&& (#[trigger] rs@[i]).route@ == self.config.route@
                &&& rs@[i].component_name@ == self.config.component_name@
                &&& rs@[i].target_uri@ == self.config.target_uri@
                &&& rs@[i].connector_instance_id@ == self.connector_instance_id@
                &&& rs@[i].registration_uri@ == registration_uris@[i]@
                &&& rs@[i].sliding_window == self.config.sliding_window
                &&& rs@[i].wf()
                &&& rs@[i].idle() == Set::<Seq<char>>::empty()
            },
    {
        let mut rs: Vec<RouterRegistration> = Vec::new();
        let n: usize = registration_uris.len();
        for i in 0..n
            invariant
                n == registration_uris@.len(),
                rs@.len() == i,
                forall|j: int| 0 <= j < i ==> self.registers_at(#[trigger] rs@[j], registration_uris@[j]@),
        {
            let r = RouterRegistration::new(
                self.connector_instance_id.clone(),
                registration_uris[i].clone(),
                self.config.target_uri.clone(),
                self.config.component_name.clone(),
                self.config.route.clone(),
                self.config.sliding_window,
            );
            rs.push(r);
        }
        rs
    }
}

} // verus!
