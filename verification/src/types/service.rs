//! Network-service objects: what is submitted for one, and what is read back
//! of one.
use vstd::prelude::*;
use vstd::string::*;

use crate::string_map::StringMap;

verus! {

/// The identity under which every object is applied, so that applying the
/// same definition again converges instead of conflicting.
pub const FIELD_MANAGER: &'static str = "ipfs-operator";

/// A port that a caller asks a service to expose.
#[derive(Debug, Clone)]
pub struct Port<'a> {
    pub name: String,
    pub port: i32,
    pub protocol: &'a str,
}

pub struct PortView {
    pub name: Seq<char>,
    pub port: i32,
    pub protocol: Seq<char>,
}

impl<'a> View for Port<'a> {
    type V = PortView;

    open spec fn view(&self) -> PortView {
        PortView { name: self.name@, port: self.port, protocol: self.protocol@ }
    }
}

/// A port of a service definition.
#[derive(Debug, PartialEq, Eq)]
pub struct ServicePort {
    pub name: String,
    pub port: i32,
    pub protocol: String,
    pub target_port: i32,
}

pub struct ServicePortView {
    pub name: Seq<char>,
    pub port: i32,
    pub protocol: Seq<char>,
    pub target_port: i32,
}

impl View for ServicePort {
    type V = ServicePortView;

    open spec fn view(&self) -> ServicePortView {
        ServicePortView {
            name: self.name@,
            port: self.port,
            protocol: self.protocol@,
            target_port: self.target_port,
        }
    }
}

/// The full desired state of one service object.
#[derive(Debug)]
pub struct ServiceDefinition {
    pub name: String,
    pub namespace: String,
    pub service_type: String,
    pub ports: Vec<ServicePort>,
    pub labels: StringMap,
    pub selector: StringMap,
}

pub struct ServiceDefinitionView {
    pub name: Seq<char>,
    pub namespace: Seq<char>,
    pub service_type: Seq<char>,
    pub ports: Seq<ServicePortView>,
    pub labels: Map<Seq<char>, Seq<char>>,
    pub selector: Map<Seq<char>, Seq<char>>,
}

impl View for ServiceDefinition {
    type V = ServiceDefinitionView;

    open spec fn view(&self) -> ServiceDefinitionView {
        ServiceDefinitionView {
            name: self.name@,
            namespace: self.namespace@,
            service_type: self.service_type@,
            ports: Seq::new(self.ports@.len(), |i: int| self.ports@[i]@),
            labels: self.labels@,
            selector: self.selector@,
        }
    }
}

/// The port of a definition that exposes `port`: traffic goes to the same port
/// number on the backend.
pub open spec fn service_port_spec(port: PortView) -> ServicePortView {
    ServicePortView {
        name: port.name,
        port: port.port,
        protocol: port.protocol,
        target_port: port.port,
    }
}

/// The definition of the service `name` in `namespace`, of type `service_type`,
/// exposing `ports`, carrying `labels` and selecting its backends by
/// `selector`.
pub open spec fn definition_spec(
    name: Seq<char>,
    namespace: Seq<char>,
    service_type: Seq<char>,
    ports: Seq<PortView>,
    labels: Map<Seq<char>, Seq<char>>,
    selector: Map<Seq<char>, Seq<char>>,
) -> ServiceDefinitionView {
    ServiceDefinitionView {
        name,
        namespace,
        service_type,
        ports: Seq::new(ports.len(), |i: int| service_port_spec(ports[i])),
        labels,
        selector,
    }
}

/// Builds the definition of a service. `labels` holds the object's own labels
/// first and the selector of its backends second.
pub fn definition<'a>(
    name: String,
    namespace: String,
    service_type: &str,
    service_port: Vec<Port<'a>>,
    labels: (StringMap, StringMap),
) -> (definition: ServiceDefinition)
    ensures
        definition@ == definition_spec(
            name@,
            namespace@,
            service_type@,
            Seq::new(service_port@.len(), |i: int| service_port@[i]@),
            labels.0@,
            labels.1@,
        ),
{
    let mut ports: Vec<ServicePort> = Vec::new();
    let mut i: usize = 0;
    while i < service_port.len()
        invariant
            i <= service_port.len(),
            ports.len() == i,
            forall|j: int| 0 <= j < i ==> (#[trigger] ports@[j])@ == service_port_spec(service_port@[j]@),
        decreases service_port.len() - i,
    {
        let port = &service_port[i];
        ports.push(
            ServicePort {
                name: port.name.clone(),
                port: port.port,
                protocol: String::from_str(port.protocol),
                target_port: port.port,
            },
        );
        i = i + 1;
    }
    let definition = ServiceDefinition {
        name,
        namespace,
        service_type: String::from_str(service_type),
        ports,
        labels: labels.0,
        selector: labels.1,
    };
    proof {
        let asked = Seq::new(service_port@.len(), |i: int| service_port@[i]@);
        assert(definition@.ports =~= Seq::new(
            asked.len(),
            |i: int| service_port_spec(asked[i]),
        ));
    }
    definition
}

/// One address under which a load balancer is reachable.
#[derive(Debug, PartialEq, Eq)]
pub struct LoadBalancerIngress {
    pub ip: Option<String>,
}

/// What the platform reports of the load balancer of a service.
#[derive(Debug, PartialEq, Eq)]
pub struct LoadBalancerStatus {
    pub ingress: Option<Vec<LoadBalancerIngress>>,
}

/// The observed status of a service.
#[derive(Debug, PartialEq, Eq)]
pub struct ServiceStatus {
    pub load_balancer: Option<LoadBalancerStatus>,
}

/// A service as observed on the control plane: its name, and the part of its
/// status that tells where it is reachable.
#[derive(Debug, PartialEq, Eq)]
pub struct ObservedService {
    pub name: String,
    pub status: Option<ServiceStatus>,
}

} // verus!
