//! The event vocabulary of the fabric: messages of the overlay network,
//! the quorum, and the hypervisor service, and the queue demultiplexing of
//! the hypervisor's topic.
use vstd::prelude::*;

verus! {

/// What kind of peer joins the overlay.
pub enum PeerType {
    Operator,
    User,
    Instance,
}

/// A message about the overlay network membership.
pub enum FormnetMessage {
    AddPeer { peer_type: PeerType, peer_id: String, callback: crate::dns::SockAddr },
    DisablePeer,
    EnablePeer,
    SetListenPort,
    OverrideEndpoint,
}

/// The overlay interface name the service manages.
pub const INTERFACE_NAME: &'static str = "formnet";

/// A message between nodes.
pub enum NetworkEvent {
    Heartbeat {
        node_id: String,
        node_address: crate::dns::SockAddr,
        timestamp: i64,
        sig: String,
        recovery_id: u32,
        dst: crate::dns::SockAddr,
    },
    Join {
        node_id: String,
        node_address: crate::dns::SockAddr,
        sig: String,
        recovery_id: u32,
        to_dial: Vec<crate::dns::SockAddr>,
        forwarded: bool,
    },
}

/// A message of the quorum protocol.
pub enum QuorumEvent {
    NewPeer {
        node_id: String,
        node_address: crate::dns::SockAddr,
        new_peer_signature: String,
        new_peer_recovery_id: u8,
        sender_signature: Option<String>,
        sender_recovery_id: Option<u32>,
    },
    Heartbeat {
        node_id: String,
        node_address: crate::dns::SockAddr,
        node_signature: String,
        node_recovery_id: u8,
        timestamp: i64,
    },
    RemovePeer { node_id: String },
    RemoveInstance { instance_id: String },
}

/// A request to the hypervisor service.
pub enum VmmEvent {
    Ping { name: String },
    Create {
        owner: String,
        recovery_id: u32,
        requestor: String,
        distro: String,
        version: String,
        user_data: Option<String>,
        meta_data: Option<String>,
        memory_mb: u64,
        vcpu_count: u8,
        name: String,
        custom_cmdline: Option<String>,
        rng_source: Option<String>,
        console_type: Option<String>,
    },
    Start { owner: String, recovery_id: u32, id: String, requestor: String },
    Stop { owner: String, recovery_id: u32, id: String, requestor: String },
    Delete { owner: String, recovery_id: u32, id: String, requestor: String },
    Get { owner: String, recovery_id: u32, id: String, requestor: String },
    GetList { requestor: String, recovery_id: u32 },
    NetworkSetupComplete { invite: String },
    Migrate,
    Copy,
    Snapshot,
}

/// Any event of the fabric.
pub enum Event {
    FormnetEvent(FormnetMessage),
    NetworkEvent(NetworkEvent),
    QuorumEvent(QuorumEvent),
    VmmEvent(VmmEvent),
}

impl FormnetMessage {
    /// Wraps the message as an event.
    pub fn to_inner(self) -> (r: Event)
        ensures
            r matches Event::FormnetEvent(m) && m == self,
    {
        Event::FormnetEvent(self)
    }
}

impl NetworkEvent {
    /// Wraps the message as an event.
    pub fn to_inner(self) -> (r: Event)
        ensures
            r matches Event::NetworkEvent(m) && m == self,
    {
        Event::NetworkEvent(self)
    }
}

impl QuorumEvent {
    /// Wraps the message as an event.
    pub fn to_inner(self) -> (r: Event)
        ensures
            r matches Event::QuorumEvent(m) && m == self,
    {
        Event::QuorumEvent(self)
    }
}

impl VmmEvent {
    /// Wraps the message as an event.
    pub fn to_inner(self) -> (r: Event)
        ensures
            r matches Event::VmmEvent(m) && m == self,
    {
        Event::VmmEvent(self)
    }
}

/// The request classes of the hypervisor topic, by subtopic byte.
#[derive(Clone, Copy, Debug, PartialEq, Eq, Structural)]
pub enum VmmMessageKind {
    Create,
    Boot,
    Delete,
    Stop,
    Reboot,
    Start,
}

/// Demultiplexes a hypervisor-topic message by its subtopic byte
/// (1 through 6: create, boot, delete, stop, reboot, start).
pub fn route_vmm_subtopic(subtopic: u8) -> (r: Option<VmmMessageKind>)
    ensures
        r == (match subtopic {
            1u8 => Some(VmmMessageKind::Create),
            2u8 => Some(VmmMessageKind::Boot),
            3u8 => Some(VmmMessageKind::Delete),
            4u8 => Some(VmmMessageKind::Stop),
            5u8 => Some(VmmMessageKind::Reboot),
            6u8 => Some(VmmMessageKind::Start),
            _ => None::<VmmMessageKind>,
        }),
{
    match subtopic {
        1 => Some(VmmMessageKind::Create),
        2 => Some(VmmMessageKind::Boot),
        3 => Some(VmmMessageKind::Delete),
        4 => Some(VmmMessageKind::Stop),
        5 => Some(VmmMessageKind::Reboot),
        6 => Some(VmmMessageKind::Start),
        _ => None,
    }
}

/// A lifecycle action on an instance.
pub enum VmAction {
    Start { id: String },
    Stop { id: String },
    Delete { id: String },
}

/// The actions a routed request performs on an instance id: boot and start
/// start it, stop stops it, delete deletes it, and a reboot stops then
/// starts it.
pub fn vm_actions_for(kind: VmmMessageKind, id: &str) -> (r: Vec<VmAction>)
    ensures
        kind == VmmMessageKind::Reboot ==> r@.len() == 2 && (r@[0] matches VmAction::Stop {
            id: a,
        } && a@ == id@) && (r@[1] matches VmAction::Start { id: b } && b@ == id@),
        (kind == VmmMessageKind::Boot || kind == VmmMessageKind::Start) ==> r@.len() == 1 && (
        r@[0] matches VmAction::Start { id: a } && a@ == id@),
        kind == VmmMessageKind::Stop ==> r@.len() == 1 && (r@[0] matches VmAction::Stop { id: a }
            && a@ == id@),
        kind == VmmMessageKind::Delete ==> r@.len() == 1 && (r@[0] matches VmAction::Delete {
            id: a,
        } && a@ == id@),
        kind == VmmMessageKind::Create ==> r@.len() == 0,
{
    let mut out: Vec<VmAction> = Vec::new();
    match kind {
        VmmMessageKind::Create => {},
        VmmMessageKind::Boot => {
            out.push(VmAction::Start { id: id.to_owned() });
        },
        VmmMessageKind::Start => {
            out.push(VmAction::Start { id: id.to_owned() });
        },
        VmmMessageKind::Stop => {
            out.push(VmAction::Stop { id: id.to_owned() });
        },
        VmmMessageKind::Delete => {
            out.push(VmAction::Delete { id: id.to_owned() });
        },
        VmmMessageKind::Reboot => {
            out.push(VmAction::Stop { id: id.to_owned() });
            out.push(VmAction::Start { id: id.to_owned() });
        },
    }
    out
}

} // verus!
