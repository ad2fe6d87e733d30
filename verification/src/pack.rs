//! The build and placement engine: it consumes signed build requests from
//! the pack topic, recovers the signer, decides responsibility, walks a
//! sandboxed build through its phases — with cleanup on every exit path —
//! and emits the status and state transitions.
use vstd::prelude::*;
use vstd::string::{StringExecFns, StringSliceAdditionalSpecFns};
use crate::codec::{
    spec_hex_of, spec_hex_valid, spec_hex_decode, sha3_256_of, spec_recovered_address,
    recover_signer_address, hex_encode, hex_decode, base64_of, base64_encode, lemma_hex_roundtrip,
};
use crate::ids::{spec_build_id, spec_instance_id, derive_build_id, build_instance_id};
use crate::netstate::{Instance, InstanceResources, InstanceStatus};
use crate::peers::IpAddress;
use crate::strutil::{str_eq, copy_string};

verus! {

/// The answer of the pack API.
pub enum PackResponse {
    Success,
    Failure,
    Status(PackBuildStatus),
}

/// A recoverable signature: the hex signature bytes and the recovery byte.
pub struct RecoverableSignature {
    pub sig: String,
    pub rec: u8,
}

/// The declarative manifest of a workload.
pub struct Formfile {
    pub name: String,
    pub vcpus: u8,
    pub memory: u64,
    pub storage: Option<u64>,
    pub gpu_devices: Option<Vec<String>>,
    pub model_id: Option<String>,
    pub model_required: bool,
    pub description: Option<String>,
}

impl Formfile {
    /// The vCPU count.
    pub fn get_vcpus(&self) -> (r: u8)
        ensures
            r == self.vcpus,
    {
        self.vcpus
    }

    /// The memory in MB.
    pub fn get_memory(&self) -> (r: u64)
        ensures
            r == self.memory,
    {
        self.memory
    }

    /// The storage in GB, if requested.
    pub fn get_storage(&self) -> (r: Option<u64>)
        ensures
            r == self.storage,
    {
        self.storage
    }

    /// Whether a specific model is required.
    pub fn is_model_required(&self) -> (r: bool)
        ensures
            r == self.model_required,
    {
        self.model_required
    }
}

/// A build request's payload.
pub struct PackRequest {
    pub name: String,
    pub formfile: Formfile,
    pub artifacts: Vec<u8>,
}

/// A signed build request from the pack topic.
pub struct PackBuildRequest {
    pub sig: RecoverableSignature,
    pub hash: Vec<u8>,
    pub request: PackRequest,
}

/// The status of a build, as the pack topic reports it.
pub enum PackBuildStatus {
    Started(String),
    Failed { build_id: String, reason: String },
    Completed(Instance),
}

/// Whether the service is able to do its work.
#[derive(Clone, Debug)]
pub enum HealthStatus {
    Healthy,
    Degraded { reason: String },
    Unhealthy { reason: String },
}

/// The `/health` answer.
#[derive(Clone, Debug)]
pub struct HealthResponse {
    pub status: HealthStatus,
    pub version: Option<String>,
    pub uptime: Option<u64>,
}

/// The `/health` answer of a running service: healthy, with its version.
pub fn health_check(version: Option<String>) -> (r: HealthResponse)
    ensures
        r.status is Healthy,
        r.uptime is None,
        match (r.version, version) {
            (Some(a), Some(b)) => a@ == b@,
            (None, None) => true,
            _ => false,
        },
{
    HealthResponse { status: HealthStatus::Healthy, version, uptime: None }
}

/// The agent record the engine registers for a build.
pub struct AIAgent {
    pub agent_id: String,
    pub name: String,
    pub owner_id: String,
    pub description: String,
    pub requires_specific_model: bool,
    pub required_model_id: Option<String>,
    pub formfile_template: String,
    pub min_vcpus: u8,
    pub recommended_vcpus: u8,
    pub min_memory_mb: u64,
    pub recommended_memory_mb: u64,
    pub min_disk_gb: u64,
    pub recommended_disk_gb: u64,
    pub requires_gpu: bool,
    pub has_filesystem_access: bool,
    pub build_id: Option<String>,
    pub instance_id: Option<String>,
    pub deployment_count: u64,
    pub updated_at: i64,
}

/// The account mutation a build triggers.
pub enum AccountRequest {
    AddOwnedInstance { address: String, instance_id: String },
}

/// Why a request could not be planned.
#[derive(Clone, Copy, Debug, PartialEq, Eq, Structural)]
pub enum PackError {
    /// The signature did not recover to an address.
    InvalidSignature,
    /// The node id is not hex or too short for the instance-id derivation.
    InvalidNodeId,
}

/// The signer's 20-byte address, from the request's digest and signature.
pub fn recover_address(message: &PackBuildRequest) -> (r: Option<Vec<u8>>)
    ensures
        match spec_recovered_address(
            message.hash@,
            spec_hex_decode(message.sig.sig@),
            message.sig.rec,
        ) {
            Some(a) => spec_hex_valid(message.sig.sig@) ==> (r matches Some(b) && b@ == a),
            None => spec_hex_valid(message.sig.sig@) ==> r is None,
        },
        !spec_hex_valid(message.sig.sig@) ==> r is None,
{
    let sig_bytes = match hex_decode(message.sig.sig.as_str()) {
        Some(b) => b,
        None => {
            return None;
        },
    };
    recover_signer_address(message.hash.as_slice(), sig_bytes.as_slice(), message.sig.rec)
}

/// Everything the engine announces when it takes a build: the started
/// status, the building instance, the agent record and the account link.
pub struct StartedPlan {
    pub status: PackBuildStatus,
    pub instance: Instance,
    pub agent: AIAgent,
    pub account_request: AccountRequest,
}

/// Plans the start of a build (`write_pack_status_started`): the signer is
/// recovered, build and instance ids derived, and the Building instance,
/// agent record and account link synthesized.  `formfile_json` and
/// `agent_id` come from the caller (the serialized manifest, and a fresh
/// agent identifier).
pub fn plan_pack_started(
    message: &PackBuildRequest,
    node_id: String,
    now: i64,
    formfile_json: String,
    agent_id: String,
) -> (r: Result<StartedPlan, PackError>)
    ensures
        r is Ok <==> spec_hex_valid(message.sig.sig@) && spec_recovered_address(
            message.hash@,
            spec_hex_decode(message.sig.sig@),
            message.sig.rec,
        ) is Some && spec_hex_valid(node_id@) && spec_hex_decode(node_id@).len() >= 20,
        !(spec_hex_valid(message.sig.sig@) && spec_recovered_address(
            message.hash@,
            spec_hex_decode(message.sig.sig@),
            message.sig.rec,
        ) is Some) ==> r == Err::<StartedPlan, PackError>(PackError::InvalidSignature),
        r matches Ok(plan) ==> {
            let addr = spec_recovered_address(
                message.hash@,
                spec_hex_decode(message.sig.sig@),
                message.sig.rec,
            )->0;
            let build_id = spec_build_id(
                addr,
                vstd::utf8::encode_utf8(message.request.formfile.name@),
            );
            &&& plan.instance.build_id@ == build_id
            &&& plan.instance.instance_id@ == spec_instance_id(node_id@, build_id)
            &&& plan.instance.node_id@ == node_id@
            &&& plan.instance.instance_owner@ == spec_hex_of(addr)
            &&& plan.instance.status is Building
            &&& plan.instance.updated_at == now
            &&& plan.instance.formfile@ == formfile_json@
            &&& plan.instance.resources.vcpus == message.request.formfile.vcpus
            &&& plan.instance.resources.bandwidth_mbps == 1000
            &&& (plan.status matches PackBuildStatus::Started(b) && b@ == build_id)
            &&& plan.agent.agent_id@ == agent_id@
            &&& plan.agent.formfile_template@ == base64_of(
                vstd::utf8::encode_utf8(formfile_json@),
            )
            &&& (plan.agent.build_id matches Some(b) && b@ == build_id)
            &&& plan.agent.deployment_count == 0
            &&& (plan.account_request matches AccountRequest::AddOwnedInstance {
                address,
                instance_id,
            } && address@ == spec_hex_of(addr) && instance_id@ == plan.instance.instance_id@)
        },
{
    let address = match recover_address(message) {
        Some(a) => a,
        None => {
            return Err(PackError::InvalidSignature);
        },
    };
    let ff = &message.request.formfile;
    let build_id = derive_build_id(address.as_slice(), ff.name.as_str());
    proof {
        lemma_hex_roundtrip(
            sha3_256_of(
                address@ + vstd::utf8::encode_utf8(message.request.formfile.name@),
            ),
        );
    }
    let instance_id = match build_instance_id(copy_string(&node_id), copy_string(&build_id)) {
        Ok(id) => id,
        Err(_) => {
            return Err(PackError::InvalidNodeId);
        },
    };
    let owner_hex = hex_encode(address.as_slice());
    let instance = Instance {
        instance_id: copy_string(&instance_id),
        node_id: copy_string(&node_id),
        build_id: copy_string(&build_id),
        instance_owner: copy_string(&owner_hex),
        updated_at: now,
        status: InstanceStatus::Building,
        formfile: copy_string(&formfile_json),
        resources: InstanceResources {
            vcpus: ff.vcpus,
            memory_mb: if ff.memory > 0xffffffff {
                0xffffffffu32
            } else {
                ff.memory as u32
            },
            bandwidth_mbps: 1000,
            gpu: None,
        },
        dns_record: None,
        formnet_ip: None,
    };
    let storage = match ff.storage {
        Some(s) => s,
        None => 5,
    };
    let agent = AIAgent {
        agent_id,
        name: copy_string(&ff.name),
        owner_id: copy_string(&owner_hex),
        description: match &ff.description {
            Some(d) => copy_string(d),
            None => String::new(),
        },
        requires_specific_model: ff.model_required,
        required_model_id: match &ff.model_id {
            Some(m) => Some(copy_string(m)),
            None => None,
        },
        formfile_template: base64_encode(formfile_json.as_str().as_bytes()),
        min_vcpus: ff.vcpus,
        recommended_vcpus: ff.vcpus,
        min_memory_mb: ff.memory,
        recommended_memory_mb: ff.memory,
        min_disk_gb: storage,
        recommended_disk_gb: storage,
        requires_gpu: ff.gpu_devices.is_some(),
        has_filesystem_access: true,
        build_id: Some(copy_string(&build_id)),
        instance_id: None,
        deployment_count: 0,
        updated_at: now,
    };
    let account_request = AccountRequest::AddOwnedInstance {
        address: owner_hex,
        instance_id,
    };
    Ok(
        StartedPlan {
            status: PackBuildStatus::Started(build_id),
            instance,
            agent,
            account_request,
        },
    )
}

/// Plans the failure announcement (`write_pack_status_failed`): the build
/// id derived from the signer and name, with the reason.
pub fn plan_pack_failed(message: &PackBuildRequest, reason: String) -> (r: Result<
    PackBuildStatus,
    PackError,
>)
    ensures
        r is Ok <==> spec_hex_valid(message.sig.sig@) && spec_recovered_address(
            message.hash@,
            spec_hex_decode(message.sig.sig@),
            message.sig.rec,
        ) is Some,
        r matches Err(e) ==> e == PackError::InvalidSignature,
        r matches Ok(status) ==> {
            let addr = spec_recovered_address(
                message.hash@,
                spec_hex_decode(message.sig.sig@),
                message.sig.rec,
            )->0;
            status matches PackBuildStatus::Failed { build_id, reason: why } && build_id@
                == spec_build_id(
                addr,
                vstd::utf8::encode_utf8(message.request.formfile.name@),
            ) && why@ == reason@
        },
{
    let address = match recover_address(message) {
        Some(a) => a,
        None => {
            return Err(PackError::InvalidSignature);
        },
    };
    let build_id = derive_build_id(address.as_slice(), message.request.formfile.name.as_str());
    Ok(PackBuildStatus::Failed { build_id, reason })
}

/// Plans the completion announcement (`write_pack_status_completed`): the
/// fetched instance — or a fresh one when the store missed — flips to
/// Built, and the agent is stamped with the instance id and one more
/// deployment.
pub fn plan_pack_completed(
    message: &PackBuildRequest,
    node_id: String,
    now: i64,
    formfile_json: String,
    fetched_instance: Option<Instance>,
    fetched_agent: Option<AIAgent>,
    fresh_agent_id: String,
) -> (r: Result<StartedPlan, PackError>)
    ensures
        r is Ok <==> spec_hex_valid(message.sig.sig@) && spec_recovered_address(
            message.hash@,
            spec_hex_decode(message.sig.sig@),
            message.sig.rec,
        ) is Some && spec_hex_valid(node_id@) && spec_hex_decode(node_id@).len() >= 20,
        !(spec_hex_valid(message.sig.sig@) && spec_recovered_address(
            message.hash@,
            spec_hex_decode(message.sig.sig@),
            message.sig.rec,
        ) is Some) ==> r == Err::<StartedPlan, PackError>(PackError::InvalidSignature),
        r matches Ok(plan) ==> {
            let addr = spec_recovered_address(
                message.hash@,
                spec_hex_decode(message.sig.sig@),
                message.sig.rec,
            )->0;
            let build_id = spec_build_id(
                addr,
                vstd::utf8::encode_utf8(message.request.formfile.name@),
            );
            &&& plan.instance.status is Built
            &&& plan.instance.build_id@ == build_id
            &&& plan.instance.instance_id@ == spec_instance_id(node_id@, build_id)
            &&& (plan.status matches PackBuildStatus::Completed(inst) && inst.status is Built
                && inst.build_id@ == build_id && inst.instance_id@ == spec_instance_id(
                node_id@,
                build_id,
            ))
            &&& (plan.agent.instance_id matches Some(id) && id@ == spec_instance_id(
                node_id@,
                build_id,
            ))
            &&& (fetched_agent matches Some(a) ==> plan.agent.deployment_count == (
            if a.deployment_count == u64::MAX {
                u64::MAX
            } else {
                (a.deployment_count + 1) as u64
            }))
            &&& plan.agent.updated_at == now
        },
{
    let address = match recover_address(message) {
        Some(a) => a,
        None => {
            return Err(PackError::InvalidSignature);
        },
    };
    let ff = &message.request.formfile;
    let build_id = derive_build_id(address.as_slice(), ff.name.as_str());
    proof {
        lemma_hex_roundtrip(
            sha3_256_of(
                address@ + vstd::utf8::encode_utf8(message.request.formfile.name@),
            ),
        );
    }
    let instance_id = match build_instance_id(copy_string(&node_id), copy_string(&build_id)) {
        Ok(id) => id,
        Err(_) => {
            return Err(PackError::InvalidNodeId);
        },
    };
    let owner_hex = hex_encode(address.as_slice());
    // the completion speaks about this build: the identifiers are pinned to
    // the derived values whether the store answered or not
    let mut instance = match fetched_instance {
        Some(inst) => inst,
        None => Instance {
            instance_id: copy_string(&instance_id),
            node_id: copy_string(&node_id),
            build_id: copy_string(&build_id),
            instance_owner: copy_string(&owner_hex),
            updated_at: now,
            status: InstanceStatus::Building,
            formfile: copy_string(&formfile_json),
            resources: InstanceResources {
                vcpus: ff.vcpus,
                memory_mb: if ff.memory > 0xffffffff {
                    0xffffffffu32
                } else {
                    ff.memory as u32
                },
                bandwidth_mbps: 1000,
                gpu: None,
            },
            dns_record: None,
            formnet_ip: None,
        },
    };
    instance.status = InstanceStatus::Built;
    instance.build_id = copy_string(&build_id);
    instance.instance_id = copy_string(&instance_id);
    let storage = match ff.storage {
        Some(s) => s,
        None => 5,
    };
    let mut agent = match fetched_agent {
        Some(a) => a,
        None => AIAgent {
            agent_id: fresh_agent_id,
            name: copy_string(&ff.name),
            owner_id: copy_string(&owner_hex),
            description: match &ff.description {
                Some(d) => copy_string(d),
                None => String::new(),
            },
            requires_specific_model: ff.model_required,
            required_model_id: match &ff.model_id {
                Some(m) => Some(copy_string(m)),
                None => None,
            },
            formfile_template: base64_encode(formfile_json.as_str().as_bytes()),
            min_vcpus: ff.vcpus,
            recommended_vcpus: ff.vcpus,
            min_memory_mb: ff.memory,
            recommended_memory_mb: ff.memory,
            min_disk_gb: storage,
            recommended_disk_gb: storage,
            requires_gpu: ff.gpu_devices.is_some(),
            has_filesystem_access: true,
            build_id: Some(copy_string(&build_id)),
            instance_id: None,
            deployment_count: 0,
            updated_at: now,
        },
    };
    agent.instance_id = Some(copy_string(&instance_id));
    agent.updated_at = now;
    agent.deployment_count = if agent.deployment_count == u64::MAX {
        u64::MAX
    } else {
        agent.deployment_count + 1
    };
    let status_instance = crate::netstate::clone_instance(&instance);
    let account_request = AccountRequest::AddOwnedInstance {
        address: owner_hex,
        instance_id,
    };
    Ok(
        StartedPlan {
            status: PackBuildStatus::Completed(status_instance),
            instance,
            agent,
            account_request,
        },
    )
}

/// What the engine does with a request once the capability matcher has
/// spoken.
pub enum PackPlan {
    /// Another node's workload: exactly one `Failed` status goes out and
    /// nothing else happens.
    Reject { status: PackBuildStatus },
    /// This node's workload: the build proceeds.
    Proceed,
}

/// Decides responsibility (`handle_pack_request`, placement step): a false
/// or failed matcher verdict rejects the build with exactly one Failed
/// status carrying the derived build id, and creates nothing; a request
/// whose signature does not recover cannot be answered at all.
pub fn plan_pack_request(message: &PackBuildRequest, responsible: Result<bool, String>) -> (r:
    Result<PackPlan, PackError>)
    ensures
        r is Err <==> !(spec_hex_valid(message.sig.sig@) && spec_recovered_address(
            message.hash@,
            spec_hex_decode(message.sig.sig@),
            message.sig.rec,
        ) is Some),
        r matches Err(e) ==> e == PackError::InvalidSignature,
        r matches Ok(plan) ==> (plan is Proceed <==> responsible == Ok::<bool, String>(true)),
        r matches Ok(plan) ==> (plan matches PackPlan::Reject { status } ==> {
            let addr = spec_recovered_address(
                message.hash@,
                spec_hex_decode(message.sig.sig@),
                message.sig.rec,
            )->0;
            status matches PackBuildStatus::Failed { build_id, reason } && build_id@
                == spec_build_id(
                addr,
                vstd::utf8::encode_utf8(message.request.formfile.name@),
            ) && (responsible matches Ok(v) && !v ==> reason@
                == "Node is not responsible for this workload according to the capability matcher"@)
        }),
{
    let address = match recover_address(message) {
        Some(a) => a,
        None => {
            return Err(PackError::InvalidSignature);
        },
    };
    let build_id = derive_build_id(address.as_slice(), message.request.formfile.name.as_str());
    match responsible {
        Ok(true) => Ok(PackPlan::Proceed),
        Ok(false) => Ok(
            PackPlan::Reject {
                status: PackBuildStatus::Failed {
                    build_id,
                    reason:
                        "Node is not responsible for this workload according to the capability matcher".to_owned(),
                },
            },
        ),
        Err(e) => {
            let mut reason = "Failed to determine if node is responsible: ".to_owned();
            reason.append(e.as_str());
            Ok(PackPlan::Reject {
                status: PackBuildStatus::Failed { build_id, reason },
            })
        },
    }
}

/// The message classes of the pack topic.
#[derive(Clone, Copy, Debug, PartialEq, Eq, Structural)]
pub enum PackMessageKind {
    BuildRequest,
    BuildResponse,
}

/// Demultiplexes a pack-topic message by its subtopic byte (0 a build
/// request, 1 a build response).
pub fn route_pack_subtopic(subtopic: u8) -> (r: Option<PackMessageKind>)
    ensures
        r == (match subtopic {
            0u8 => Some(PackMessageKind::BuildRequest),
            1u8 => Some(PackMessageKind::BuildResponse),
            _ => None::<PackMessageKind>,
        }),
{
    match subtopic {
        0 => Some(PackMessageKind::BuildRequest),
        1 => Some(PackMessageKind::BuildResponse),
        _ => None,
    }
}

/// The build id a status speaks about.
pub open spec fn spec_status_build_id(s: PackBuildStatus) -> Seq<char> {
    match s {
        PackBuildStatus::Started(id) => id@,
        PackBuildStatus::Failed { build_id, .. } => build_id@,
        PackBuildStatus::Completed(inst) => inst.build_id@,
    }
}

/// Whether two statuses say the same thing.
pub open spec fn status_eqv(a: PackBuildStatus, b: PackBuildStatus) -> bool {
    match (a, b) {
        (PackBuildStatus::Started(x), PackBuildStatus::Started(y)) => x@ == y@,
        (
            PackBuildStatus::Failed { build_id: xb, reason: xr },
            PackBuildStatus::Failed { build_id: yb, reason: yr },
        ) => xb@ == yb@ && xr@ == yr@,
        (PackBuildStatus::Completed(xi), PackBuildStatus::Completed(yi)) =>
            crate::netstate::instance_view(xi) == crate::netstate::instance_view(yi),
        _ => false,
    }
}

/// The position of the last status that speaks about a build, if any does.
pub open spec fn spec_select_status(s: Seq<PackBuildStatus>, bid: Seq<char>) -> Option<int>
    decreases s.len(),
{
    if s.len() == 0 {
        None
    } else if spec_status_build_id(s.last()) == bid {
        Some((s.len() - 1) as int)
    } else {
        spec_select_status(s.drop_last(), bid)
    }
}

proof fn lemma_select_status_bounds(s: Seq<PackBuildStatus>, bid: Seq<char>)
    ensures
        match spec_select_status(s, bid) {
            Some(i) => 0 <= i < s.len() && spec_status_build_id(s[i]) == bid,
            None => forall|k: int|
                0 <= k < s.len() ==> spec_status_build_id(#[trigger] s[k]) != bid,
        },
    decreases s.len(),
{
    if s.len() > 0 && spec_status_build_id(s.last()) != bid {
        lemma_select_status_bounds(s.drop_last(), bid);
        match spec_select_status(s.drop_last(), bid) {
            Some(i) => {
                assert(s.drop_last()[i] == s[i]);
            },
            None => {
                assert(forall|k: int|
                    0 <= k < s.len() - 1 ==> #[trigger] s[k] == s.drop_last()[k]);
            },
        }
    }
}

/// A copy of a status.
pub fn clone_status(s: &PackBuildStatus) -> (r: PackBuildStatus)
    ensures
        status_eqv(r, *s),
        spec_status_build_id(r) == spec_status_build_id(*s),
{
    match s {
        PackBuildStatus::Started(id) => PackBuildStatus::Started(copy_string(id)),
        PackBuildStatus::Failed { build_id, reason } => PackBuildStatus::Failed {
            build_id: copy_string(build_id),
            reason: copy_string(reason),
        },
        PackBuildStatus::Completed(inst) => PackBuildStatus::Completed(
            crate::netstate::clone_instance(inst),
        ),
    }
}

/// The latest status of a build among the topic's messages: exactly the
/// last element — in whatever variant — whose build id matches, or nothing
/// when no element does.
pub fn select_status(statuses: &Vec<PackBuildStatus>, build_id: &str) -> (r: Option<
    PackBuildStatus,
>)
    ensures
        match spec_select_status(statuses@, build_id@) {
            Some(i) => r matches Some(st) && status_eqv(st, statuses@[i]),
            None => r is None,
        },
        r matches Some(st) ==> spec_status_build_id(st) == build_id@,
        r is None ==> forall|k: int|
            0 <= k < statuses@.len() ==> spec_status_build_id(#[trigger] statuses@[k])
                != build_id@,
{
    let mut last: Option<PackBuildStatus> = None;
    proof {
        assert(statuses@.take(0) =~= Seq::<PackBuildStatus>::empty());
    }
    let mut i: usize = 0;
    while i < statuses.len()
        invariant
            i <= statuses@.len(),
            match spec_select_status(statuses@.take(i as int), build_id@) {
                Some(j) => last matches Some(st) && 0 <= j < i && status_eqv(
                    st,
                    statuses@[j],
                ) && spec_status_build_id(st) == build_id@,
                None => last is None,
            },
        decreases statuses@.len() - i,
    {
        let ghost prefix = statuses@.take(i as int);
        proof {
            assert(statuses@.take(i as int + 1).drop_last() =~= prefix);
            assert(statuses@.take(i as int + 1).last() == statuses@[i as int]);
        }
        let sid = match &statuses[i] {
            PackBuildStatus::Started(id) => id.as_str(),
            PackBuildStatus::Failed { build_id: b, .. } => b.as_str(),
            PackBuildStatus::Completed(inst) => inst.build_id.as_str(),
        };
        if str_eq(sid, build_id) {
            last = Some(clone_status(&statuses[i]));
        }
        i = i + 1;
    }
    proof {
        assert(statuses@.take(statuses@.len() as int) =~= statuses@);
        lemma_select_status_bounds(statuses@, build_id@);
    }
    last
}

/// True when `data` begins with the gzip magic bytes `0x1F 0x8B`.
pub open spec fn spec_is_gzip(data: Seq<u8>) -> bool {
    data.len() >= 2 && data[0] == 0x1f && data[1] == 0x8b
}

/// Recognizes a gzip stream by its two magic bytes.
pub fn is_gzip(data: &[u8]) -> (r: bool)
    ensures
        r == spec_is_gzip(data@),
{
    data.len() >= 2 && data[0] == 0x1f && data[1] == 0x8b
}

/// Why a downloaded image archive is unusable.
#[derive(Clone, Copy, Debug, PartialEq, Eq, Structural)]
pub enum ImageError {
    /// The archive held no entry.
    EmptyArchive,
    /// The archive held more than the one disk image.
    TooManyEntries,
}

/// The one-entry rule of `extract_disk_image`: exactly one archive entry
/// is the disk image.
pub fn validate_archive_entry_count(num_entries: usize) -> (r: Result<(), ImageError>)
    ensures
        r is Ok <==> num_entries == 1,
        num_entries == 0 ==> r == Err::<(), ImageError>(ImageError::EmptyArchive),
        num_entries > 1 ==> r == Err::<(), ImageError>(ImageError::TooManyEntries),
{
    if num_entries == 0 {
        Err(ImageError::EmptyArchive)
    } else if num_entries > 1 {
        Err(ImageError::TooManyEntries)
    } else {
        Ok(())
    }
}

/// Where a built image lands: `/var/lib/formation/vm-images/<name>.raw`.
pub fn vm_image_output_path(vm_name: &str) -> (r: String)
    ensures
        r@ == "/var/lib/formation/vm-images/"@ + vm_name@ + ".raw"@,
{
    let mut out = "/var/lib/formation/vm-images/".to_owned();
    out.append(vm_name);
    out.append(".raw");
    out
}

/// A network interface, as the bridge-address selection sees it.
pub struct NetInterface {
    pub name: String,
    pub ipv4: Option<IpAddress>,
}

/// The host bridge address: the first v4 address of the interface named
/// `br0`; hosts without one cannot run instances.
pub fn select_bridge_ip(interfaces: &Vec<NetInterface>) -> (r: Option<IpAddress>)
    ensures
        r matches Some(ip) ==> exists|i: int|
            0 <= i < interfaces@.len() && (#[trigger] interfaces@[i]).name@ == "br0"@
                && interfaces@[i].ipv4 == Some(ip),
        r is None ==> forall|i: int|
            0 <= i < interfaces@.len() ==> !((#[trigger] interfaces@[i]).name@ == "br0"@
                && interfaces@[i].ipv4 is Some),
{
    let mut i: usize = 0;
    while i < interfaces.len()
        invariant
            i <= interfaces@.len(),
            forall|k: int|
                0 <= k < i ==> !((#[trigger] interfaces@[k]).name@ == "br0"@
                    && interfaces@[k].ipv4 is Some),
        decreases interfaces@.len() - i,
    {
        if str_eq(interfaces[i].name.as_str(), "br0") {
            match &interfaces[i].ipv4 {
                Some(ip) => {
                    return Some(*ip);
                },
                None => {},
            }
        }
        i = i + 1;
    }
    None
}

/// The phases a sandboxed build walks through.  Work phases can only fall
/// into `CleaningUp`; `Done` is reachable from `CleaningUp` alone, so no
/// exit path skips the container cleanup.
pub enum BuildPhase {
    /// Uploading the artifacts into the container.
    Uploading,
    /// Starting the in-container build server.
    StartingServer,
    /// Posting the manifest and building.
    Executing,
    /// Downloading and unpacking the disk image.
    Extracting,
    /// Stopping and removing the container; a failure to carry out.
    CleaningUp { failure: Option<String> },
    /// Finished; the build failure, if any, dominates a cleanup failure.
    Done { failure: Option<String> },
}

/// One step of the build loop: the outcome of the phase's outside work
/// decides the next phase.
pub fn next_build_phase(phase: BuildPhase, step: Result<(), String>) -> (r: BuildPhase)
    ensures
        r is Done ==> phase is CleaningUp || phase is Done,
        phase matches BuildPhase::CleaningUp { failure } ==> (r matches BuildPhase::Done {
            failure: f,
        } && f == (if failure is Some {
            failure
        } else {
            match step {
                Ok(_) => None::<String>,
                Err(e) => Some(e),
            }
        })),
        (phase is Uploading || phase is StartingServer || phase is Executing || phase
            is Extracting) && step is Err ==> (r matches BuildPhase::CleaningUp { failure }
            && failure == Some(step->Err_0)),
        phase is Uploading && step is Ok ==> r is StartingServer,
        phase is StartingServer && step is Ok ==> r is Executing,
        phase is Executing && step is Ok ==> r is Extracting,
        phase is Extracting && step is Ok ==> (r matches BuildPhase::CleaningUp { failure }
            && failure is None),
{
    match phase {
        BuildPhase::Uploading => match step {
            Ok(_) => BuildPhase::StartingServer,
            Err(e) => BuildPhase::CleaningUp { failure: Some(e) },
        },
        BuildPhase::StartingServer => match step {
            Ok(_) => BuildPhase::Executing,
            Err(e) => BuildPhase::CleaningUp { failure: Some(e) },
        },
        BuildPhase::Executing => match step {
            Ok(_) => BuildPhase::Extracting,
            Err(e) => BuildPhase::CleaningUp { failure: Some(e) },
        },
        BuildPhase::Extracting => match step {
            Ok(_) => BuildPhase::CleaningUp { failure: None },
            Err(e) => BuildPhase::CleaningUp { failure: Some(e) },
        },
        BuildPhase::CleaningUp { failure } => match failure {
            Some(e) => BuildPhase::Done { failure: Some(e) },
            None => match step {
                Ok(_) => BuildPhase::Done { failure: None },
                Err(c) => BuildPhase::Done { failure: Some(c) },
            },
        },
        BuildPhase::Done { failure } => BuildPhase::Done { failure },
    }
}

/// Guaranteed cleanup: `Done` is only ever entered from `CleaningUp`, so
/// every exit path of a build — success or failure — has run the cleanup
/// step.
pub proof fn lemma_no_exit_skips_cleanup(phase: BuildPhase, step: Result<(), String>, r:
    BuildPhase)
    requires
        call_ensures(next_build_phase, (phase, step), r),
        r is Done,
        !(phase is Done),
    ensures
        phase is CleaningUp,
{
}

/// The result `build_image` reports: the build's own error dominates a
/// cleanup error, and a cleanup error surfaces even after a good build.
pub fn conclude_build(build_result: Result<(), String>, cleanup_result: Result<(), String>) -> (r:
    Result<(), String>)
    ensures
        build_result is Err ==> r == build_result,
        build_result is Ok && cleanup_result is Err ==> r == cleanup_result,
        build_result is Ok && cleanup_result is Ok ==> r is Ok,
{
    match build_result {
        Err(e) => Err(e),
        Ok(_) => cleanup_result,
    }
}

/// The engine, as far as it lives in memory: where it listens and who it
/// is.
pub struct FormPackManager {
    pub addr: crate::dns::SockAddr,
    pub node_id: String,
}

impl FormPackManager {
    /// A manager for a node.
    pub fn new(addr: crate::dns::SockAddr, node_id: String) -> (r: FormPackManager)
        ensures
            r.addr == addr,
            r.node_id@ == node_id@,
    {
        FormPackManager { addr, node_id }
    }

    /// Frames a `pack`-topic queue write.
    pub fn build_pack_queue_write(subtopic: u8, payload: &[u8]) -> (r:
        crate::queue::QueueWriteRequest)
        ensures
            r.topic@ == spec_hex_of(sha3_256_of("pack".spec_bytes())),
            r.content@ == seq![subtopic] + payload@,
    {
        crate::queue::build_queue_write("pack", subtopic, payload)
    }
}

/// Seconds to wait before the first readiness probe of the build server.
pub const BUILD_SERVER_INITIAL_WAIT_SECS: u64 = 2;

/// How many readiness probes the monitor sends at most.
pub const BUILD_SERVER_MAX_RETRIES: u64 = 5;

/// Seconds between readiness probes.
pub const BUILD_SERVER_RETRY_INTERVAL_SECS: u64 = 1;

/// Everything the container runtime needs to start a build sandbox: the
/// image, a unique name, the mapped KVM device, the build-server port and
/// the host bridge address in the environment.
pub struct ContainerPlan {
    pub name: String,
    pub image: String,
    pub host_port: String,
    pub container_port: String,
    pub device_path: String,
    pub device_permissions: String,
    pub env_host_bridge: String,
}

/// Plans the build container (`start_build_container`): named
/// `form-pack-builder-<uuid>`, running the build-server image with the
/// host's KVM device mapped through and the bridge address in its
/// environment.
pub fn plan_build_container(container_uuid: &str, host_bridge_ip: &str) -> (r: ContainerPlan)
    ensures
        r.name@ == "form-pack-builder-"@ + container_uuid@,
        r.image@ == "form-build-server:latest"@,
        r.host_port@ == "8080"@,
        r.container_port@ == "8080/tcp"@,
        r.device_path@ == "/dev/kvm"@,
        r.device_permissions@ == "rwm"@,
        r.env_host_bridge@ == "HOST_BRIDGE_IP="@ + host_bridge_ip@,
{
    let mut name = "form-pack-builder-".to_owned();
    name.append(container_uuid);
    let mut env_host_bridge = "HOST_BRIDGE_IP=".to_owned();
    env_host_bridge.append(host_bridge_ip);
    ContainerPlan {
        name,
        image: "form-build-server:latest".to_owned(),
        host_port: "8080".to_owned(),
        container_port: "8080/tcp".to_owned(),
        device_path: "/dev/kvm".to_owned(),
        device_permissions: "rwm".to_owned(),
        env_host_bridge,
    }
}

/// The address of the build server inside a running container:
/// `http://<container ip>:8080`.
pub fn build_server_uri(container_ip: &str) -> (r: String)
    ensures
        r@ == "http://"@ + container_ip@ + ":8080"@,
{
    let mut uri = "http://".to_owned();
    uri.append(container_ip);
    uri.append(":8080");
    uri
}

/// The build monitor's in-memory state: the container it drives and the
/// phase it is in.
pub struct FormPackMonitor {
    pub container_id: Option<String>,
    pub container_name: Option<String>,
    pub build_server_id: Option<String>,
    pub build_server_uri: String,
    pub phase: BuildPhase,
}

impl FormPackMonitor {
    /// A monitor bound to a created container.
    pub fn new(container_id: String, container_name: String, build_server_uri: String) -> (r:
        FormPackMonitor)
        ensures
            r.container_id matches Some(c) && c@ == container_id@,
            r.container_name matches Some(c) && c@ == container_name@,
            r.build_server_id is None,
            r.build_server_uri@ == build_server_uri@,
            r.phase is Uploading,
    {
        FormPackMonitor {
            container_id: Some(container_id),
            container_name: Some(container_name),
            build_server_id: None,
            build_server_uri,
            phase: BuildPhase::Uploading,
        }
    }

    /// The container this monitor drives.
    pub fn container_id(&self) -> (r: &Option<String>)
        ensures
            r == &self.container_id,
    {
        &self.container_id
    }

    /// Advances the build by one outside step.
    pub fn advance(&mut self, step: Result<(), String>)
        ensures
            call_ensures(next_build_phase, (old(self).phase, step), final (self).phase),
            final (self).container_id == old(self).container_id,
            final (self).container_name == old(self).container_name,
    {
        let ghost pre = self.phase;
        let mut phase = BuildPhase::Done { failure: None };
        core::mem::swap(&mut phase, &mut self.phase);
        proof {
            assert(phase == pre);
        }
        self.phase = next_build_phase(phase, step);
    }
}

} // verus!
