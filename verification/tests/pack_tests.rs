//! The build engine: signature recovery, plans, statuses and the cleanup
//! discipline of the sandboxed build.
use formation::pack::{
    conclude_build, health_check, is_gzip, next_build_phase, plan_pack_failed,
    plan_pack_request, plan_pack_started, recover_address, select_status, select_bridge_ip,
    validate_archive_entry_count, vm_image_output_path, AccountRequest, BuildPhase, Formfile,
    FormPackManager, FormPackMonitor, HealthStatus, ImageError, NetInterface, PackBuildRequest,
    PackBuildStatus, PackPlan, PackRequest, RecoverableSignature,
};
use formation::ids::{build_instance_id, derive_build_id};
use formation::netstate::{next_instance_status, InstanceEvent, InstanceStatus};
use formation::pack::{build_server_uri, plan_build_container, route_pack_subtopic, PackMessageKind};
use formation::peers::IpAddress;
use k256::ecdsa::SigningKey;

fn formfile(name: &str) -> Formfile {
    Formfile {
        name: name.to_string(),
        vcpus: 2,
        memory: 2048,
        storage: Some(10),
        gpu_devices: None,
        model_id: None,
        model_required: false,
        description: Some("a test workload".to_string()),
    }
}

fn signed_request(name: &str) -> (PackBuildRequest, Vec<u8>) {
    let key = SigningKey::from_slice(&[7u8; 32]).unwrap();
    let hash = [0x5au8; 32];
    let (sig, rec) = key.sign_recoverable(&hash).unwrap();
    let address = alloy_primitives::Address::from_public_key(key.verifying_key());
    let message = PackBuildRequest {
        sig: RecoverableSignature { sig: hex::encode(sig.to_vec()), rec: rec.to_byte() },
        hash: hash.to_vec(),
        request: PackRequest {
            name: name.to_string(),
            formfile: formfile(name),
            artifacts: vec![],
        },
    };
    (message, address.as_slice().to_vec())
}

#[test]
fn recovery_yields_the_signer_address() {
    let (message, expected) = signed_request("svc");
    let recovered = recover_address(&message).expect("signature should recover");
    assert_eq!(recovered, expected);
    // a corrupted signature must not recover to the same address
    let mut broken = message;
    broken.hash[0] ^= 0xff;
    match recover_address(&broken) {
        Some(other) => assert_ne!(other, expected),
        None => {}
    }
}

#[test]
fn started_plan_derives_ids_and_building_state() {
    let (message, address) = signed_request("svc");
    let node_id = "22".repeat(32);
    let plan = plan_pack_started(
        &message,
        node_id.clone(),
        1_700_000_000,
        "{\"name\":\"svc\"}".to_string(),
        "agent-1".to_string(),
    )
    .expect("plan");
    let build_id = derive_build_id(&address, "svc");
    assert_eq!(plan.instance.build_id, build_id);
    assert_eq!(
        plan.instance.instance_id,
        build_instance_id(node_id, build_id.clone()).unwrap()
    );
    assert_eq!(plan.instance.status, InstanceStatus::Building);
    assert_eq!(plan.instance.instance_owner, hex::encode(&address));
    match &plan.status {
        PackBuildStatus::Started(id) => assert_eq!(*id, build_id),
        _ => panic!("expected a started status"),
    }
    assert_eq!(plan.agent.min_disk_gb, 10);
    assert_eq!(plan.agent.deployment_count, 0);
    let AccountRequest::AddOwnedInstance { address: owner, instance_id } = plan.account_request;
    assert_eq!(owner, hex::encode(&address));
    assert_eq!(instance_id, plan.instance.instance_id);
}

#[test]
fn failed_plan_names_the_build_and_reason() {
    let (message, address) = signed_request("svc");
    let status = plan_pack_failed(&message, "boom".to_string()).unwrap();
    match status {
        PackBuildStatus::Failed { build_id, reason } => {
            assert_eq!(build_id, derive_build_id(&address, "svc"));
            assert_eq!(reason, "boom");
        }
        _ => panic!("expected a failed status"),
    }
}

#[test]
fn unmatched_workloads_get_exactly_one_failed_status() {
    let (message, address) = signed_request("svc");
    // the matcher says no: one Failed status under the real build id,
    // nothing created
    match plan_pack_request(&message, Ok(false)).unwrap() {
        PackPlan::Reject { status } => match status {
            PackBuildStatus::Failed { build_id, reason } => {
                assert_eq!(build_id, derive_build_id(&address, "svc"));
                assert!(reason.contains("not responsible"));
            }
            _ => panic!("expected a failed status"),
        },
        PackPlan::Proceed => panic!("must not proceed"),
    }
    assert!(matches!(
        plan_pack_request(&message, Ok(true)).unwrap(),
        PackPlan::Proceed
    ));
    assert!(matches!(
        plan_pack_request(&message, Err("matcher offline".to_string())).unwrap(),
        PackPlan::Reject { .. }
    ));
    // a request that does not recover cannot be answered at all
    let mut broken = message;
    broken.sig.sig = "zz".to_string();
    assert!(plan_pack_request(&broken, Ok(false)).is_err());
}

#[test]
fn status_lookup_matches_on_the_build_id() {
    let statuses = vec![
        PackBuildStatus::Started("bid-1".to_string()),
        PackBuildStatus::Failed { build_id: "bid-2".to_string(), reason: "x".to_string() },
        PackBuildStatus::Started("bid-2".to_string()),
    ];
    match select_status(&statuses, "bid-2") {
        Some(PackBuildStatus::Started(id)) => assert_eq!(id, "bid-2"),
        other => panic!("wrong status selected: {:?}", other.is_some()),
    }
    assert!(select_status(&statuses, "bid-9").is_none());
}

#[test]
fn gzip_magic_is_recognized() {
    assert!(is_gzip(&[0x1f, 0x8b, 0x08]));
    assert!(!is_gzip(&[0x1f]));
    assert!(!is_gzip(&[0x50, 0x4b, 0x03, 0x04]));
}

#[test]
fn image_archives_must_hold_exactly_one_entry() {
    assert_eq!(
        validate_archive_entry_count(0),
        Err(ImageError::EmptyArchive)
    );
    assert!(validate_archive_entry_count(1).is_ok());
    assert_eq!(
        validate_archive_entry_count(2),
        Err(ImageError::TooManyEntries)
    );
    assert_eq!(
        vm_image_output_path("svc"),
        "/var/lib/formation/vm-images/svc.raw"
    );
}

#[test]
fn every_build_exit_passes_through_cleanup() {
    // a failure in any working phase goes to cleanup, and only cleanup
    // reaches done
    for fail_at in 0..4usize {
        let mut monitor = FormPackMonitor::new(
            "container-1".to_string(),
            "name-1".to_string(),
            "http://10.0.0.2:8080".to_string(),
        );
        let mut steps = 0usize;
        loop {
            let phase_done = matches!(monitor.phase, BuildPhase::Done { .. });
            if phase_done {
                break;
            }
            let cleaning = matches!(monitor.phase, BuildPhase::CleaningUp { .. });
            let step: Result<(), String> = if !cleaning && steps == fail_at {
                Err("step failed".to_string())
            } else {
                Ok(())
            };
            monitor.advance(step);
            steps += 1;
            assert!(steps < 10, "build did not terminate");
        }
        // the step before done was always the cleanup
        match &monitor.phase {
            BuildPhase::Done { failure } => assert!(failure.is_some()),
            _ => unreachable!(),
        }
    }
    // the all-good walk: uploading, server, build, extract, cleanup, done
    let mut monitor = FormPackMonitor::new(
        "container-1".to_string(),
        "name-1".to_string(),
        "uri".to_string(),
    );
    for _ in 0..5 {
        monitor.advance(Ok(()));
    }
    assert!(matches!(monitor.phase, BuildPhase::Done { failure: None }));
    assert_eq!(monitor.container_id().as_deref(), Some("container-1"));
}

#[test]
fn build_errors_dominate_cleanup_errors() {
    assert_eq!(
        conclude_build(Err("build".to_string()), Err("cleanup".to_string())),
        Err("build".to_string())
    );
    assert_eq!(
        conclude_build(Ok(()), Err("cleanup".to_string())),
        Err("cleanup".to_string())
    );
    assert_eq!(conclude_build(Ok(()), Ok(())), Ok(()));
}

#[test]
fn bridge_address_comes_from_br0() {
    let interfaces = vec![
        NetInterface { name: "eth0".to_string(), ipv4: Some(IpAddress::V4 { a: 1, b: 2, c: 3, d: 4 }) },
        NetInterface { name: "br0".to_string(), ipv4: None },
        NetInterface { name: "br0".to_string(), ipv4: Some(IpAddress::V4 { a: 192, b: 168, c: 1, d: 1 }) },
    ];
    assert_eq!(
        select_bridge_ip(&interfaces),
        Some(IpAddress::V4 { a: 192, b: 168, c: 1, d: 1 })
    );
    assert_eq!(select_bridge_ip(&vec![]), None);
}

#[test]
fn health_answers_healthy_with_version() {
    let r = health_check(Some("1.2.3".to_string()));
    assert!(matches!(r.status, HealthStatus::Healthy));
    assert_eq!(r.version.as_deref(), Some("1.2.3"));
    assert!(r.uptime.is_none());
}

#[test]
fn pack_queue_writes_use_the_pack_topic() {
    let w = FormPackManager::build_pack_queue_write(1, &[9, 9]);
    assert_eq!(
        w.topic,
        "48712b2ab2b3b9b6c3cfe71e518c7972bc818770269cdaece6e74d9565883a06"
    );
    assert_eq!(w.content, vec![1, 9, 9]);
}

#[test]
fn pack_topic_demultiplexing() {
    assert_eq!(route_pack_subtopic(0), Some(PackMessageKind::BuildRequest));
    assert_eq!(route_pack_subtopic(1), Some(PackMessageKind::BuildResponse));
    assert_eq!(route_pack_subtopic(2), None);
}

#[test]
fn instance_lifecycle_follows_the_state_machine() {
    let s = next_instance_status(None, InstanceEvent::Created);
    assert_eq!(s, Some(InstanceStatus::Building));
    assert_eq!(
        next_instance_status(s, InstanceEvent::BuildSucceeded),
        Some(InstanceStatus::Built)
    );
    assert_eq!(
        next_instance_status(Some(InstanceStatus::Building), InstanceEvent::BuildFailed),
        Some(InstanceStatus::Failed)
    );
    assert_eq!(
        next_instance_status(Some(InstanceStatus::Built), InstanceEvent::VmmStarted),
        Some(InstanceStatus::Running)
    );
    assert_eq!(
        next_instance_status(Some(InstanceStatus::Running), InstanceEvent::VmmStopped),
        Some(InstanceStatus::Built)
    );
    // anything else stands still
    assert_eq!(
        next_instance_status(Some(InstanceStatus::Failed), InstanceEvent::VmmStarted),
        Some(InstanceStatus::Failed)
    );
    assert_eq!(next_instance_status(None, InstanceEvent::VmmStopped), None);
}

#[test]
fn container_plan_carries_the_sandbox_parameters() {
    let plan = plan_build_container("abcd-1234", "192.168.1.1");
    assert_eq!(plan.name, "form-pack-builder-abcd-1234");
    assert_eq!(plan.image, "form-build-server:latest");
    assert_eq!(plan.host_port, "8080");
    assert_eq!(plan.container_port, "8080/tcp");
    assert_eq!(plan.device_path, "/dev/kvm");
    assert_eq!(plan.device_permissions, "rwm");
    assert_eq!(plan.env_host_bridge, "HOST_BRIDGE_IP=192.168.1.1");
    assert_eq!(build_server_uri("172.17.0.2"), "http://172.17.0.2:8080");
}
