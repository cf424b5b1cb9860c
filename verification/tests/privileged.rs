use sentia::privileged::executor::{
    unit_file_digest, MAX_OUTPUT,
    check_executable, check_unit_root, parse_unit_properties, process_name, trusted_path_prefixes,
    unit_files,
};
use sentia::privileged::plans::{Caller, CanonicalPlan, PlanStore};
use sentia::privileged::worker::{interpret_apt_response, AptOutcome, AptRequest};
use sentia::privileged::{
    check_action, json_digest, parse_start_ticks, service_arguments, validate_package, validate_unit, BrokerError,
    Operation, ServiceAction, PLAN_LIFETIME_SECONDS,
};

#[test]
fn helper_output_is_bounded_and_arbitrary_executables_are_rejected() {
    assert_eq!(check_executable("/bin/sh").unwrap_err().0, "executable_not_allowed");
    assert!(check_executable("/usr/bin/systemctl").is_ok());
    assert_eq!(
        sentia::privileged::executor::check_output_size(1_048_577).unwrap_err().0,
        "subprocess_output_limit"
    );
}

#[test]
fn trusted_paths_are_walked_from_the_root() {
    let p = trusted_path_prefixes("/usr//bin/./systemctl").unwrap();
    assert_eq!(p, vec!["/", "/usr", "/usr/bin", "/usr/bin/systemctl"]);
    assert_eq!(trusted_path_prefixes("usr/bin").unwrap_err().0, "untrusted_path");
    assert_eq!(trusted_path_prefixes("/usr/../etc").unwrap_err().0, "untrusted_path");
    assert!(check_unit_root("/etc/systemd/system/foo.service").is_ok());
    assert!(check_unit_root("/etc/systemd/systemx/foo.service").is_err());
    assert!(check_unit_root("/run/systemd/transient/x.service").is_ok());
}

#[test]
fn unit_properties_pin_fragment_and_dropins() {
    let props = parse_unit_properties(
        "Id=a.service\nLoadState=loaded\nNeedDaemonReload=no\nFragmentPath=/etc/systemd/system/a.service\nDropInPaths=/etc/systemd/system/a.service.d/x.conf /run/systemd/y.conf\n",
    )
    .unwrap();
    assert_eq!(
        unit_files(&props).unwrap(),
        vec![
            "/etc/systemd/system/a.service",
            "/etc/systemd/system/a.service.d/x.conf",
            "/run/systemd/y.conf"
        ]
    );
    let stale = parse_unit_properties("LoadState=loaded\nNeedDaemonReload=yes\n").unwrap();
    assert_eq!(unit_files(&stale).unwrap_err().0, "unit_unavailable_or_stale");
    let transient = parse_unit_properties("LoadState=loaded\nNeedDaemonReload=no\nFragmentPath=\n").unwrap();
    assert_eq!(unit_files(&transient).unwrap_err().0, "transient_units_not_allowed");
    assert_eq!(parse_unit_properties("garbage").unwrap_err().0, "invalid_helper_output");
}

#[test]
fn process_stat_fields() {
    let stat = "42 (my (odd) proc) S 1 42 42 0 -1 4194560 100 0 0 0 0 0 0 0 20 0 1 0 987654 0 0";
    assert_eq!(process_name(stat).unwrap(), "my (odd) proc");
    assert_eq!(parse_start_ticks(stat).unwrap(), 987654);
    assert_eq!(parse_start_ticks("garbage").unwrap_err().0, "invalid_process_state");
}

#[test]
fn operations_are_validated() {
    assert!(validate_unit("nginx.service").is_ok());
    assert!(validate_unit("../etc").is_err());
    assert!(validate_package("vim").is_ok());
    assert!(validate_package("-rf").is_err());
    let args = service_arguments(&ServiceAction::Restart, "nginx.service").unwrap();
    assert_eq!(args, vec!["--no-ask-password", "--no-pager", "restart", "--", "nginx.service"]);
    assert!(Operation::ProcessKill { pid: 1 }.validate().is_err());
    assert!(check_action("org.sentia.system.package-install").is_ok());
    assert_eq!(check_action("org.example.other").unwrap_err().0, "invalid_action");
}

fn caller(name: &str) -> Caller {
    Caller {
        unique_name: name.to_owned(),
        uid: 1000,
        pid: 42,
        process_start: 7,
        session: "c1".to_owned(),
    }
}

fn state() -> serde_json::Value {
    serde_json::from_str("{\"installed\":[\"vim\"]}").unwrap()
}

fn digest_of_operation(_: &Operation) -> Result<String, BrokerError> {
    Ok("a".repeat(64))
}

fn digest_of_plan(plan: &CanonicalPlan) -> Result<String, BrokerError> {
    // A digest that depends on the plan, so that the test sees which plan went in.
    Ok(format!("{:0>64}", plan.issued_at))
}

#[test]
fn prepared_plans_carry_their_digests_and_state_and_are_used_once() {
    let mut store = PlanStore::new();
    let p = store
        .prepare(caller(":1.5"), Operation::AptUpdate, state(), 100, digest_of_operation, digest_of_plan)
        .unwrap();
    assert_eq!(p.plan.id.len(), 64);
    assert!(p.plan.id.chars().all(|c| c.is_ascii_digit() || ('a'..='f').contains(&c)));
    assert_eq!(p.plan.argument_digest, "a".repeat(64));
    assert_eq!(p.digest, format!("{:0>64}", 100));
    assert_eq!(p.plan.state, state());
    assert_eq!(p.plan.expires_at, 100 + PLAN_LIFETIME_SECONDS);
    assert_eq!(store.len(), 1);

    match store.consume(&p.plan.id, &"b".repeat(64), &caller(":1.5"), 101) {
        Err(e) => assert_eq!(e.0, "plan_digest_changed"),
        Ok(_) => panic!("a wrong digest must be refused"),
    }
    match store.consume(&p.plan.id, &p.digest, &caller(":1.5"), 101) {
        Err(e) => assert_eq!(e.0, "unknown_or_used_plan"),
        Ok(_) => panic!("a plan is used at most once"),
    }
}

#[test]
fn plan_preparation_refusals() {
    let mut store = PlanStore::new();
    for _ in 0..8 {
        store
            .prepare(caller(":1.6"), Operation::AptUpdate, state(), 10, digest_of_operation, digest_of_plan)
            .unwrap();
    }
    match store.prepare(caller(":1.6"), Operation::AptUpdate, state(), 10, digest_of_operation, digest_of_plan) {
        Err(e) => assert_eq!(e.0, "too_many_pending_plans"),
        Ok(_) => panic!("a caller holds at most eight plans"),
    }
    match store.prepare(caller(":1.7"), Operation::AptUpdate, state(), u64::MAX, digest_of_operation, digest_of_plan) {
        Err(e) => assert_eq!(e.0, "invalid_time"),
        Ok(_) => panic!("an expiry past u64::MAX must be refused"),
    }
}

fn apt_request_for(request_id: &str, operation: &str, execute: bool) -> AptRequest {
    AptRequest {
        request_id: request_id.to_owned(),
        operation: operation.to_owned(),
        execute,
        packages: None,
        approval: None,
    }
}

#[test]
fn worker_plans_hand_back_the_canonical_plan_and_digest() {
    let digest = "c".repeat(64);
    let answer = format!(
        "{{\"protocol_version\":\"1.0\",\"request_id\":\"sentia-root-plan\",\"operation\":\"update\",\
         \"status\":\"ok\",\"result\":{{\"canonical_plan\":{{\"steps\":[1,2]}},\"plan_digest\":\"{}\"}}}}",
        digest
    );
    let request = apt_request_for("sentia-root-plan", "update", false);
    match interpret_apt_response(answer.as_bytes(), true, &request, false) {
        Ok(AptOutcome::Planned { canonical_plan, plan_digest }) => {
            assert_eq!(canonical_plan, serde_json::from_str::<serde_json::Value>("{\"steps\":[1,2]}").unwrap());
            assert_eq!(plan_digest, digest);
        }
        _ => panic!("a plan is expected"),
    }
    match interpret_apt_response(answer.as_bytes(), true, &request, true) {
        Ok(AptOutcome::Executed(v)) => {
            assert_eq!(v, serde_json::from_str::<serde_json::Value>(&answer).unwrap())
        }
        _ => panic!("the whole answer is expected"),
    }
}

#[test]
fn unit_files_and_json_are_digested_with_sha256() {
    assert_eq!(
        unit_file_digest(b"").unwrap(),
        "e3b0c44298fc1c149afbf4c8996fb92427ae41e4649b934ca495991b7852b855"
    );
    assert_eq!(
        json_digest(b"abc"),
        "ba7816bf8f01cfea414140de5dae2223b00361a396177a9cb410ff61f20015ad"
    );
    let big = vec![b'x'; MAX_OUTPUT + 1];
    assert_eq!(unit_file_digest(&big), Err(BrokerError("unit_file_too_large")));
    assert_eq!(unit_file_digest(&big[..MAX_OUTPUT]).unwrap().len(), 64);
}
