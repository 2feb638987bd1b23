use agctl::commands::runtime::{restart_wait, RestartWait, RESTART_MAX_POLLS};
use agctl::commands::alias::{handle as alias_handle, AliasAction};
use agctl::commands::exec::{default_session_id, extract_region as exec_extract_region, handle as exec_handle, ExecPlan};
use agctl::commands::runtime::{
    apply_region, confirms_deletion, extract_region as runtime_extract_region, find_runtime,
    list_lines, plan_apply, remember_applied_runtime, runtime_details, runtime_id_from_listing,
    spec_from_runtime, start_runtime_id_lookup, ApplyTarget, RuntimeIdLookup, RuntimeSummary,
};
use agctl::config::{AliasStore, FilesystemConfig, Metadata, RuntimeSpec, Spec};
use agctl::table::StringTable;

const KIRO_ARN: &str = "arn:aws:bedrock-agentcore:us-east-1:123456789012:runtime/kiro_coding_agent-ABC123";

fn summary(name: &str, id: &str, arn: &str) -> RuntimeSummary {
    RuntimeSummary {
        name: name.to_string(),
        id: id.to_string(),
        arn: arn.to_string(),
        status: "Ready".to_string(),
        version: "1".to_string(),
    }
}

fn kiro_spec() -> RuntimeSpec {
    let mut env = StringTable::new();
    env.insert("AWS_REGION".to_string(), "us-east-1".to_string());
    env.insert("HOME".to_string(), "/mnt/agent".to_string());
    RuntimeSpec {
        metadata: Metadata { name: "kiro_coding_agent".to_string(), region: None },
        spec: Spec {
            image: "acct.dkr.ecr.us-east-1.amazonaws.com/agentcore-kiro:latest".to_string(),
            role: "arn:aws:iam::acct:role/agentcore-kiro-role".to_string(),
            network: "PUBLIC".to_string(),
            filesystem: Some(FilesystemConfig { session_storage: Some("/mnt/agent".to_string()) }),
            env,
        },
    }
}

#[test]
fn extract_region_copies_agree() {
    assert_eq!(exec_extract_region(KIRO_ARN), Some("us-east-1".to_string()));
    assert_eq!(runtime_extract_region(KIRO_ARN), Some("us-east-1".to_string()));
    assert_eq!(exec_extract_region("arn:aws:svc::acct"), None);
}

#[test]
fn alias_set_list_remove() {
    let mut store = AliasStore::new();
    let out = alias_handle(&mut store, AliasAction::List);
    assert_eq!(out.lines, vec!["No aliases configured.".to_string()]);
    assert!(!out.save);

    let out = alias_handle(&mut store, AliasAction::SetAlias { name: "kiro".to_string(), arn: KIRO_ARN.to_string() });
    assert!(out.save);
    assert_eq!(out.lines, vec![format!("✅ kiro → {KIRO_ARN}")]);
    assert_eq!(store.resolve("kiro"), KIRO_ARN);

    let out = alias_handle(&mut store, AliasAction::List);
    assert_eq!(out.lines, vec![format!("{:<20} {}", "kiro", KIRO_ARN)]);

    let out = alias_handle(&mut store, AliasAction::Remove { name: "kiro".to_string() });
    assert!(out.save);
    assert_eq!(out.lines, vec!["Removed alias 'kiro'".to_string()]);
    assert_eq!(store.resolve("kiro"), "kiro");
}

#[test]
fn session_id_zero_padded() {
    let sid = default_session_id(42);
    assert_eq!(sid, format!("agctl-session-{:0>33}", 42));
    assert_eq!(sid.len(), "agctl-session-".len() + 33);
    assert_eq!(default_session_id(u32::MAX), format!("agctl-session-{:0>33}", u32::MAX));
    assert_eq!(default_session_id(0), format!("agctl-session-{:0>33}", 0));
}

#[test]
fn exec_one_shot_command() {
    let mut store = AliasStore::new();
    store.aliases.insert("kiro".to_string(), KIRO_ARN.to_string());
    let cmd = vec!["/app/run.sh".to_string(), "chat".to_string(), "what is 2+2?".to_string()];
    match exec_handle(&store, "kiro", &cmd, None, false, None, 7) {
        ExecPlan::Command { arn, session_id, region, command, timeout_seconds } => {
            assert_eq!(arn, KIRO_ARN);
            assert_eq!(session_id, format!("agctl-session-{:0>33}", 7));
            assert_eq!(region, Some("us-east-1".to_string()));
            assert_eq!(command, "/app/run.sh chat what is 2+2?");
            assert_eq!(timeout_seconds, 300);
        }
        _ => panic!("expected a command"),
    }
}

#[test]
fn exec_shell_when_no_command_or_it() {
    let store = AliasStore::new();
    let sid = Some("my-session-00000000000000".to_string());
    match exec_handle(&store, "kiro", &vec![], sid.clone(), false, None, 1) {
        ExecPlan::Shell { arn, session_id, shell_id, region } => {
            assert_eq!(arn, "kiro");
            assert_eq!(session_id, "my-session-00000000000000");
            assert_eq!(shell_id, None);
            assert_eq!(region, "us-east-1");
        }
        _ => panic!("expected a shell"),
    }
    match exec_handle(&store, KIRO_ARN, &vec!["whoami".to_string()], sid, true, Some("eu-west-1".to_string()), 1) {
        ExecPlan::Shell { region, arn, .. } => {
            assert_eq!(region, "eu-west-1");
            assert_eq!(arn, KIRO_ARN);
        }
        _ => panic!("expected a shell"),
    }
}

#[test]
fn runtime_id_from_arn_alias() {
    let mut store = AliasStore::new();
    store.aliases.insert("kiro".to_string(), KIRO_ARN.to_string());
    match start_runtime_id_lookup(&store, "kiro") {
        RuntimeIdLookup::Found(id) => assert_eq!(id, "kiro_coding_agent-ABC123"),
        _ => panic!("expected an id"),
    }
    match start_runtime_id_lookup(&store, "other") {
        RuntimeIdLookup::ByName(r) => assert_eq!(r, "other"),
        _ => panic!("expected a lookup by name"),
    }
}

#[test]
fn runtime_id_by_listing() {
    let runtimes = vec![summary("a", "a-1", "arn:1"), summary("kiro", "kiro-9", "arn:2"), summary("kiro", "kiro-10", "arn:3")];
    assert_eq!(runtime_id_from_listing("kiro", "kiro".to_string(), &runtimes), "kiro-9");
    assert_eq!(runtime_id_from_listing("raw-id", "raw-id".to_string(), &runtimes), "raw-id");
    assert_eq!(find_runtime(&runtimes, "kiro"), Some(1));
    assert_eq!(find_runtime(&runtimes, "none"), None);
}

#[test]
fn apply_creates_when_absent() {
    let spec = kiro_spec();
    let plan = plan_apply(&spec, &vec![summary("other", "o-1", "arn:o")]);
    assert!(matches!(plan.target, ApplyTarget::Create));
    assert_eq!(plan.request.server_protocol, Some("HTTP".to_string()));
    assert_eq!(plan.request.name, "kiro_coding_agent");
    assert_eq!(plan.request.session_storage, Some("/mnt/agent".to_string()));
    let mut env = plan.request.env.clone();
    env.sort();
    assert_eq!(env, vec![("AWS_REGION".to_string(), "us-east-1".to_string()), ("HOME".to_string(), "/mnt/agent".to_string())]);
}

#[test]
fn apply_updates_when_present() {
    let spec = kiro_spec();
    let plan = plan_apply(&spec, &vec![summary("kiro_coding_agent", "kiro-1", KIRO_ARN)]);
    match plan.target {
        ApplyTarget::Update { id } => assert_eq!(id, "kiro-1"),
        _ => panic!("expected an update"),
    }
    assert_eq!(plan.request.server_protocol, None);
    assert_eq!(plan.request.image, "acct.dkr.ecr.us-east-1.amazonaws.com/agentcore-kiro:latest");
}

#[test]
fn apply_region_override_or_spec() {
    let spec = kiro_spec();
    assert_eq!(apply_region(&spec, None), "us-east-1");
    assert_eq!(apply_region(&spec, Some("eu-west-1".to_string())), "eu-west-1");
}

#[test]
fn applied_runtime_gets_alias() {
    let mut store = AliasStore::new();
    remember_applied_runtime(&mut store, "kiro_coding_agent", KIRO_ARN);
    assert_eq!(store.resolve("kiro_coding_agent"), KIRO_ARN);
}

#[test]
fn export_then_apply_roundtrip() {
    let mut env = StringTable::new();
    env.insert("HOME".to_string(), "/mnt/agent".to_string());
    let mounts = vec![None, Some("/mnt/agent".to_string()), Some("/other".to_string())];
    let spec = spec_from_runtime("kiro".to_string(), KIRO_ARN, None, "role".to_string(), None, &mounts, env);
    assert_eq!(spec.metadata.region, Some("us-east-1".to_string()));
    assert_eq!(spec.spec.image, "");
    assert_eq!(spec.spec.network, "PUBLIC");
    let plan = plan_apply(&spec, &vec![]);
    assert_eq!(plan.request.session_storage, Some("/mnt/agent".to_string()));
    assert_eq!(plan.request.env, vec![("HOME".to_string(), "/mnt/agent".to_string())]);
    assert_eq!(plan.request.role, "role");
}

#[test]
fn export_without_mounts_or_region() {
    let spec = spec_from_runtime("k".to_string(), "no-arn", Some("img".to_string()), "r".to_string(), Some("Public".to_string()), &vec![], StringTable::new());
    assert!(spec.spec.filesystem.is_none());
    assert_eq!(spec.metadata.region, None);
    assert_eq!(spec.spec.network, "Public");
    assert_eq!(spec.spec.image, "img");
}

#[test]
fn list_formats_rows() {
    let mut store = AliasStore::new();
    store.aliases.insert("kiro".to_string(), "arn:2".to_string());
    let lines = list_lines(&vec![summary("a", "a-1", "arn:1"), summary("kiro_agent", "k-1", "arn:2")], &store);
    assert_eq!(lines.len(), 3);
    assert_eq!(lines[0], format!("{:<30} {:<10} {:<8} {}", "NAME", "STATUS", "VERSION", "ALIAS"));
    assert_eq!(lines[1], format!("{:<30} {:<10} {:<8} {}", "a", "Ready", "1", ""));
    assert_eq!(lines[2], format!("{:<30} {:<10} {:<8} {}", "kiro_agent", "Ready", "1", "kiro"));
    assert_eq!(list_lines(&vec![], &store), vec!["No runtimes found.".to_string()]);
}

#[test]
fn details_lines() {
    let lines = runtime_details("n", "i", "a", "Ready", "3", "img", None);
    assert_eq!(lines.len(), 6);
    assert_eq!(lines[0], "Name:    n");
    assert_eq!(lines[4], "Version: 3");
    let lines = runtime_details("n", "i", "a", "Ready", "3", "img", Some("[fs]"));
    assert_eq!(lines[6], "FS:      [fs]");
}

#[test]
fn deletion_confirmation() {
    assert!(confirms_deletion("y\n"));
    assert!(confirms_deletion("  Y  "));
    assert!(!confirms_deletion("yes\n"));
    assert!(!confirms_deletion("\n"));
    assert!(!confirms_deletion("n"));
}

#[test]
fn session_ids_of_different_processes_differ() {
    assert_ne!(default_session_id(1), default_session_id(10));
    assert_ne!(default_session_id(12), default_session_id(21));
}

#[test]
fn alias_set_then_remove_restores() {
    let mut store = AliasStore::new();
    store.aliases.insert("a".to_string(), "arn:a".to_string());
    alias_handle(&mut store, AliasAction::SetAlias { name: "b".to_string(), arn: "arn:b".to_string() });
    alias_handle(&mut store, AliasAction::Remove { name: "b".to_string() });
    assert_eq!(store.aliases.entries(), vec![("a".to_string(), "arn:a".to_string())]);
}

#[test]
fn alias_set_twice_keeps_last() {
    let mut store = AliasStore::new();
    alias_handle(&mut store, AliasAction::SetAlias { name: "k".to_string(), arn: "arn:1".to_string() });
    alias_handle(&mut store, AliasAction::SetAlias { name: "k".to_string(), arn: "arn:2".to_string() });
    assert_eq!(store.aliases.len(), 1);
    assert_eq!(store.resolve("k"), "arn:2");
}

#[test]
fn restart_waits_until_the_name_is_gone() {
    let still = vec![summary("kiro", "k-1", "arn:k")];
    assert!(matches!(restart_wait("kiro", &still, 1), RestartWait::PollAgain));
    assert!(matches!(restart_wait("kiro", &still, RESTART_MAX_POLLS), RestartWait::GiveUp));
    let gone = vec![summary("other", "o-1", "arn:o")];
    assert!(matches!(restart_wait("kiro", &gone, RESTART_MAX_POLLS), RestartWait::Recreate));
    let mut spec = kiro_spec();
    spec.metadata.name = "kiro".to_string();
    assert!(matches!(plan_apply(&spec, &gone).target, ApplyTarget::Create));
}

#[test]
fn applied_runtime_alias_replaces_old_one() {
    let mut store = AliasStore::new();
    store.aliases.insert("kiro".to_string(), "arn:old".to_string());
    store.aliases.insert("x".to_string(), "arn:x".to_string());
    remember_applied_runtime(&mut store, "kiro", KIRO_ARN);
    assert_eq!(store.resolve("kiro"), KIRO_ARN);
    assert_eq!(store.resolve("x"), "arn:x");
}

#[test]
fn export_network_round_trips() {
    let spec = spec_from_runtime("k".to_string(), KIRO_ARN, Some("img".to_string()), "r".to_string(), Some("VPC".to_string()), &vec![], StringTable::new());
    let plan = plan_apply(&spec, &vec![]);
    assert_eq!(plan.request.network, "VPC");
}
