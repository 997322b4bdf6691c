use marzban_exporter::data::{
    CoreData, Node, NodeUsage, NodeUsageResponse, SystemData, User, UserResponse,
};
use marzban_exporter::error::APIError;
use marzban_exporter::metrics::{create_metrics, run_cycle, setup_metrics_registry, update_metrics};
use marzban_exporter::registry::{Registry, gather_metrics_output};
use marzban_exporter::value::GaugeValue;

fn fresh_registry() -> Registry {
    let mut registry = setup_metrics_registry();
    create_metrics(&mut registry);
    registry
}

fn sample_system() -> SystemData {
    SystemData {
        version: String::from("1.2.3"),
        mem_total: 1000,
        mem_used: 400,
        cpu_cores: 4,
        cpu_usage: GaugeValue::from_decimal_str("12.5").unwrap(),
        total_user: 10,
        users_active: 7,
        incoming_bandwidth: 111,
        outgoing_bandwidth: 222,
        incoming_bandwidth_speed: 33,
        outgoing_bandwidth_speed: 44,
    }
}

fn sample_core() -> CoreData {
    CoreData { version: String::from("9.9"), started: true }
}

fn node(name: &str, coeff: &str) -> Node {
    Node {
        name: String::from(name),
        address: String::from("10.0.0.1"),
        port: 62050,
        api_port: 62051,
        usage_coefficient: GaugeValue::from_decimal_str(coeff).unwrap(),
        xray_version: String::from("1.8.4"),
        status: String::from("connected"),
    }
}

#[test]
fn empty_registry_renders_nothing() {
    let registry = fresh_registry();
    assert_eq!(gather_metrics_output(&registry), "");
}

#[test]
fn duplicate_declaration_is_refused() {
    let mut registry = setup_metrics_registry();
    assert!(registry.declare(String::from("a_metric"), String::from("help"), Vec::new()).is_ok());
    assert!(registry.declare(String::from("a_metric"), String::from("other"), Vec::new()).is_err());
    assert!(registry.declare(String::from("b_metric"), String::from("help"), Vec::new()).is_ok());
}

#[test]
fn single_gauge_renders_exactly() {
    let mut registry = setup_metrics_registry();
    registry
        .declare(
            String::from("node_uplink"),
            String::from("Node uplink bandwidth in bytes"),
            vec![String::from("node_name")],
        )
        .unwrap();
    registry.set("node_uplink", vec![String::from("alpha")], GaugeValue { mantissa: 42, scale: 0 });
    assert_eq!(
        registry.render(),
        "# HELP node_uplink Node uplink bandwidth in bytes\n# TYPE node_uplink gauge\nnode_uplink{node_name=\"alpha\"} 42\n"
    );
}

#[test]
fn system_stats_render_exact_values() {
    let mut registry = fresh_registry();
    update_metrics(
        &mut registry,
        &Vec::new(),
        &NodeUsageResponse { usages: Vec::new() },
        &sample_system(),
        &sample_core(),
        &UserResponse { users: Vec::new() },
    );
    let out = gather_metrics_output(&registry);
    assert!(out.contains("system_mem_total 1000\n"));
    assert!(out.contains("system_mem_used 400\n"));
    assert!(out.contains("system_cpu_cores 4\n"));
    assert!(out.contains("system_cpu_usage 12.5\n"));
    assert!(out.contains("system_total_user 10\n"));
    assert!(out.contains("system_users_active 7\n"));
    assert!(out.contains("system_incoming_bandwidth 111\n"));
    assert!(out.contains("system_outgoing_bandwidth 222\n"));
    assert!(out.contains("system_incoming_bandwidth_speed 33\n"));
    assert!(out.contains("system_outgoing_bandwidth_speed 44\n"));
    assert!(out.contains("system_version_info{version=\"1.2.3\"} 1\n"));
    assert!(out.contains("core_started 1\n"));
    assert!(out.contains("core_version_info{version=\"9.9\"} 1\n"));
}

#[test]
fn node_and_user_labels_render() {
    let mut registry = fresh_registry();
    update_metrics(
        &mut registry,
        &vec![node("alpha", "1.5")],
        &NodeUsageResponse {
            usages: vec![NodeUsage { node_name: String::from("alpha"), uplink: 7, downlink: 9 }],
        },
        &sample_system(),
        &sample_core(),
        &UserResponse {
            users: vec![User {
                username: String::from("u1"),
                status: String::from("active"),
                used_traffic: 123,
            }],
        },
    );
    let out = gather_metrics_output(&registry);
    assert!(out.contains("node_usage_coefficient{node_name=\"alpha\"} 1.5\n"));
    assert!(out.contains(
        "node_version_info{node_name=\"alpha\",xray_version=\"1.8.4\",status=\"connected\",address=\"10.0.0.1\",port=\"62050\",api_port=\"62051\"} 1\n"
    ));
    assert!(out.contains("node_uplink{node_name=\"alpha\"} 7\n"));
    assert!(out.contains("node_downlink{node_name=\"alpha\"} 9\n"));
    assert!(out.contains("user_used_traffic{username=\"u1\",status=\"active\"} 123\n"));
}

#[test]
fn repeated_render_is_byte_identical() {
    let mut registry = fresh_registry();
    update_metrics(
        &mut registry,
        &vec![node("alpha", "2")],
        &NodeUsageResponse { usages: Vec::new() },
        &sample_system(),
        &sample_core(),
        &UserResponse { users: Vec::new() },
    );
    let first = gather_metrics_output(&registry);
    let second = gather_metrics_output(&registry);
    assert_eq!(first, second);
}

#[test]
fn exposition_lines_are_well_formed() {
    let mut registry = fresh_registry();
    update_metrics(
        &mut registry,
        &vec![node("alpha", "1.5")],
        &NodeUsageResponse {
            usages: vec![NodeUsage { node_name: String::from("alpha"), uplink: 7, downlink: 9 }],
        },
        &sample_system(),
        &sample_core(),
        &UserResponse { users: Vec::new() },
    );
    let out = gather_metrics_output(&registry);
    for line in out.lines() {
        if line.starts_with("# HELP ") || line.starts_with("# TYPE ") {
            continue;
        }
        // each sample line is `name value` or `name{label="value",...} value`
        let (series, value) = line.rsplit_once(' ').unwrap();
        assert!(value.chars().all(|c| c.is_ascii_digit() || c == '.'));
        let name = match series.split_once('{') {
            None => series,
            Some((name, rest)) => {
                assert!(rest.ends_with('}'));
                name
            },
        };
        assert!(!name.is_empty());
        assert!(name.chars().all(|c| c.is_ascii_alphanumeric() || c == '_'));
    }
}

#[test]
fn label_values_are_escaped() {
    let mut registry = fresh_registry();
    let mut tricky = node("al\"pha\\", "1");
    tricky.status = String::from("line\nbreak");
    update_metrics(
        &mut registry,
        &vec![tricky],
        &NodeUsageResponse { usages: Vec::new() },
        &sample_system(),
        &sample_core(),
        &UserResponse { users: Vec::new() },
    );
    let out = gather_metrics_output(&registry);
    assert!(out.contains("node_usage_coefficient{node_name=\"al\\\"pha\\\\\"} 1\n"));
    assert!(out.contains("status=\"line\\nbreak\""));
}

#[test]
fn cardinality_only_grows() {
    let mut registry = fresh_registry();
    update_metrics(
        &mut registry,
        &vec![node("alpha", "1.5")],
        &NodeUsageResponse { usages: Vec::new() },
        &sample_system(),
        &sample_core(),
        &UserResponse { users: Vec::new() },
    );
    // the next cycle no longer mentions alpha; a new node beta appears
    update_metrics(
        &mut registry,
        &vec![node("beta", "3")],
        &NodeUsageResponse { usages: Vec::new() },
        &sample_system(),
        &sample_core(),
        &UserResponse { users: Vec::new() },
    );
    let out = gather_metrics_output(&registry);
    // alpha keeps its last-known value; beta is added after it
    assert!(out.contains("node_usage_coefficient{node_name=\"alpha\"} 1.5\n"));
    assert!(out.contains("node_usage_coefficient{node_name=\"beta\"} 3\n"));
    let alpha_at = out.find("node_name=\"alpha\"").unwrap();
    let beta_at = out.find("node_name=\"beta\"").unwrap();
    assert!(alpha_at < beta_at);
}

#[test]
fn update_overwrites_existing_combination() {
    let mut registry = fresh_registry();
    update_metrics(
        &mut registry,
        &vec![node("alpha", "1.5")],
        &NodeUsageResponse { usages: Vec::new() },
        &sample_system(),
        &sample_core(),
        &UserResponse { users: Vec::new() },
    );
    update_metrics(
        &mut registry,
        &vec![node("alpha", "2.25")],
        &NodeUsageResponse { usages: Vec::new() },
        &sample_system(),
        &sample_core(),
        &UserResponse { users: Vec::new() },
    );
    let out = gather_metrics_output(&registry);
    assert!(out.contains("node_usage_coefficient{node_name=\"alpha\"} 2.25\n"));
    assert!(!out.contains("node_usage_coefficient{node_name=\"alpha\"} 1.5\n"));
}

#[test]
fn failed_cycle_changes_nothing() {
    let mut registry = fresh_registry();
    let r = run_cycle(
        &mut registry,
        Ok(vec![node("alpha", "1.5")]),
        Ok(NodeUsageResponse { usages: Vec::new() }),
        Ok(sample_system()),
        Ok(sample_core()),
        Ok(UserResponse { users: Vec::new() }),
    );
    assert!(r.is_ok());
    let before = gather_metrics_output(&registry);
    // the next cycle fails on its third fetch: nothing may change
    let r = run_cycle(
        &mut registry,
        Ok(vec![node("alpha", "9")]),
        Ok(NodeUsageResponse { usages: Vec::new() }),
        Err(APIError::ReqwestError {
            url: String::from("http://upstream/api/system"),
            error: String::from("timed out"),
        }),
        Ok(sample_core()),
        Ok(UserResponse { users: Vec::new() }),
    );
    assert!(r.is_err());
    assert_eq!(gather_metrics_output(&registry), before);
}

#[test]
fn successful_cycle_supersedes_previous_values() {
    let mut registry = fresh_registry();
    run_cycle(
        &mut registry,
        Ok(Vec::new()),
        Ok(NodeUsageResponse { usages: Vec::new() }),
        Ok(sample_system()),
        Ok(sample_core()),
        Ok(UserResponse { users: Vec::new() }),
    )
    .unwrap();
    let mut later = sample_system();
    later.mem_total = 2048;
    later.cpu_usage = GaugeValue::from_decimal_str("99.9").unwrap();
    run_cycle(
        &mut registry,
        Ok(Vec::new()),
        Ok(NodeUsageResponse { usages: Vec::new() }),
        Ok(later),
        Ok(sample_core()),
        Ok(UserResponse { users: Vec::new() }),
    )
    .unwrap();
    let out = gather_metrics_output(&registry);
    assert!(out.contains("system_mem_total 2048\n"));
    assert!(!out.contains("system_mem_total 1000\n"));
    assert!(out.contains("system_cpu_usage 99.9\n"));
}

#[test]
fn cycle_reports_first_error() {
    let mut registry = fresh_registry();
    let r = run_cycle(
        &mut registry,
        Err(APIError::ReqwestError {
            url: String::from("GET request"),
            error: String::from("dns"),
        }),
        Err(APIError::InvalidResponse(String::from("later"))),
        Ok(sample_system()),
        Ok(sample_core()),
        Ok(UserResponse { users: Vec::new() }),
    );
    match r {
        Err(APIError::ReqwestError { url, error }) => {
            assert_eq!(url, "GET request");
            assert_eq!(error, "dns");
        },
        _ => panic!("expected the first fetch's transport error"),
    }
}
