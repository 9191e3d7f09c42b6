//! Tests for the matchmaking function, the director's allocation decisions
//! and the frontend's reply rule.

use match_session::director::{
    allocation_request, assignment_connection, check_capacity, i32_to_decimal,
    parse_allocation_mode, plan_self_allocation, AllocationMode, GameServerInfo, Port, Status,
};
use match_session::errors::ErrorCode;
use match_session::frontend::create_match_reply;
use match_session::mmf::{group_tickets, new_match_id, MatchMakingFunctionService};

fn tickets(names: &[&str]) -> Vec<String> {
    names.iter().map(|n| n.to_string()).collect()
}

#[test]
fn tickets_are_grouped_in_order() {
    let groups = group_tickets(tickets(&["t1", "t2", "t3", "t4", "t5"]), 2);
    assert_eq!(
        groups,
        vec![tickets(&["t1", "t2"]), tickets(&["t3", "t4"])]
    );
}

#[test]
fn a_short_pool_proposes_nothing() {
    let groups = group_tickets(tickets(&["t1", "t2"]), 3);
    assert!(groups.is_empty());
}

#[test]
fn groups_of_one_keep_every_ticket() {
    let groups = group_tickets(tickets(&["t1", "t2", "t3"]), 1);
    assert_eq!(
        groups,
        vec![tickets(&["t1"]), tickets(&["t2"]), tickets(&["t3"])]
    );
}

#[test]
fn proposals_carry_profile_function_and_fresh_ids() {
    let service = MatchMakingFunctionService::new("basic".to_string(), 2);
    let proposals = service.make_matches(
        &"default".to_string(),
        tickets(&["t1", "t2", "t3", "t4", "t5"]),
    );
    assert_eq!(proposals.len(), 2);
    for p in &proposals {
        assert_eq!(p.match_profile, "default");
        assert_eq!(p.match_function, "basic");
        assert_eq!(p.match_id.len(), 36);
    }
    assert_eq!(proposals[0].tickets, tickets(&["t1", "t2"]));
    assert_eq!(proposals[1].tickets, tickets(&["t3", "t4"]));
    assert_ne!(proposals[0].match_id, proposals[1].match_id);
}

#[test]
fn match_ids_are_hyphenated_uuids() {
    let id = new_match_id();
    assert_eq!(id.len(), 36);
    assert_eq!(id.chars().filter(|c| *c == '-').count(), 4);
}

#[test]
fn the_allocation_request_selects_the_fleet() {
    let request = allocation_request();
    assert_eq!(request.api_version, "allocation.agones.dev/v1");
    assert_eq!(request.kind, "GameServerAllocation");
    assert_eq!(
        request.spec.required.match_labels,
        vec![("agones.dev/fleet".to_string(), "gameserver".to_string())]
    );
}

#[test]
fn decimal_rendering_matches_to_string() {
    for n in [0, 7, 10, 99, 100, 50502, -1, -42, i32::MAX, i32::MIN] {
        assert_eq!(i32_to_decimal(n), n.to_string());
    }
}

#[test]
fn an_allocated_server_yields_the_connection_string() {
    let status = Status {
        state: "Allocated".to_string(),
        ports: Some(vec![Port {
            name: "default".to_string(),
            port: 7777,
        }]),
        address: Some("10.0.0.3".to_string()),
    };
    let connection =
        assignment_connection(&"m1".to_string(), &status).expect("assignment must succeed");
    assert_eq!(connection, "m1,10.0.0.3:7777");
}

#[test]
fn an_unallocated_server_is_refused() {
    let status = Status {
        state: "Pending".to_string(),
        ports: Some(vec![Port {
            name: "default".to_string(),
            port: 7777,
        }]),
        address: Some("10.0.0.3".to_string()),
    };
    let err = assignment_connection(&"m1".to_string(), &status).expect_err("must be refused");
    assert_eq!(err.message, "failed to allocate game server: Pending");
}

#[test]
fn a_missing_address_is_refused() {
    let status = Status {
        state: "Allocated".to_string(),
        ports: Some(vec![Port {
            name: "default".to_string(),
            port: 7777,
        }]),
        address: None,
    };
    let err = assignment_connection(&"m1".to_string(), &status).expect_err("must be refused");
    assert_eq!(err.message, "host is empty");
}

#[test]
fn missing_ports_are_refused() {
    let no_ports = Status {
        state: "Allocated".to_string(),
        ports: None,
        address: Some("10.0.0.3".to_string()),
    };
    let err = assignment_connection(&"m1".to_string(), &no_ports).expect_err("must be refused");
    assert_eq!(err.message, "port is empty");
    let empty_ports = Status {
        state: "Allocated".to_string(),
        ports: Some(Vec::new()),
        address: Some("10.0.0.3".to_string()),
    };
    let err = assignment_connection(&"m1".to_string(), &empty_ports).expect_err("must be refused");
    assert_eq!(err.message, "port is empty");
}

#[test]
fn capacity_is_enforced() {
    assert!(check_capacity(9, 10).is_ok());
    let err = check_capacity(10, 10).expect_err("full server must refuse");
    assert_eq!(err.message, "gamesever is full");
    assert!(check_capacity(11, 10).is_err());
}

#[test]
fn self_allocation_reports_state_and_first_port() {
    let info = GameServerInfo {
        state: "Ready".to_string(),
        address: "10.0.0.9".to_string(),
        ports: vec![
            Port {
                name: "game".to_string(),
                port: 7000,
            },
            Port {
                name: "extra".to_string(),
                port: 7001,
            },
        ],
    };
    let plan = plan_self_allocation(info).expect("planning must succeed");
    assert!(plan.needs_allocation);
    assert_eq!(plan.status.state, "Ready");
    assert_eq!(plan.status.address.as_deref(), Some("10.0.0.9"));
    let ports = plan.status.ports.expect("one port is reported");
    assert_eq!(ports.len(), 1);
    assert_eq!(ports[0].name, "game");
    assert_eq!(ports[0].port, 7000);

    let allocated = GameServerInfo {
        state: "Allocated".to_string(),
        address: "10.0.0.9".to_string(),
        ports: vec![Port {
            name: "game".to_string(),
            port: 7000,
        }],
    };
    let plan = plan_self_allocation(allocated).expect("planning must succeed");
    assert!(!plan.needs_allocation);
}

#[test]
fn a_server_without_ports_cannot_self_allocate() {
    let info = GameServerInfo {
        state: "Ready".to_string(),
        address: "10.0.0.9".to_string(),
        ports: Vec::new(),
    };
    let err = plan_self_allocation(info).expect_err("must be refused");
    assert_eq!(err.message, "port is empty");
}

#[test]
fn allocation_modes_parse_by_name() {
    assert_eq!(
        parse_allocation_mode(&"outside".to_string()),
        Some(AllocationMode::Outside)
    );
    assert_eq!(
        parse_allocation_mode(&"self".to_string()),
        Some(AllocationMode::SelfAllocate)
    );
    assert_eq!(parse_allocation_mode(&"both".to_string()), None);
    assert_eq!(parse_allocation_mode(&"".to_string()), None);
}

#[test]
fn an_assignment_becomes_the_players_game_server() {
    let reply = create_match_reply(Some("m1,10.0.0.3:7777".to_string()))
        .expect("an assignment must be relayed");
    assert_eq!(reply.address, "m1,10.0.0.3:7777");
}

#[test]
fn a_missing_assignment_is_unavailable() {
    let err = create_match_reply(None).expect_err("no assignment must fail");
    assert_eq!(err.code, ErrorCode::Unavailable);
    assert_eq!(err.message, "failed to assign match request");
}
