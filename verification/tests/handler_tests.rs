use stclient::Agent;
use stclient::Contract;
use stclient::ContractDetail;
use stclient::DeliverGood;
use stclient::Ship;
use stclient::ShipNav;
use stclient::Waypoint;
use stclient::check_server;
use stclient::handle_accept_contract;
use stclient::handle_get_agent;
use stclient::handle_ship_nav;
use stclient::handle_show_contract;
use stclient::handle_show_contracts;
use stclient::handle_show_ships;
use stclient::handle_waypoints;
use stclient::save_config_message;

#[test]
fn check_server_reports_availability() {
    assert_eq!(check_server(200, "200 OK", ""), "Server is available");
}

#[test]
fn check_server_names_other_statuses() {
    let msg = check_server(503, "503 Service Unavailable", "try later");
    assert_eq!(msg, "Server returned 503 Service Unavailable \n try later");
}

#[test]
fn agent_table_holds_the_fields() {
    let out = handle_get_agent(Ok(Agent {
        account_id: String::from("acct-1"),
        symbol: String::from("BADGER"),
        headquarters: String::from("X1-DF55"),
        credits: 100000,
    }));
    assert!(out.contains("Account ID"));
    assert!(out.contains("acct-1"));
    assert!(out.contains("BADGER"));
    assert!(out.contains("X1-DF55"));
    assert!(out.contains("100000"));
}

#[test]
fn empty_fleet_renders_header_only() {
    let out = handle_show_ships(Ok(Vec::new()));
    let mut expected = comfy_table::Table::new();
    expected.set_header(vec![
        "Symbol",
        "Registration",
        "Crew",
        "Frame",
        "Reactor",
        "Engine",
        "Modules",
        "Mounts",
        "Cargo",
        "Fuel",
    ]);
    assert_eq!(out, expected.to_string());
}

#[test]
fn fleet_rows_show_ratios() {
    let ship = Ship {
        symbol: String::from("SHIP-1"),
        registration_name: String::from("Badger One"),
        crew_current: 3,
        crew_capacity: 8,
        frame_name: String::from("Frame A"),
        reactor_name: String::from("Reactor B"),
        engine_name: String::from("Engine C"),
        modules_len: 4,
        mounts_len: 2,
        cargo_units: 10,
        cargo_capacity: 60,
        fuel_current: 400,
        fuel_capacity: 1200,
    };
    let out = handle_show_ships(Ok(vec![ship]));
    assert!(out.contains("SHIP-1"));
    assert!(out.contains("3/8"));
    assert!(out.contains("10/60"));
    assert!(out.contains("400/1200"));
}

#[test]
fn empty_contracts_render_header_only() {
    let out = handle_show_contracts(Ok(Vec::new()));
    let mut expected = comfy_table::Table::new();
    expected.set_header(vec!["ID", "Faction", "Type", "Accepted", "Fulfilled", "Expiration"]);
    assert_eq!(out, expected.to_string());
}

#[test]
fn contract_listing_shows_truth_values() {
    let c = Contract {
        id: String::from("ct-77"),
        faction_symbol: String::from("COSMIC"),
        accepted: true,
        fulfilled: false,
        expiration: String::from("2026-01-01T00:00:00Z"),
    };
    let out = handle_show_contracts(Ok(vec![c]));
    assert!(out.contains("ct-77"));
    assert!(out.contains("true"));
    assert!(out.contains("false"));
}

#[test]
fn nav_failure_is_a_single_line_with_the_symbol() {
    let out = handle_ship_nav(&String::from("SHIP-9"), Err(String::from("connection refused")));
    assert_eq!(out, "Failed to get nav status of SHIP-9 - connection refused");
    assert!(!out.contains("System Symbol"));
}

#[test]
fn nav_success_is_a_table_with_routes() {
    let nav = ShipNav {
        system_symbol: String::from("X1-DF55"),
        waypoint_symbol: String::from("X1-DF55-20250Z"),
        departure_system: String::from("X1-DF55"),
        departure_waypoint: String::from("X1-DF55-20250Z"),
        destination_system: String::from("X1-AA01"),
        destination_waypoint: String::from("X1-AA01-00001A"),
        arrival: String::from("2026-01-01T00:00:00Z"),
        status: String::from("IN_TRANSIT"),
        flight_mode: String::from("CRUISE"),
    };
    let out = handle_ship_nav(&String::from("SHIP-9"), Ok(nav));
    assert!(out.contains("X1-DF55//X1-DF55-20250Z"));
    assert!(out.contains("X1-AA01//X1-AA01-00001A"));
    assert!(out.contains("IN_TRANSIT"));
}

#[test]
fn contract_detail_names_deadline_and_payments() {
    let detail = ContractDetail {
        deadline: String::from("2026-02-02T00:00:00Z"),
        on_accepted: 10000,
        on_fulfilled: 50000,
        deliver: Some(vec![DeliverGood {
            trade_symbol: String::from("IRON_ORE"),
            destination_symbol: String::from("X1-DF55-20250Z"),
            units_required: 100,
            units_fulfilled: 5,
        }]),
    };
    let out = handle_show_contract(Ok(detail));
    assert!(out.starts_with(
        "Deliver the below goods by 2026-02-02T00:00:00Z\n10000 credits on acceptance, 50000 on completion\n"
    ));
    assert!(out.contains("IRON_ORE"));
    assert!(out.contains("100"));
}

#[test]
fn contract_detail_without_goods_has_a_bare_table() {
    let detail = ContractDetail {
        deadline: String::from("2026-02-02T00:00:00Z"),
        on_accepted: 1,
        on_fulfilled: 2,
        deliver: None,
    };
    let out = handle_show_contract(Ok(detail));
    assert!(out.starts_with(
        "Deliver the below goods by 2026-02-02T00:00:00Z\n1 credits on acceptance, 2 on completion\n"
    ));
    assert!(!out.contains("Goods"));
}

#[test]
fn accept_contract_reports_both_ways() {
    assert_eq!(handle_accept_contract(Ok(())), "Contract accepted");
    assert_eq!(
        handle_accept_contract(Err(String::from("404 Not Found"))),
        "Failed to accept contract 404 Not Found"
    );
}

#[test]
fn waypoints_flatten_traits_and_orbitals() {
    let w = Waypoint {
        symbol: String::from("X1-DF55-20250Z"),
        waypoint_type: String::from("PLANET"),
        traits: vec![String::from("ROCKY"), String::from("TEMPERATE")],
        orbitals: vec![String::from("X1-DF55-69207D")],
    };
    let out = handle_waypoints(Ok(vec![w]));
    assert!(out.contains("ROCKY,"));
    assert!(out.contains("TEMPERATE,"));
    assert!(out.contains("X1-DF55-69207D,"));
    assert!(out.contains("PLANET"));
}

#[test]
fn every_failed_operation_yields_a_descriptive_message() {
    let e = || String::from("connection refused");
    let msgs = vec![
        handle_get_agent(Err(e())),
        handle_show_ships(Err(e())),
        handle_show_contracts(Err(e())),
        handle_ship_nav(&String::from("S"), Err(e())),
        handle_show_contract(Err(e())),
        handle_accept_contract(Err(e())),
        handle_waypoints(Err(e())),
    ];
    for m in msgs {
        assert!(!m.is_empty());
        assert!(m.contains("connection refused"));
        assert!(m.contains("Failed"));
    }
}

#[test]
fn save_message_is_fixed() {
    assert_eq!(save_config_message(), "Saved Config");
}
