//! One handler per remote operation: each takes the plain outcome of the
//! one API call the operation makes — the typed payload on success, the
//! error's description on failure — and produces the exact text the user
//! sees. Failures never escape: every outcome becomes a message.

use vstd::prelude::*;
use vstd::string::*;

use crate::numfmt::decimal_of;
use crate::numfmt::i64_decimal;
use crate::session::ConfigWrapper;
use crate::table::render_table;
use crate::table::table_text;
use crate::text::chars_to_string;

verus! {

/// The player's agent record, as the remote service reports it.
pub struct Agent {
    pub account_id: String,
    pub symbol: String,
    pub headquarters: String,
    pub credits: i64,
}

/// One ship of the player's fleet, reduced to the fields shown.
pub struct Ship {
    pub symbol: String,
    pub registration_name: String,
    pub crew_current: i64,
    pub crew_capacity: i64,
    pub frame_name: String,
    pub reactor_name: String,
    pub engine_name: String,
    pub modules_len: i64,
    pub mounts_len: i64,
    pub cargo_units: i64,
    pub cargo_capacity: i64,
    pub fuel_current: i64,
    pub fuel_capacity: i64,
}

/// A ship's navigation status.
pub struct ShipNav {
    pub system_symbol: String,
    pub waypoint_symbol: String,
    pub departure_system: String,
    pub departure_waypoint: String,
    pub destination_system: String,
    pub destination_waypoint: String,
    pub arrival: String,
    pub status: String,
    pub flight_mode: String,
}

/// One contract, reduced to the fields of the listing.
pub struct Contract {
    pub id: String,
    pub faction_symbol: String,
    pub accepted: bool,
    pub fulfilled: bool,
    pub expiration: String,
}

/// One good to deliver under a contract.
pub struct DeliverGood {
    pub trade_symbol: String,
    pub destination_symbol: String,
    pub units_required: i64,
    pub units_fulfilled: i64,
}

/// A contract's delivery terms.
pub struct ContractDetail {
    pub deadline: String,
    pub on_accepted: i64,
    pub on_fulfilled: i64,
    pub deliver: Option<Vec<DeliverGood>>,
}

/// One waypoint of a system.
pub struct Waypoint {
    pub symbol: String,
    pub waypoint_type: String,
    pub traits: Vec<String>,
    pub orbitals: Vec<String>,
}

/// What a successful registration returns: the credential and the joined
/// faction's name.
pub struct RegistrationData {
    pub token: String,
    pub faction_name: String,
}

/// The decimal text of a signed number.
pub fn int_string(n: i64) -> (r: String)
    ensures
        r@ == decimal_of(n as int),
{
    let ds = i64_decimal(n);
    chars_to_string(&ds)
}

/// `current/capacity`, as the fleet columns show a pair.
pub open spec fn ratio_text(a: int, b: int) -> Seq<char> {
    decimal_of(a) + "/"@ + decimal_of(b)
}

/// Renders `current/capacity`.
pub fn ratio_string(a: i64, b: i64) -> (r: String)
    ensures
        r@ == ratio_text(a as int, b as int),
{
    let mut s = int_string(a);
    s.append("/");
    let t = int_string(b);
    s.append(t.as_str());
    proof {
        assert(s@ =~= ratio_text(a as int, b as int));
    }
    s
}

/// `system//waypoint`, as a route end is shown.
pub open spec fn route_text(system: Seq<char>, waypoint: Seq<char>) -> Seq<char> {
    system + "//"@ + waypoint
}

/// Renders `system//waypoint`.
pub fn route_string(system: &String, waypoint: &String) -> (r: String)
    ensures
        r@ == route_text(system@, waypoint@),
{
    let mut s = system.clone();
    s.append("//");
    s.append(waypoint.as_str());
    proof {
        assert(s@ =~= route_text(system@, waypoint@));
    }
    s
}

/// The text of `true` or `false`.
pub open spec fn bool_text(b: bool) -> Seq<char> {
    if b {
        "true"@
    } else {
        "false"@
    }
}

/// Renders a truth value.
pub fn bool_string(b: bool) -> (r: String)
    ensures
        r@ == bool_text(b),
{
    if b {
        String::from_str("true")
    } else {
        String::from_str("false")
    }
}

/// A list flattened into one cell: each item followed by a comma and a
/// line break.
pub open spec fn joined_cell(items: Seq<Seq<char>>) -> Seq<char>
    decreases items.len(),
{
    if items.len() == 0 {
        Seq::empty()
    } else {
        joined_cell(items.drop_last()) + items.last() + ",\n"@
    }
}

/// Flattens a list into one cell.
pub fn join_cell(items: &Vec<String>) -> (r: String)
    ensures
        r@ == joined_cell(items.deep_view()),
{
    let mut s = String::new();
    let mut i: usize = 0;
    while i < items.len()
        invariant
            i <= items@.len(),
            s@ == joined_cell(items.deep_view().take(i as int)),
        decreases items@.len() - i,
    {
        s.append(items[i].as_str());
        s.append(",\n");
        i = i + 1;
        proof {
            let t = items.deep_view().take(i as int);
            assert(t.drop_last() =~= items.deep_view().take(i - 1));
            assert(t.last() == items.deep_view()[i - 1]);
            assert(s@ =~= joined_cell(t));
        }
    }
    proof {
        assert(items.deep_view().take(items@.len() as int) =~= items.deep_view());
    }
    s
}

/// The header of the agent table.
pub open spec fn agent_header() -> Seq<Seq<char>> {
    seq!["Account ID"@, "Symbol"@, "Headquarters"@, "Credits"@]
}

/// The one row of the agent table.
pub open spec fn agent_row(a: Agent) -> Seq<Seq<char>> {
    seq![a.account_id@, a.symbol@, a.headquarters@, decimal_of(a.credits as int)]
}

/// Formats the agent's table, or names the failure.
pub fn handle_get_agent(outcome: Result<Agent, String>) -> (r: String)
    ensures
        match outcome {
            Ok(a) => r@ == table_text(true, agent_header(), seq![agent_row(a)]),
            Err(e) => r@ == "Failed to get agent data "@ + e@ && r@.len() > 0,
        },
{
    match outcome {
        Ok(a) => {
            let ghost a0 = a;
            let mut header: Vec<String> = Vec::new();
            header.push(String::from_str("Account ID"));
            header.push(String::from_str("Symbol"));
            header.push(String::from_str("Headquarters"));
            header.push(String::from_str("Credits"));
            let mut row: Vec<String> = Vec::new();
            let credits = int_string(a.credits);
            row.push(a.account_id);
            row.push(a.symbol);
            row.push(a.headquarters);
            row.push(credits);
            let mut rows: Vec<Vec<String>> = Vec::new();
            rows.push(row);
            proof {
                assert(header.deep_view() =~= agent_header());
                assert(rows.deep_view() =~~= seq![agent_row(a0)]);
            }
            render_table(&header, &rows)
        },
        Err(e) => {
            let mut s = String::from_str("Failed to get agent data ");
            s.append(e.as_str());
            proof {
                reveal_strlit("Failed to get agent data ");
                assert(s@ =~= "Failed to get agent data "@ + e@);
            }
            s
        },
    }
}

/// A failure message: a fixed operation-naming prefix, then the underlying
/// error's description.
fn fail_msg(prefix: &str, e: &str) -> (r: String)
    ensures
        r@ == prefix@ + e@,
{
    let mut s = String::from_str(prefix);
    s.append(e);
    s
}

/// The header of the fleet table.
pub open spec fn ships_header() -> Seq<Seq<char>> {
    seq![
        "Symbol"@,
        "Registration"@,
        "Crew"@,
        "Frame"@,
        "Reactor"@,
        "Engine"@,
        "Modules"@,
        "Mounts"@,
        "Cargo"@,
        "Fuel"@,
    ]
}

/// The fleet table's row for one ship.
pub open spec fn ship_row(s: Ship) -> Seq<Seq<char>> {
    seq![
        s.symbol@,
        s.registration_name@,
        ratio_text(s.crew_current as int, s.crew_capacity as int),
        s.frame_name@,
        s.reactor_name@,
        s.engine_name@,
        decimal_of(s.modules_len as int),
        decimal_of(s.mounts_len as int),
        ratio_text(s.cargo_units as int, s.cargo_capacity as int),
        ratio_text(s.fuel_current as int, s.fuel_capacity as int),
    ]
}

/// The fleet table's rows, one per ship, in the order given.
pub open spec fn ships_rows(l: Seq<Ship>) -> Seq<Seq<Seq<char>>> {
    l.map_values(|s: Ship| ship_row(s))
}

fn ship_row_vec(s: &Ship) -> (r: Vec<String>)
    ensures
        r.deep_view() == ship_row(*s),
{
    let mut row: Vec<String> = Vec::new();
    row.push(s.symbol.clone());
    row.push(s.registration_name.clone());
    row.push(ratio_string(s.crew_current, s.crew_capacity));
    row.push(s.frame_name.clone());
    row.push(s.reactor_name.clone());
    row.push(s.engine_name.clone());
    row.push(int_string(s.modules_len));
    row.push(int_string(s.mounts_len));
    row.push(ratio_string(s.cargo_units, s.cargo_capacity));
    row.push(ratio_string(s.fuel_current, s.fuel_capacity));
    proof {
        assert(row.deep_view() =~~= ship_row(*s));
    }
    row
}

/// Formats the fleet table, or names the failure.
pub fn handle_show_ships(outcome: Result<Vec<Ship>, String>) -> (r: String)
    ensures
        match outcome {
            Ok(l) => r@ == table_text(true, ships_header(), ships_rows(l@)),
            Err(e) => r@ == "Failed to get ships "@ + e@ && r@.len() > 0,
        },
{
    match outcome {
        Ok(l) => {
            let mut header: Vec<String> = Vec::new();
            header.push(String::from_str("Symbol"));
            header.push(String::from_str("Registration"));
            header.push(String::from_str("Crew"));
            header.push(String::from_str("Frame"));
            header.push(String::from_str("Reactor"));
            header.push(String::from_str("Engine"));
            header.push(String::from_str("Modules"));
            header.push(String::from_str("Mounts"));
            header.push(String::from_str("Cargo"));
            header.push(String::from_str("Fuel"));
            let mut rows: Vec<Vec<String>> = Vec::new();
            let mut i: usize = 0;
            while i < l.len()
                invariant
                    i <= l@.len(),
                    rows@.len() == i,
                    forall|j: int|
                        0 <= j < i ==> (#[trigger] rows@[j].deep_view()) == ship_row(l@[j]),
                decreases l@.len() - i,
            {
                let row = ship_row_vec(&l[i]);
                rows.push(row);
                i = i + 1;
            }
            proof {
                assert(rows.deep_view() =~~= ships_rows(l@));
                assert(header.deep_view() =~= ships_header());
            }
            render_table(&header, &rows)
        },
        Err(e) => {
            let s = fail_msg("Failed to get ships ", e.as_str());
            proof {
                reveal_strlit("Failed to get ships ");
            }
            s
        },
    }
}

/// The header of the contract listing.
pub open spec fn contracts_header() -> Seq<Seq<char>> {
    seq!["ID"@, "Faction"@, "Type"@, "Accepted"@, "Fulfilled"@, "Expiration"@]
}

/// The contract listing's row for one contract. The type column is shown
/// empty.
pub open spec fn contract_row(c: Contract) -> Seq<Seq<char>> {
    seq![
        c.id@,
        c.faction_symbol@,
        Seq::<char>::empty(),
        bool_text(c.accepted),
        bool_text(c.fulfilled),
        c.expiration@,
    ]
}

/// The contract listing's rows, one per contract, in the order given.
pub open spec fn contracts_rows(l: Seq<Contract>) -> Seq<Seq<Seq<char>>> {
    l.map_values(|c: Contract| contract_row(c))
}

fn contract_row_vec(c: &Contract) -> (r: Vec<String>)
    ensures
        r.deep_view() == contract_row(*c),
{
    let mut row: Vec<String> = Vec::new();
    row.push(c.id.clone());
    row.push(c.faction_symbol.clone());
    row.push(String::new());
    row.push(bool_string(c.accepted));
    row.push(bool_string(c.fulfilled));
    row.push(c.expiration.clone());
    proof {
        assert(row.deep_view() =~~= contract_row(*c));
    }
    row
}

/// Formats the contract listing, or names the failure.
pub fn handle_show_contracts(outcome: Result<Vec<Contract>, String>) -> (r: String)
    ensures
        match outcome {
            Ok(l) => r@ == table_text(true, contracts_header(), contracts_rows(l@)),
            Err(e) => r@ == "Failed to get contracts - "@ + e@ && r@.len() > 0,
        },
{
    match outcome {
        Ok(l) => {
            let mut header: Vec<String> = Vec::new();
            header.push(String::from_str("ID"));
            header.push(String::from_str("Faction"));
            header.push(String::from_str("Type"));
            header.push(String::from_str("Accepted"));
            header.push(String::from_str("Fulfilled"));
            header.push(String::from_str("Expiration"));
            let mut rows: Vec<Vec<String>> = Vec::new();
            let mut i: usize = 0;
            while i < l.len()
                invariant
                    i <= l@.len(),
                    rows@.len() == i,
                    forall|j: int|
                        0 <= j < i ==> (#[trigger] rows@[j].deep_view()) == contract_row(l@[j]),
                decreases l@.len() - i,
            {
                let row = contract_row_vec(&l[i]);
                rows.push(row);
                i = i + 1;
            }
            proof {
                assert(rows.deep_view() =~~= contracts_rows(l@));
                assert(header.deep_view() =~= contracts_header());
            }
            render_table(&header, &rows)
        },
        Err(e) => {
            let s = fail_msg("Failed to get contracts - ", e.as_str());
            proof {
                reveal_strlit("Failed to get contracts - ");
            }
            s
        },
    }
}

/// A successful empty listing renders as its header alone: there are no
/// data rows to show.
pub proof fn lemma_empty_listing_header_only(ships: Seq<Ship>, contracts: Seq<Contract>)
    requires
        ships.len() == 0,
        contracts.len() == 0,
    ensures
        ships_rows(ships) == Seq::<Seq<Seq<char>>>::empty(),
        contracts_rows(contracts) == Seq::<Seq<Seq<char>>>::empty(),
{
    assert(ships_rows(ships) =~= Seq::<Seq<Seq<char>>>::empty());
    assert(contracts_rows(contracts) =~= Seq::<Seq<Seq<char>>>::empty());
}

/// The header of the navigation table.
pub open spec fn nav_header() -> Seq<Seq<char>> {
    seq![
        "System Symbol"@,
        "Waypoint Symbol"@,
        "From"@,
        "To"@,
        "Arrival"@,
        "Status"@,
        "Flight Mode"@,
    ]
}

/// The navigation table's one row.
pub open spec fn nav_row(n: ShipNav) -> Seq<Seq<char>> {
    seq![
        n.system_symbol@,
        n.waypoint_symbol@,
        route_text(n.departure_system@, n.departure_waypoint@),
        route_text(n.destination_system@, n.destination_waypoint@),
        n.arrival@,
        n.status@,
        n.flight_mode@,
    ]
}

/// Formats a ship's navigation table; a failure is named together with the
/// ship asked about.
pub fn handle_ship_nav(symbol: &String, outcome: Result<ShipNav, String>) -> (r: String)
    ensures
        match outcome {
            Ok(n) => r@ == table_text(true, nav_header(), seq![nav_row(n)]),
            Err(e) => r@ == "Failed to get nav status of "@ + symbol@ + " - "@ + e@ && r@.len()
                > 0,
        },
{
    match outcome {
        Ok(n) => {
            let ghost n0 = n;
            let mut header: Vec<String> = Vec::new();
            header.push(String::from_str("System Symbol"));
            header.push(String::from_str("Waypoint Symbol"));
            header.push(String::from_str("From"));
            header.push(String::from_str("To"));
            header.push(String::from_str("Arrival"));
            header.push(String::from_str("Status"));
            header.push(String::from_str("Flight Mode"));
            let mut row: Vec<String> = Vec::new();
            let from = route_string(&n.departure_system, &n.departure_waypoint);
            let to = route_string(&n.destination_system, &n.destination_waypoint);
            row.push(n.system_symbol);
            row.push(n.waypoint_symbol);
            row.push(from);
            row.push(to);
            row.push(n.arrival);
            row.push(n.status);
            row.push(n.flight_mode);
            let mut rows: Vec<Vec<String>> = Vec::new();
            rows.push(row);
            proof {
                assert(header.deep_view() =~= nav_header());
                assert(rows.deep_view() =~~= seq![nav_row(n0)]);
            }
            render_table(&header, &rows)
        },
        Err(e) => {
            let mut s = String::from_str("Failed to get nav status of ");
            s.append(symbol.as_str());
            s.append(" - ");
            s.append(e.as_str());
            proof {
                reveal_strlit("Failed to get nav status of ");
                assert(s@ =~= "Failed to get nav status of "@ + symbol@ + " - "@ + e@);
            }
            s
        },
    }
}

/// The header of a contract's goods table.
pub open spec fn goods_header() -> Seq<Seq<char>> {
    seq!["Goods"@, "Destination"@, "Required"@, "Fulfilled"@]
}

/// The goods table's row for one delivery.
pub open spec fn good_row(g: DeliverGood) -> Seq<Seq<char>> {
    seq![
        g.trade_symbol@,
        g.destination_symbol@,
        decimal_of(g.units_required as int),
        decimal_of(g.units_fulfilled as int),
    ]
}

/// The goods table's rows, one per delivery, in the order given.
pub open spec fn goods_rows(l: Seq<DeliverGood>) -> Seq<Seq<Seq<char>>> {
    l.map_values(|g: DeliverGood| good_row(g))
}

/// The text shown for a contract's delivery terms: the deadline and the
/// payments, then the goods table (left bare when there is nothing to
/// deliver).
pub open spec fn contract_detail_text(c: ContractDetail) -> Seq<char> {
    "Deliver the below goods by "@ + c.deadline@ + "\n"@ + decimal_of(c.on_accepted as int)
        + " credits on acceptance, "@ + decimal_of(c.on_fulfilled as int) + " on completion"@
        + "\n"@ + (match c.deliver {
        Some(goods) => table_text(true, goods_header(), goods_rows(goods@)),
        None => table_text(false, Seq::<Seq<char>>::empty(), Seq::<Seq<Seq<char>>>::empty()),
    })
}

/// Formats one contract's delivery terms, or names the failure.
pub fn handle_show_contract(outcome: Result<ContractDetail, String>) -> (r: String)
    ensures
        match outcome {
            Ok(c) => r@ == contract_detail_text(c),
            Err(e) => r@ == "Failed to get contract details "@ + e@ && r@.len() > 0,
        },
{
    match outcome {
        Ok(c) => {
            let ghost c0 = c;
            let mut s = String::from_str("Deliver the below goods by ");
            s.append(c.deadline.as_str());
            s.append("\n");
            let on_accepted = int_string(c.on_accepted);
            s.append(on_accepted.as_str());
            s.append(" credits on acceptance, ");
            let on_fulfilled = int_string(c.on_fulfilled);
            s.append(on_fulfilled.as_str());
            s.append(" on completion");
            s.append("\n");
            let table = match c.deliver {
                Some(goods) => {
                    let ghost goods0 = goods;
                    let mut header: Vec<String> = Vec::new();
                    header.push(String::from_str("Goods"));
                    header.push(String::from_str("Destination"));
                    header.push(String::from_str("Required"));
                    header.push(String::from_str("Fulfilled"));
                    let mut rows: Vec<Vec<String>> = Vec::new();
                    let mut i: usize = 0;
                    while i < goods.len()
                        invariant
                            i <= goods@.len(),
                            rows@.len() == i,
                            forall|j: int|
                                0 <= j < i ==> (#[trigger] rows@[j].deep_view()) == good_row(
                                    goods@[j],
                                ),
                        decreases goods@.len() - i,
                    {
                        let g = &goods[i];
                        let mut row: Vec<String> = Vec::new();
                        row.push(g.trade_symbol.clone());
                        row.push(g.destination_symbol.clone());
                        row.push(int_string(g.units_required));
                        row.push(int_string(g.units_fulfilled));
                        proof {
                            assert(row.deep_view() =~~= good_row(goods@[i as int]));
                        }
                        rows.push(row);
                        i = i + 1;
                    }
                    proof {
                        assert(rows.deep_view() =~~= goods_rows(goods@));
                        assert(header.deep_view() =~= goods_header());
                    }
                    render_table(&header, &rows)
                },
                None => crate::table::render_empty_table(),
            };
            s.append(table.as_str());
            proof {
                assert(s@ =~= contract_detail_text(c0));
            }
            s
        },
        Err(e) => {
            let s = fail_msg("Failed to get contract details ", e.as_str());
            proof {
                reveal_strlit("Failed to get contract details ");
            }
            s
        },
    }
}

/// Reports a contract's acceptance, or names the failure.
pub fn handle_accept_contract(outcome: Result<(), String>) -> (r: String)
    ensures
        match outcome {
            Ok(_) => r@ == "Contract accepted"@,
            Err(e) => r@ == "Failed to accept contract "@ + e@ && r@.len() > 0,
        },
{
    match outcome {
        Ok(_) => String::from_str("Contract accepted"),
        Err(e) => {
            let s = fail_msg("Failed to accept contract ", e.as_str());
            proof {
                reveal_strlit("Failed to accept contract ");
            }
            s
        },
    }
}

/// The header of the waypoint listing.
pub open spec fn waypoints_header() -> Seq<Seq<char>> {
    seq!["Symbol"@, "Type"@, "Traits"@, "Orbitals"@]
}

/// The waypoint listing's row for one waypoint: its traits and orbitals
/// are flattened into single cells.
pub open spec fn waypoint_row(w: Waypoint) -> Seq<Seq<char>> {
    seq![w.symbol@, w.waypoint_type@, joined_cell(w.traits.deep_view()), joined_cell(
        w.orbitals.deep_view(),
    )]
}

/// The waypoint listing's rows, one per waypoint, in the order given.
pub open spec fn waypoints_rows(l: Seq<Waypoint>) -> Seq<Seq<Seq<char>>> {
    l.map_values(|w: Waypoint| waypoint_row(w))
}

fn waypoint_row_vec(w: &Waypoint) -> (r: Vec<String>)
    ensures
        r.deep_view() == waypoint_row(*w),
{
    let mut row: Vec<String> = Vec::new();
    row.push(w.symbol.clone());
    row.push(w.waypoint_type.clone());
    row.push(join_cell(&w.traits));
    row.push(join_cell(&w.orbitals));
    proof {
        assert(row.deep_view() =~~= waypoint_row(*w));
    }
    row
}

/// Formats a system's waypoint listing, or names the failure.
pub fn handle_waypoints(outcome: Result<Vec<Waypoint>, String>) -> (r: String)
    ensures
        match outcome {
            Ok(l) => r@ == table_text(true, waypoints_header(), waypoints_rows(l@)),
            Err(e) => r@ == "Failed to get system waypoints "@ + e@ && r@.len() > 0,
        },
{
    match outcome {
        Ok(l) => {
            let mut header: Vec<String> = Vec::new();
            header.push(String::from_str("Symbol"));
            header.push(String::from_str("Type"));
            header.push(String::from_str("Traits"));
            header.push(String::from_str("Orbitals"));
            let mut rows: Vec<Vec<String>> = Vec::new();
            let mut i: usize = 0;
            while i < l.len()
                invariant
                    i <= l@.len(),
                    rows@.len() == i,
                    forall|j: int|
                        0 <= j < i ==> (#[trigger] rows@[j].deep_view()) == waypoint_row(l@[j]),
                decreases l@.len() - i,
            {
                let row = waypoint_row_vec(&l[i]);
                rows.push(row);
                i = i + 1;
            }
            proof {
                assert(rows.deep_view() =~~= waypoints_rows(l@));
                assert(header.deep_view() =~= waypoints_header());
            }
            render_table(&header, &rows)
        },
        Err(e) => {
            let s = fail_msg("Failed to get system waypoints ", e.as_str());
            proof {
                reveal_strlit("Failed to get system waypoints ");
            }
            s
        },
    }
}

/// `status_text` is the status's own display text, which the caller takes
/// from the transport (`200 OK`, `503 Service Unavailable`); nothing here
/// ties it to the number, it is echoed as an opaque value.
///
/// Classifies the root endpoint's answer: a success status reports an
/// available server, any other names the status and echoes the body.
pub fn check_server(status: u16, status_text: &str, body: &str) -> (r: String)
    ensures
        status == 200 ==> r@ == "Server is available"@,
        status != 200 ==> r@ == "Server returned "@ + status_text@ + " \n "@ + body@ && r@.len()
            > 0,
{
    if status == 200 {
        String::from_str("Server is available")
    } else {
        let mut s = String::from_str("Server returned ");
        s.append(status_text);
        s.append(" \n ");
        s.append(body);
        proof {
            reveal_strlit("Server returned ");
            assert(s@ =~= "Server returned "@ + status_text@ + " \n "@ + body@);
        }
        s
    }
}

/// Records a successful registration in the session and reports the token,
/// or names the failure and leaves the session untouched.
pub fn handle_register(
    ctx: &mut ConfigWrapper,
    call_sign: &String,
    outcome: Result<RegistrationData, String>,
) -> (r: String)
    ensures
        match outcome {
            Ok(d) => {
                &&& final(ctx).user_config@.access_token == d.token@
                &&& final(ctx).user_config@.call_sign == call_sign@
                &&& final(ctx).user_config@.faction == d.faction_name@
                &&& final(ctx).user_config@.base_path == old(ctx).user_config@.base_path
                &&& final(ctx).user_config@.request_timeout_secs == old(
                    ctx,
                ).user_config@.request_timeout_secs
                &&& final(ctx).user_config@.headquarters == old(ctx).user_config@.headquarters
                &&& final(ctx).wf()
                &&& r@ == "Successfully registered. Got token ( this will be saved on exit ) "@
                    + d.token@
            },
            Err(e) => *final(ctx) == *old(ctx) && r@ == "Failed to register player "@ + e@
                && r@.len() > 0,
        },
{
    match outcome {
        Ok(d) => {
            let token_copy = d.token.clone();
            ctx.apply_registration(d.token, call_sign.clone(), d.faction_name);
            let mut s = String::from_str(
                "Successfully registered. Got token ( this will be saved on exit ) ",
            );
            s.append(token_copy.as_str());
            s
        },
        Err(e) => {
            let s = fail_msg("Failed to register player ", e.as_str());
            proof {
                reveal_strlit("Failed to register player ");
            }
            s
        },
    }
}

/// The message shown after an explicit save.
pub fn save_config_message() -> (r: String)
    ensures
        r@ == "Saved Config"@,
{
    String::from_str("Saved Config")
}

/// The configuration as the user sees it: the exact text of the config
/// file.
pub fn handle_dump_config(ctx: &ConfigWrapper) -> (r: String)
    ensures
        r@ == crate::json::spec_config_text(ctx.user_config@),
{
    crate::json::to_json(&ctx.user_config)
}

} // verus!
