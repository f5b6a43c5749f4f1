//! Interactive client library for a space-trading HTTP API.
//!
//! The library holds the verified core of the tool: the persisted
//! configuration record and its on-disk text format, the session context
//! that derives the API client settings from it, the decision logic of the
//! startup and backup-rotation flows, and the formatting of every command's
//! response. The surrounding binary performs the actual file, prompt and
//! network I/O and hands plain values in and out.

pub mod cli;
pub mod config;
pub mod handlers;
pub mod json;
pub mod numfmt;
pub mod session;
pub mod store;
pub mod table;
pub mod text;

pub use cli::Args;
pub use config::GameConfig;
pub use handlers::Agent;
pub use handlers::Contract;
pub use handlers::ContractDetail;
pub use handlers::DeliverGood;
pub use handlers::RegistrationData;
pub use handlers::Ship;
pub use handlers::ShipNav;
pub use handlers::Waypoint;
pub use handlers::check_server;
pub use handlers::handle_accept_contract;
pub use handlers::handle_dump_config;
pub use handlers::handle_get_agent;
pub use handlers::handle_register;
pub use handlers::handle_ship_nav;
pub use handlers::handle_show_contract;
pub use handlers::handle_show_contracts;
pub use handlers::handle_show_ships;
pub use handlers::handle_waypoints;
pub use handlers::save_config_message;
pub use store::FileStore;
pub use store::LoadError;
pub use store::StartupAction;
pub use store::backup_name;
pub use store::now_timestamp;
pub use store::rotate_decision;
pub use store::rotate_done_message;
pub use store::startup_decision;
pub use json::ParseError;
pub use json::parse_config;
pub use json::to_json;
pub use session::ClientConfig;
pub use session::ConfigWrapper;
pub use table::render_table;
