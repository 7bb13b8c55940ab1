//! Network-profile state monitor for a netctl tray: parsers for the
//! network manager's listing, profile files and the wireless statistics
//! table, the status classifier, the live profile set and the per-tick
//! state update with its transition events.

pub mod commands;
pub mod config;
pub mod listing;
pub mod messages;
pub mod profiles;
pub mod state;
pub mod status;
pub mod text;
pub mod wireless;

pub use commands::{group_flags, list_command, profile_menu, switch_commands, Flavor};
pub use config::{parse_interface_line, profile_interface};
pub use listing::{active_in_listing, active_profile, get_profiles, parse_listing_line};
pub use messages::get_rtt_str;
pub use profiles::{scan_profiles, ProfileSet, ScanEntry, WatchEvent};
pub use state::{
    active_after_listing, get_status, get_status_icon, transition, update_state, Probe, State,
    Transition,
};
pub use status::{classify, status_icon, Status};
pub use wireless::{conn_strength, link_quality, parse_quality, quality_of_row, row_names_interface};
