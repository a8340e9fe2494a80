//! A smart SSH session manager: host discovery, remote tmux command building,
//! local line editing, the settings vault and the picker, as verified logic.

pub mod block_laws;
pub mod bytes;
pub mod cli;
pub mod cli_laws;
pub mod config;
pub mod connect;
pub mod connect_laws;
pub mod discovery;
pub mod discovery_laws;
pub mod key_laws;
pub mod listing;
pub mod listing_laws;
pub mod local_echo;
pub mod local_echo_laws;
pub mod message_laws;
pub mod model;
pub mod model_laws;
pub mod mux;
pub mod mux_laws;
pub mod order;
pub mod paths;
pub mod picker;
pub mod picker_laws;
pub mod prompt_laws;
pub mod registry;
pub mod relay;
pub mod relay_laws;
pub mod remote_laws;
pub mod ssh_config;
pub mod ssh_config_laws;
pub mod state;
pub mod table;
pub mod terminfo;
pub mod text;
pub mod text_laws;
pub mod tmux;
pub mod tmux_laws;
pub mod util;
pub mod vault;
pub mod vault_laws;
pub mod view;
pub mod view_laws;
