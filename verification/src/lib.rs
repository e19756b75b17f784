//! Components of a Soulseek client.
pub mod api_server;
pub mod browse;
pub mod config;
pub mod extract;
pub mod format;
pub mod frame;
pub mod github;
pub mod html;
pub mod json;
pub mod messages;
pub mod messenger;
pub mod names;
pub mod net_edge;
pub mod order;
pub mod paths;
pub mod peer_edge;
pub mod peer_net;
pub mod proto;
pub mod search_response;
pub mod sequences;
pub mod session;
pub mod shares;
pub mod slskd;
pub mod spotify;
pub mod template;
pub mod text;
pub mod tokens;
pub mod transfer_io;
pub mod ui;
pub mod ui_theme;
pub mod updater;
pub mod web_bridge;
pub mod wire;
