//! Core logic of the TCP Log Lab dashboard: the bounded message log and its
//! rendering rules, the dashboard state machine, the motor command protocol
//! spoken by the dashboard's server, and the reply table of the device server.
pub mod text;
pub mod models;
pub mod network;
pub mod device;
pub mod dashboard;
pub mod text_laws;
