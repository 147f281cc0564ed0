//! Screen-recording controller for Hyprland: the verified core.

pub mod audio;
pub mod audio_laws;
pub mod both;
pub mod calendar;
pub mod calendar_laws;
pub mod capture;
pub mod child_laws;
pub mod cli;
pub mod client;
pub mod compose_laws;
pub mod config;
pub mod config_laws;
pub mod document;
pub mod dual;
pub mod flow_laws;
pub mod ipc;
pub mod lifecycle;
pub mod mixer;
pub mod output;
pub mod output_laws;
pub mod outputs;
pub mod outputs_laws;
pub mod pactl;
pub mod path;
pub mod picker;
pub mod ports;
pub mod pulse;
pub mod pulse_laws;
pub mod reap;
pub mod recorder;
pub mod seqs;
pub mod server;
pub mod server_laws;
pub mod session;
pub mod session_laws;
pub mod sound;
pub mod status;
pub mod text;
pub mod text_laws;
pub mod trace;
pub mod view;
pub mod window_laws;
pub mod worker;

pub use config::Config;
pub use ipc::{IpcRequest, IpcResponse, IpcStatus};
pub use recorder::Recorder;
pub use server::RuntimePaths;
pub use status::{CommandResult, MachineCode, State, Status};
