//! Verified core of an orchestrator for commands, files, messages and
//! containers.

pub mod build_plan;
pub mod cli_docker;
pub mod command;
pub mod command_runner;
pub mod container_network;
pub mod container_runner;
pub mod docker;
pub mod docker_container;
pub mod docker_debug;
pub mod docker_helpers;
pub mod docker_network;
pub mod dockerfile;
pub mod duration;
pub mod error;
pub mod error_report;
pub mod example_dockerfiles;
pub mod file_options;
pub mod json;
pub mod log_file;
pub mod misc;
pub mod misc_structs;
pub mod name_map;
pub mod net_message;
pub mod parsing;
pub mod paths;
pub mod recorder;
pub mod run_sequence;
pub mod rw_stream;
pub mod super_docker_file;
pub mod super_network;
pub mod tarball;
pub mod text;
pub mod utf8;
pub mod uuid;
pub mod wait_loop;
