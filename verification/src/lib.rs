//! Vela: a service health orchestrator.
//!
//! The library holds what the program decides and computes, with its proofs:
//! the configuration and its rules, the state store, the health, recovery,
//! alert, proxy and API engines without their input and output, and the pages
//! of the command-line client. The program around it talks to the network,
//! the processes, the Docker daemon and the terminal.

pub mod alert;
pub mod api;
pub mod clock;
pub mod config;
pub mod docker_engine;
pub mod error;
pub mod health;
pub mod laws;
pub mod models;
pub mod proxy;
pub mod recovery;
pub mod sorting;
pub mod state;
pub mod table;
pub mod text;
pub mod unicode;
pub mod vela_ctl;
