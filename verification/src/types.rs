//! Values exchanged with the client and with the worker.

pub mod lb_app_types;
