//! Core logic of a command-line client for tunnels, DNS records and access
//! applications: ingress-rule reconciliation, service-target normalisation,
//! local service discovery planning and the small text rules around them.

pub mod api;
pub mod config;
pub mod dns;
pub mod i18n;
pub mod ingress;
pub mod labels;
pub mod scan;
pub mod secret;
pub mod status;
pub mod target;
pub mod text;
