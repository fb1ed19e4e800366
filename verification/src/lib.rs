//! The rules of a frontend gateway: which request goes to which upstream and how, which settings
//! it runs with, and which routes it takes from a control plane.
//!
//! A request is matched against compiled rules ([`proxy`]), which come from definitions
//! ([`proxy_compile`]) that are tried from the most specific to the least ([`proxy_sort`]). The upstreams
//! of a rule take turns ([`settings::ProxyBalancer`]). What is sent to them, and what is passed on of
//! their responses, is decided in [`proxy`] and [`proxy_headers`]. Definitions come from a
//! configuration file ([`settings`]) and from the control plane ([`routes`]), and whom the client
//! trusts is decided in [`settings::tls`] and [`proxy_client`]. What holds of all this together is
//! stated in [`laws`] and beside the functions that it is about.
//!
//! Nothing here reads files, the environment or the network: what is found there comes in as plain
//! values. URIs, header maps, globs, regular expressions, status codes and certificates are those of
//! the crates that define them, each behind a small function whose contract says what is relied on.

pub mod error;
pub mod glob;
pub mod headers;
pub mod laws;
pub mod proxy;
pub mod proxy_client;
pub mod proxy_compile;
pub mod proxy_headers;
pub mod proxy_sort;
pub mod routes;
pub mod settings;
pub mod status;
pub mod text;
pub mod uri;
