//! A DNS resolver that governs itself: the logic of the server, verified.
pub mod buffer;
pub mod emit;
pub mod name;
pub mod text;
pub mod text_laws;
pub mod memory;
pub mod net;
pub mod net_laws;
pub mod question;
pub mod record;
pub mod record_laws;
pub mod svcb;
pub mod name_set;
pub mod domain_list;
pub mod acl;
pub mod header;
pub mod packet;
pub mod packet_laws;
pub mod layout_laws;
pub mod rebind;
pub mod blocklist;
pub mod client_policy;
pub mod list_laws;
pub mod zone;
pub mod zone_laws;
pub mod stats;
pub mod forward;
pub mod dnssec;
pub mod query_log;
pub mod service_store;
pub mod system_dns;
pub mod config;
pub mod odoh_config;
pub mod resolv_conf;
pub mod scutil;
pub mod service_control;
pub mod steps;
pub mod linux_install;
pub mod macos_install;
pub mod windows_install;
pub mod trust;
pub mod service;
pub mod shape;
pub mod special_use;
pub mod question_set;
pub mod inflight;
pub mod chase;
pub mod ctx;
pub mod resolve;
pub mod ctx_laws;
pub mod wire;
pub mod doh;
pub mod relay;
pub mod odoh;
pub mod pp2;
pub mod pp2_udp;
pub mod tcp;
pub mod proxy;
pub mod api;
pub mod paths;
pub mod health;
pub mod serve;
pub mod runtime;
pub mod web_laws;
pub mod upstream_laws;
pub mod log_laws;
pub mod host_laws;
pub mod service_laws;
pub mod setup_laws;
pub mod word_laws;
pub mod banner;
pub mod dev_domains;
pub mod dev_laws;
pub mod dev_server;
