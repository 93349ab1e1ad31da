//! The decision logic of a single-process database server: the supervisor
//! (postmaster) state machine and its worker pools, the memory watchdog, the
//! parallel directory copy, and the clause analysis of the SQL parser.
//!
//! Every function here maps plain values to plain values. What the outside
//! world does (threads, signals, files, catalogs) is handed in as arguments
//! and asked for as returned actions.
#![allow(non_snake_case)]
#![allow(non_camel_case_types)]
#![allow(non_upper_case_globals)]

pub mod backend_type;
pub mod btmask;
pub mod text;
pub mod pm_state;
pub mod postmaster;
pub mod reload;
pub mod pmsignal;
pub mod reaper;
pub mod reap_laws;
pub mod serverloop;
pub mod server_lap;
pub mod launch_missing;
pub mod service;
pub mod supervisor_laws;
pub mod lap_laws;
pub mod boot_options;
pub mod boot;
pub mod boot_order;
pub mod boot_report;
pub mod boot_laws;
pub mod child_kinds;
pub mod launch;
pub mod wpool;
pub mod standby;
pub mod rtpool;
pub mod rtgang;
pub mod thread_laws;
pub mod memwatchdog;
pub mod watch_laws;
pub mod parcopy;
pub mod copy_laws;
pub mod parse_nodes;
pub mod parse_coerce;
pub mod parse_sort;
pub mod sort_laws;
pub mod parse_group;
pub mod parse_group_clause;
pub mod group_laws;
pub mod parse_distinct;
pub mod parse_distinct_on;
pub mod distinct_laws;
pub mod parse_agg_lists;
pub mod parse_frame;
pub mod parse_window;
pub mod parse_join;
pub mod parse_from;
pub mod parse_join_expr;
pub mod join_laws;
pub mod parse_range;
pub mod parse_range_function;
pub mod parse_table_func;
pub mod from_laws;
pub mod parse_statement;
pub mod clause_laws;
pub mod parse_error;
pub mod error_laws;
