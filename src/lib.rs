//! A windowing layer's verified core: the per-window control registry, the
//! declarative docking layout engine, the decisions of the command execution
//! protocol, and the routing of native notifications into application events.

pub mod controls;
pub mod dispatch;
pub mod id_map;
pub mod laws;
pub mod layout;
pub mod layout_tree;
pub mod registry;
pub mod scroll;
pub mod text;
pub mod types;
