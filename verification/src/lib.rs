//! Supervision of build subprocesses for a desktop shell: the process
//! registry, the spawn plan, the event relay, termination, and the routing of
//! named operations, all stated over mathematical models and proved.

pub mod decimal;
pub mod ids;
pub mod registry;
pub mod relay;
pub mod spawner;
pub mod text;
pub mod terminator;
pub mod dispatch;
pub mod paths;
pub mod javas;
pub mod replies;
pub mod files;
pub mod lifecycle;
