//! Task supervision and worker control: the decision logic of a task
//! supervisor, written as verified state machines.

pub mod text;
pub mod plugin;
pub mod worker_message;
pub mod state;
pub mod controller;
pub mod controller_pool;
pub mod task;
pub mod task_tree;
pub mod transport;
pub mod worker_router;
pub mod center_router;
pub mod tracker;
pub mod keyed_queues;
pub mod reprocessor;
pub mod task_assistant;
pub mod center_message;
pub mod controller_message;
pub mod control_message;
pub mod error_handler;
pub mod app_state;
pub mod unique_task;
pub mod timer;
pub mod proxy;
pub mod link;
pub mod dispatcher;
pub mod processor;
pub mod task_io;
pub mod env;
pub mod message_tracker;
pub mod recipient_group;
pub mod task_state;
pub mod router_registry;
