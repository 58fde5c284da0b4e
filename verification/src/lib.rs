//! The verified core of a unified message centre: messages and their
//! routing to registered services, leader election among the nodes, and
//! administrator access.

pub mod api;
pub mod auth;
pub mod digest;
pub mod election;
pub mod error;
pub mod external;
pub mod message;
pub mod registry;
pub mod router;
pub mod storage;
pub mod text;

pub use auth::{ApiKey, Session};
pub use digest::{hash_secret, simple_hash};
pub use election::{DoState, ElectionReply, ElectionRequest, NodeInfo, NodeRole};
pub use error::BmsgError;
pub use message::{
    ApiResponse, BatchSendMessageRequest, Message, MessageFilter, MessageType,
    SendMessageRequest, Target,
};
pub use registry::{RegisterRequest, RegisteredService, ServiceRow, ServiceStatus};
pub use router::{match_services, RouteFailure, RouteResult, RouteStep, Routing};
pub use storage::MessageRow;
