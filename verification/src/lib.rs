//! Verified core of a fog node taking part in reverse auctions for FaaS
//! functions: resource accounting, the lifecycle of each function placed on
//! the node, bidding admission, routing decisions and the small pieces of
//! logic of the functions and tools that run around the fog.
pub mod sla;
pub mod records;
pub mod concurrent_map;
pub mod function_tracking;
pub mod resource_tracking;
pub mod accounting;
pub mod function;
pub mod auction;
pub mod node_situation;
pub mod routing;
pub mod packet_loss;
pub mod node_life;
pub mod placement;
pub mod quantity;
pub mod config;
pub mod faas;
pub mod traffic;
pub mod iot;
pub mod cron;
pub mod function_life;
pub mod k8s;
pub mod errors;
