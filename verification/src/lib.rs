//! The rules of a service-mesh proxy whose connections arrive from a DMA
//! datapath: session identity, the endpoint the proxy's stack reads and
//! writes, and the bookkeeping that ties the two together.
pub mod acceptor;
pub mod backend;
pub mod connect;
pub mod driver;
pub mod fifo;
pub mod fixtures;
pub mod h2;
pub mod headers;
pub mod io;
pub mod memo;
pub mod metrics;
pub mod net;
pub mod policy;
pub mod router;
pub mod runtime;
pub mod serve;
pub mod session;
pub mod split;
pub mod stacks;
pub mod table;
pub mod text;
pub mod workers;
