//! A minimal HTTP/2 router on the DMA datapath: it terminates HTTP/2 on client
//! connections and forwards each request to a backend that the host provides
//! over another channel.
pub mod accept;
pub mod channels;
pub mod config;
pub mod proxy;
