//! Artifacts on disk and in the content-addressed store: the layout of the
//! local cache and the rules of the fetcher.

pub mod cache;
pub mod ipfs;

pub use cache::CacheManager;
pub use ipfs::IpfsClient;
