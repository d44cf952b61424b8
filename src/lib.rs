//! Supply-chain audit of build recipes: classification of declared sources,
//! pin-security policy, checksum coverage and the scan scheduler's decisions.

pub mod args;
pub mod bzr;
pub mod fsck;
pub mod git;
pub mod github;
pub mod hg;
pub mod makepkg;
pub mod osv;
pub mod report;
pub mod scheduler;
pub mod svn;
pub mod text;
