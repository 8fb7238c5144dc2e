pub mod text;
pub mod hostsfile;

pub use hostsfile::{HostsFile, HostsFileLine};
