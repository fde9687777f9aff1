//! Configuration logic of a multicast listen/talk tool: the interface
//! selector, group addresses, the membership a socket must take, and the
//! decisions of the listen and talk loops.
pub mod addr;
pub mod config;
pub mod interface;
pub mod membership;
pub mod session;

pub use addr::{IpAddress, Ipv4Address, Ipv6Address, SocketAddress};
pub use config::{ConfigError, Either, Mode};
pub use interface::{parse_interface, parse_ipv4};
pub use membership::{plan_socket, Membership, SocketPlan};
pub use session::{listen_step, talk_step, ListenAction, ListenEvent, TalkAction, TalkEvent, RECV_BUFFER_LEN};
