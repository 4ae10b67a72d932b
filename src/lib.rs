//! Client side of the Minecraft server-list-ping protocol: the wire codec,
//! packet framing, the packet catalog and the connection states of a status
//! query, all with contracts checked by Verus.

pub mod framing;
pub mod protocol;
pub mod server;
pub mod wire;
