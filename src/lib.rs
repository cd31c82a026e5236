//! Control of a small fleet of network devices: managed switches whose ports
//! are powered on and off over SNMP, and hosts woken by a broadcast wake
//! packet. The library holds the device model, the vendor table, the
//! port-range grammar, the choice of each port's target identifier, the
//! meaning of each reply and the wake packet's layout.
pub mod config;
pub mod device;
pub mod ports;
pub mod snmp;
pub mod switch;
pub mod switch_oid;
pub mod wol;
