//! Keeps desktop capture running across secure desktops.
//!
//! A capturing program that uses Desktop Duplication loses its instance whenever Windows switches
//! to a secure desktop. This library holds the rules by which a proxy stands in for the instance
//! and replaces it unnoticed ([`duplication_proxy`], [`recovery`], [`hooks`], [`vtable`],
//! [`pump`]), the forwarding of a proxied library's exports ([`exports`]), and the rules of the
//! tools around it: capturing ([`capture`], [`cursor`], [`i420`]), pictures ([`shot`]), probing
//! ([`probe`]), deployment ([`deploy`]), relaying ([`relay`]) and measuring ([`sink`],
//! [`harness`], [`vdd`]).
//!
//! Nothing here talks to the system: every rule takes what a call on the system returned and says
//! what to do next.
pub mod capture;
pub mod clock;
pub mod cursor;
pub mod deploy;
pub mod desktop;
pub mod duplication_proxy;
pub mod dxgi;
pub mod exports;
pub mod harness;
pub mod hooks;
pub mod i420;
pub mod logging;
pub mod probe;
pub mod pump;
pub mod recovery;
pub mod relay;
pub mod shot;
pub mod sink;
pub mod slots;
pub mod state;
pub mod text;
pub mod vdd;
pub mod vtable;
pub mod wide;
