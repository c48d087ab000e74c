//! Verified core of a full-screen pane-layout engine.
//!
//! A declarative tree of split and leaf regions is resolved into screen
//! rectangles; each leaf is decorated with an angle-cut octagonal border,
//! and the largest axis-aligned rectangle inscribed in that border becomes
//! the leaf's usable content area.  All geometry is carried out over integer
//! pixel coordinates; split biases are fractions in thousandths.
//!
//! The crate also verifies the small decision layers that surround the
//! layout core in the host lock screen: keystroke-to-character mapping,
//! the shared authentication record, the password-ring draw plan, and the
//! lock-marker lifecycle.  I/O, painting and telemetry polling stay in the
//! unverified host.

pub mod auth;
pub mod config;
pub mod geometry;
pub mod inscribe;
pub mod keys;
pub mod lock;
pub mod panes;
pub mod table;
