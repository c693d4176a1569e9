use vstd::prelude::*;

verus! {

/// Extension of a primary item file, whose header holds the display name.
pub const TRAYITEM_EXT: &'static str = "trayitem";
/// Extensions of the auxiliary files that share a primary item's identifier.
pub const HOUSEHOLDBINARY_EXT: &'static str = "householdbinary";
pub const HHI_EXT: &'static str = "hhi";
pub const BLUEPRINT_EXT: &'static str = "blueprint";
pub const BPI_EXT: &'static str = "bpi";
pub const ROOM_EXT: &'static str = "room";
pub const RMI_EXT: &'static str = "rmi";
/// Extension of the sequel files that continue a primary item's identifier.
pub const SGI_EXT: &'static str = "sgi";

/// Type codes of the supported gallery items.
pub const HOUSEHOLD_TRAYITEM_TYPE: u32 = 0x01;
pub const PLOT_TRAYITEM_TYPE: u32 = 0x02;
pub const ROOM_TRAYITEM_TYPE: u32 = 0x03;

/// Offset of the one-byte name length in a household's header.
pub const HOUSEHOLD_TRAYITEM_NAME_OFFSET: usize = 0x26;
/// Offset of the one-byte name length in a plot's or a room's header.
pub const ROOM_PLOT_TRAYITEM_NAME_OFFSET: usize = 0x27;

/// Output subfolder for each kind of gallery item.
pub const HOUSEHOLD_FOLDERNAME: &'static str = "households";
pub const PLOT_FOLDERNAME: &'static str = "plots";
pub const ROOM_FOLDERNAME: &'static str = "rooms";

} // verus!
