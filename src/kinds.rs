use vstd::prelude::*;

use crate::constants::{
    HOUSEHOLD_FOLDERNAME, HOUSEHOLD_TRAYITEM_NAME_OFFSET, HOUSEHOLD_TRAYITEM_TYPE, PLOT_FOLDERNAME,
    PLOT_TRAYITEM_TYPE, ROOM_FOLDERNAME, ROOM_PLOT_TRAYITEM_NAME_OFFSET, ROOM_TRAYITEM_TYPE,
};

verus! {

/// The supported kinds of gallery item, told apart by their type code.
#[derive(Clone, Copy, Debug, PartialEq, Eq, Structural)]
pub enum TrayItemKind {
    Household,
    Plot,
    Room,
}

/// The kind that a type code denotes, if any.
pub open spec fn kind_of_code(code: u32) -> Option<TrayItemKind> {
    if code == HOUSEHOLD_TRAYITEM_TYPE {
        Some(TrayItemKind::Household)
    } else if code == PLOT_TRAYITEM_TYPE {
        Some(TrayItemKind::Plot)
    } else if code == ROOM_TRAYITEM_TYPE {
        Some(TrayItemKind::Room)
    } else {
        None
    }
}

impl TrayItemKind {
    /// Offset of the one-byte name length in this kind's header.
    pub open spec fn spec_name_offset(self) -> usize {
        match self {
            TrayItemKind::Household => HOUSEHOLD_TRAYITEM_NAME_OFFSET,
            _ => ROOM_PLOT_TRAYITEM_NAME_OFFSET,
        }
    }

    /// Name of this kind's output subfolder.
    pub open spec fn spec_folder_name(self) -> Seq<char> {
        match self {
            TrayItemKind::Household => HOUSEHOLD_FOLDERNAME@,
            TrayItemKind::Plot => PLOT_FOLDERNAME@,
            TrayItemKind::Room => ROOM_FOLDERNAME@,
        }
    }

    /// The kind that a type code denotes, if any.
    pub fn from_code(code: u32) -> (r: Option<TrayItemKind>)
        ensures
            r == kind_of_code(code),
    {
        if code == HOUSEHOLD_TRAYITEM_TYPE {
            Some(TrayItemKind::Household)
        } else if code == PLOT_TRAYITEM_TYPE {
            Some(TrayItemKind::Plot)
        } else if code == ROOM_TRAYITEM_TYPE {
            Some(TrayItemKind::Room)
        } else {
            None
        }
    }

    /// Offset of the one-byte name length in this kind's header.
    pub fn name_offset(&self) -> (r: usize)
        ensures
            r == self.spec_name_offset(),
    {
        match self {
            TrayItemKind::Household => HOUSEHOLD_TRAYITEM_NAME_OFFSET,
            _ => ROOM_PLOT_TRAYITEM_NAME_OFFSET,
        }
    }

    /// Name of this kind's output subfolder.
    pub fn folder_name(&self) -> (r: &'static str)
        ensures
            r@ == self.spec_folder_name(),
    {
        match self {
            TrayItemKind::Household => HOUSEHOLD_FOLDERNAME,
            TrayItemKind::Plot => PLOT_FOLDERNAME,
            TrayItemKind::Room => ROOM_FOLDERNAME,
        }
    }
}

} // verus!
