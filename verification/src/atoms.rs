//! The X11 atoms (named properties and messages) that the window manager and its tools use.
use vstd::prelude::*;

verus! {

/// An X11 atom known to this library, identified by its name on the X server.
#[derive(Clone, Copy, Debug, PartialEq, Eq, Structural)]
pub enum X11Atom {
    // ICCCM
    UTF8String,
    WMDeleteWindow,
    WMIconName,
    WMIconSize,
    WMName,
    WMProtocols,
    WMState,
    // EWMH
    NetActiveWindow,
    NetClientList,
    NetClientListStacking,
    NetCloseWindow,
    NetCurrentDesktop,
    NetDesktopGeometry,
    NetDesktopNames,
    NetDesktopViewport,
    NetNumberOfDesktops,
    NetSupported,
    NetSupportingWMCheck,
    NetSystemTray,
    NetSystemTrayOpcode,
    NetSystemTrayOrientation,
    NetWMDesktop,
    NetWMName,
    NetWMState,
    NetWMStateFullscreen,
    NetWMWindowType,
    NetWMWindowTypeDesktop,
    NetWMWindowTypeDialog,
    NetWMWindowTypeDock,
    NetWMWindowTypeMenu,
    NetWorkarea,
    // Motif
    MotifWMHints,
    // XEMBED
    Manager,
    Xembed,
    XembedInfo,
    // MARS (custom)
    MarsWMStateTiled,
    MarsStatus,
    // EWMH window type of notifications
    NetWMWindowTypeNotification,
}

/// Number of atoms known to this library.
pub const ATOM_COUNT: usize = 38;

impl X11Atom {
    /// The name of the atom on the X server.
    pub open spec fn spec_name(self) -> Seq<char> {
        match self {
            X11Atom::UTF8String => "UTF8_STRING"@,
            X11Atom::WMDeleteWindow => "WM_DELETE_WINDOW"@,
            X11Atom::WMIconName => "WM_ICON_NAME"@,
            X11Atom::WMIconSize => "WM_ICON_SIZE"@,
            X11Atom::WMName => "WM_NAME"@,
            X11Atom::WMProtocols => "WM_PROTOCOLS"@,
            X11Atom::WMState => "WM_STATE"@,
            X11Atom::NetActiveWindow => "_NET_ACTIVE_WINDOW"@,
            X11Atom::NetClientList => "_NET_CLIENT_LIST"@,
            X11Atom::NetClientListStacking => "_NET_CLIENT_LIST_STACKING"@,
            X11Atom::NetCloseWindow => "_NET_CLOSE_WINDOW"@,
            X11Atom::NetCurrentDesktop => "_NET_CURRENT_DESKTOP"@,
            X11Atom::NetDesktopGeometry => "_NET_DESKTOP_GEOMETRY"@,
            X11Atom::NetDesktopNames => "_NET_DESKTOP_NAMES"@,
            X11Atom::NetDesktopViewport => "_NET_DESKTOP_VIEWPORT"@,
            X11Atom::NetNumberOfDesktops => "_NET_NUMBER_OF_DESKTOPS"@,
            X11Atom::NetSupported => "_NET_SUPPORTED"@,
            X11Atom::NetSupportingWMCheck => "_NET_SUPPORTING_WM_CHECK"@,
            X11Atom::NetSystemTray => "_NET_SYSTEM_TRAY_S0"@,
            X11Atom::NetSystemTrayOpcode => "_NET_SYSTEM_TRAY_OPCODE"@,
            X11Atom::NetSystemTrayOrientation => "_NET_SYSTEM_TRAY_ORIENTATION"@,
            X11Atom::NetWMDesktop => "_NET_WM_DESKTOP"@,
            X11Atom::NetWMName => "_NET_WM_NAME"@,
            X11Atom::NetWMState => "_NET_WM_STATE"@,
            X11Atom::NetWMStateFullscreen => "_NET_WM_STATE_FULLSCREEN"@,
            X11Atom::NetWMWindowType => "_NET_WM_WINDOW_TYPE"@,
            X11Atom::NetWMWindowTypeDesktop => "_NET_WM_WINDOW_TYPE_DESKTOP"@,
            X11Atom::NetWMWindowTypeDialog => "_NET_WM_WINDOW_TYPE_DIALOG"@,
            X11Atom::NetWMWindowTypeDock => "_NET_WM_WINDOW_TYPE_DOCK"@,
            X11Atom::NetWMWindowTypeMenu => "_NET_WM_WINDOW_TYPE_MENU"@,
            X11Atom::NetWorkarea => "_NET_WORKAREA"@,
            X11Atom::MotifWMHints => "_MOTIF_WM_HINTS"@,
            X11Atom::Manager => "MANAGER"@,
            X11Atom::Xembed => "_XEMBED"@,
            X11Atom::XembedInfo => "_XEMBED_INFO"@,
            X11Atom::MarsWMStateTiled => "_MARS_WM_STATE_TILED"@,
            X11Atom::MarsStatus => "_MARS_STATUS"@,
            X11Atom::NetWMWindowTypeNotification => "_NET_WM_WINDOW_TYPE_NOTIFICATION"@,
        }
    }

    /// The atom at position `i` of the list of all atoms.
    pub open spec fn spec_at(i: int) -> Option<X11Atom> {
        if i == 0 {
            Some(X11Atom::UTF8String)
        } else if i == 1 {
            Some(X11Atom::WMDeleteWindow)
        } else if i == 2 {
            Some(X11Atom::WMIconName)
        } else if i == 3 {
            Some(X11Atom::WMIconSize)
        } else if i == 4 {
            Some(X11Atom::WMName)
        } else if i == 5 {
            Some(X11Atom::WMProtocols)
        } else if i == 6 {
            Some(X11Atom::WMState)
        } else if i == 7 {
            Some(X11Atom::NetActiveWindow)
        } else if i == 8 {
            Some(X11Atom::NetClientList)
        } else if i == 9 {
            Some(X11Atom::NetClientListStacking)
        } else if i == 10 {
            Some(X11Atom::NetCloseWindow)
        } else if i == 11 {
            Some(X11Atom::NetCurrentDesktop)
        } else if i == 12 {
            Some(X11Atom::NetDesktopGeometry)
        } else if i == 13 {
            Some(X11Atom::NetDesktopNames)
        } else if i == 14 {
            Some(X11Atom::NetDesktopViewport)
        } else if i == 15 {
            Some(X11Atom::NetNumberOfDesktops)
        } else if i == 16 {
            Some(X11Atom::NetSupported)
        } else if i == 17 {
            Some(X11Atom::NetSupportingWMCheck)
        } else if i == 18 {
            Some(X11Atom::NetSystemTray)
        } else if i == 19 {
            Some(X11Atom::NetSystemTrayOpcode)
        } else if i == 20 {
            Some(X11Atom::NetSystemTrayOrientation)
        } else if i == 21 {
            Some(X11Atom::NetWMDesktop)
        } else if i == 22 {
            Some(X11Atom::NetWMName)
        } else if i == 23 {
            Some(X11Atom::NetWMState)
        } else if i == 24 {
            Some(X11Atom::NetWMStateFullscreen)
        } else if i == 25 {
            Some(X11Atom::NetWMWindowType)
        } else if i == 26 {
            Some(X11Atom::NetWMWindowTypeDesktop)
        } else if i == 27 {
            Some(X11Atom::NetWMWindowTypeDialog)
        } else if i == 28 {
            Some(X11Atom::NetWMWindowTypeDock)
        } else if i == 29 {
            Some(X11Atom::NetWMWindowTypeMenu)
        } else if i == 30 {
            Some(X11Atom::NetWorkarea)
        } else if i == 31 {
            Some(X11Atom::MotifWMHints)
        } else if i == 32 {
            Some(X11Atom::Manager)
        } else if i == 33 {
            Some(X11Atom::Xembed)
        } else if i == 34 {
            Some(X11Atom::XembedInfo)
        } else if i == 35 {
            Some(X11Atom::MarsWMStateTiled)
        } else if i == 36 {
            Some(X11Atom::MarsStatus)
        } else if i == 37 {
            Some(X11Atom::NetWMWindowTypeNotification)
        } else {
            None
        }
    }

    /// The position of the atom in the list of all atoms.
    pub open spec fn spec_index(self) -> int {
        match self {
            X11Atom::UTF8String => 0,
            X11Atom::WMDeleteWindow => 1,
            X11Atom::WMIconName => 2,
            X11Atom::WMIconSize => 3,
            X11Atom::WMName => 4,
            X11Atom::WMProtocols => 5,
            X11Atom::WMState => 6,
            X11Atom::NetActiveWindow => 7,
            X11Atom::NetClientList => 8,
            X11Atom::NetClientListStacking => 9,
            X11Atom::NetCloseWindow => 10,
            X11Atom::NetCurrentDesktop => 11,
            X11Atom::NetDesktopGeometry => 12,
            X11Atom::NetDesktopNames => 13,
            X11Atom::NetDesktopViewport => 14,
            X11Atom::NetNumberOfDesktops => 15,
            X11Atom::NetSupported => 16,
            X11Atom::NetSupportingWMCheck => 17,
            X11Atom::NetSystemTray => 18,
            X11Atom::NetSystemTrayOpcode => 19,
            X11Atom::NetSystemTrayOrientation => 20,
            X11Atom::NetWMDesktop => 21,
            X11Atom::NetWMName => 22,
            X11Atom::NetWMState => 23,
            X11Atom::NetWMStateFullscreen => 24,
            X11Atom::NetWMWindowType => 25,
            X11Atom::NetWMWindowTypeDesktop => 26,
            X11Atom::NetWMWindowTypeDialog => 27,
            X11Atom::NetWMWindowTypeDock => 28,
            X11Atom::NetWMWindowTypeMenu => 29,
            X11Atom::NetWorkarea => 30,
            X11Atom::MotifWMHints => 31,
            X11Atom::Manager => 32,
            X11Atom::Xembed => 33,
            X11Atom::XembedInfo => 34,
            X11Atom::MarsWMStateTiled => 35,
            X11Atom::MarsStatus => 36,
            X11Atom::NetWMWindowTypeNotification => 37,
        }
    }

    /// Every atom has a position in the list, and that position gives the atom back.
    pub proof fn lemma_index(self)
        ensures
            0 <= self.spec_index() < ATOM_COUNT,
            X11Atom::spec_at(self.spec_index()) == Some(self),
    {
    }

    /// Exactly the positions below [ATOM_COUNT] hold an atom.
    pub proof fn lemma_at(i: int)
        ensures
            (0 <= i < ATOM_COUNT) == X11Atom::spec_at(i).is_some(),
            X11Atom::spec_at(i) matches Some(a) ==> a.spec_index() == i,
    {
    }

    /// The name of the atom on the X server.
    pub fn name(&self) -> (s: &'static str)
        ensures
            s@ == self.spec_name(),
    {
        match self {
            X11Atom::UTF8String => "UTF8_STRING",
            X11Atom::WMDeleteWindow => "WM_DELETE_WINDOW",
            X11Atom::WMIconName => "WM_ICON_NAME",
            X11Atom::WMIconSize => "WM_ICON_SIZE",
            X11Atom::WMName => "WM_NAME",
            X11Atom::WMProtocols => "WM_PROTOCOLS",
            X11Atom::WMState => "WM_STATE",
            X11Atom::NetActiveWindow => "_NET_ACTIVE_WINDOW",
            X11Atom::NetClientList => "_NET_CLIENT_LIST",
            X11Atom::NetClientListStacking => "_NET_CLIENT_LIST_STACKING",
            X11Atom::NetCloseWindow => "_NET_CLOSE_WINDOW",
            X11Atom::NetCurrentDesktop => "_NET_CURRENT_DESKTOP",
            X11Atom::NetDesktopGeometry => "_NET_DESKTOP_GEOMETRY",
            X11Atom::NetDesktopNames => "_NET_DESKTOP_NAMES",
            X11Atom::NetDesktopViewport => "_NET_DESKTOP_VIEWPORT",
            X11Atom::NetNumberOfDesktops => "_NET_NUMBER_OF_DESKTOPS",
            X11Atom::NetSupported => "_NET_SUPPORTED",
            X11Atom::NetSupportingWMCheck => "_NET_SUPPORTING_WM_CHECK",
            X11Atom::NetSystemTray => "_NET_SYSTEM_TRAY_S0",
            X11Atom::NetSystemTrayOpcode => "_NET_SYSTEM_TRAY_OPCODE",
            X11Atom::NetSystemTrayOrientation => "_NET_SYSTEM_TRAY_ORIENTATION",
            X11Atom::NetWMDesktop => "_NET_WM_DESKTOP",
            X11Atom::NetWMName => "_NET_WM_NAME",
            X11Atom::NetWMState => "_NET_WM_STATE",
            X11Atom::NetWMStateFullscreen => "_NET_WM_STATE_FULLSCREEN",
            X11Atom::NetWMWindowType => "_NET_WM_WINDOW_TYPE",
            X11Atom::NetWMWindowTypeDesktop => "_NET_WM_WINDOW_TYPE_DESKTOP",
            X11Atom::NetWMWindowTypeDialog => "_NET_WM_WINDOW_TYPE_DIALOG",
            X11Atom::NetWMWindowTypeDock => "_NET_WM_WINDOW_TYPE_DOCK",
            X11Atom::NetWMWindowTypeMenu => "_NET_WM_WINDOW_TYPE_MENU",
            X11Atom::NetWorkarea => "_NET_WORKAREA",
            X11Atom::MotifWMHints => "_MOTIF_WM_HINTS",
            X11Atom::Manager => "MANAGER",
            X11Atom::Xembed => "_XEMBED",
            X11Atom::XembedInfo => "_XEMBED_INFO",
            X11Atom::MarsWMStateTiled => "_MARS_WM_STATE_TILED",
            X11Atom::MarsStatus => "_MARS_STATUS",
            X11Atom::NetWMWindowTypeNotification => "_NET_WM_WINDOW_TYPE_NOTIFICATION",
        }
    }

    /// The name of the atom, as an owned string.
    pub fn to_string(&self) -> (s: String)
        ensures
            s@ == self.spec_name(),
    {
        String::from_str(self.name())
    }

    /// The atom at position `i` of the list of all atoms.
    pub fn at(i: usize) -> (a: Option<X11Atom>)
        ensures
            a == X11Atom::spec_at(i as int),
    {
        match i {
            0 => Some(X11Atom::UTF8String),
            1 => Some(X11Atom::WMDeleteWindow),
            2 => Some(X11Atom::WMIconName),
            3 => Some(X11Atom::WMIconSize),
            4 => Some(X11Atom::WMName),
            5 => Some(X11Atom::WMProtocols),
            6 => Some(X11Atom::WMState),
            7 => Some(X11Atom::NetActiveWindow),
            8 => Some(X11Atom::NetClientList),
            9 => Some(X11Atom::NetClientListStacking),
            10 => Some(X11Atom::NetCloseWindow),
            11 => Some(X11Atom::NetCurrentDesktop),
            12 => Some(X11Atom::NetDesktopGeometry),
            13 => Some(X11Atom::NetDesktopNames),
            14 => Some(X11Atom::NetDesktopViewport),
            15 => Some(X11Atom::NetNumberOfDesktops),
            16 => Some(X11Atom::NetSupported),
            17 => Some(X11Atom::NetSupportingWMCheck),
            18 => Some(X11Atom::NetSystemTray),
            19 => Some(X11Atom::NetSystemTrayOpcode),
            20 => Some(X11Atom::NetSystemTrayOrientation),
            21 => Some(X11Atom::NetWMDesktop),
            22 => Some(X11Atom::NetWMName),
            23 => Some(X11Atom::NetWMState),
            24 => Some(X11Atom::NetWMStateFullscreen),
            25 => Some(X11Atom::NetWMWindowType),
            26 => Some(X11Atom::NetWMWindowTypeDesktop),
            27 => Some(X11Atom::NetWMWindowTypeDialog),
            28 => Some(X11Atom::NetWMWindowTypeDock),
            29 => Some(X11Atom::NetWMWindowTypeMenu),
            30 => Some(X11Atom::NetWorkarea),
            31 => Some(X11Atom::MotifWMHints),
            32 => Some(X11Atom::Manager),
            33 => Some(X11Atom::Xembed),
            34 => Some(X11Atom::XembedInfo),
            35 => Some(X11Atom::MarsWMStateTiled),
            36 => Some(X11Atom::MarsStatus),
            37 => Some(X11Atom::NetWMWindowTypeNotification),
            _ => None,
        }
    }


    /// All atoms, in the order of their declaration.
    pub fn values() -> (v: Vec<X11Atom>)
        ensures
            v@.len() == ATOM_COUNT,
            forall|i: int| 0 <= i < ATOM_COUNT ==> X11Atom::spec_at(i) == Some(#[trigger] v@[i]),
    {
        let mut v: Vec<X11Atom> = Vec::new();
        let mut i: usize = 0;
        while i < ATOM_COUNT
            invariant
                i <= ATOM_COUNT,
                v@.len() == i,
                forall|j: int| 0 <= j < i ==> X11Atom::spec_at(j) == Some(#[trigger] v@[j]),
            decreases ATOM_COUNT - i,
        {
            proof {
                X11Atom::lemma_at(i as int);
            }
            let atom = X11Atom::at(i).unwrap();
            v.push(atom);
            i += 1;
        }
        v
    }

    /// The first atom (in declaration order) whose name is `name`, if there is one.
    pub fn from_name(name: &str) -> (r: Option<X11Atom>)
        ensures
            r matches Some(a) ==> a.spec_name() == name@,
            r is None ==> forall|b: X11Atom| b.spec_name() != name@,
            forall|a: X11Atom| a.spec_name() == name@ ==> r == Some(a),
    {
        let mut i: usize = 0;
        while i < ATOM_COUNT
            invariant
                i <= ATOM_COUNT,
                forall|b: X11Atom| b.spec_index() < i ==> b.spec_name() != name@,
            decreases ATOM_COUNT - i,
        {
            proof {
                X11Atom::lemma_at(i as int);
            }
            let atom = X11Atom::at(i).unwrap();
            if str_eq(atom.name(), name) {
                proof {
                    assert forall|a: X11Atom| a.spec_name() == name@ implies Some(atom) == Some(a) by {
                        lemma_names_distinct(a, atom);
                    }
                }
                return Some(atom);
            }
            i += 1;
        }
        proof {
            assert forall|b: X11Atom| b.spec_name() != name@ by {
                b.lemma_index();
            }
        }
        None
    }
}

/// Whether two strings hold the same characters.
pub fn str_eq(a: &str, b: &str) -> (r: bool)
    ensures
        r == (a@ == b@),
{
    a.to_owned() == b.to_owned()
}

/// Different atoms have different names.
pub proof fn lemma_names_distinct(a: X11Atom, b: X11Atom)
    ensures
        a.spec_name() == b.spec_name() ==> a == b,
{
    if a.spec_name() == b.spec_name() && a != b {
        reveal_strlit("UTF8_STRING");
        reveal_strlit("WM_DELETE_WINDOW");
        reveal_strlit("WM_ICON_NAME");
        reveal_strlit("WM_ICON_SIZE");
        reveal_strlit("WM_NAME");
        reveal_strlit("WM_PROTOCOLS");
        reveal_strlit("WM_STATE");
        reveal_strlit("_NET_ACTIVE_WINDOW");
        reveal_strlit("_NET_CLIENT_LIST");
        reveal_strlit("_NET_CLIENT_LIST_STACKING");
        reveal_strlit("_NET_CLOSE_WINDOW");
        reveal_strlit("_NET_CURRENT_DESKTOP");
        reveal_strlit("_NET_DESKTOP_GEOMETRY");
        reveal_strlit("_NET_DESKTOP_NAMES");
        reveal_strlit("_NET_DESKTOP_VIEWPORT");
        reveal_strlit("_NET_NUMBER_OF_DESKTOPS");
        reveal_strlit("_NET_SUPPORTED");
        reveal_strlit("_NET_SUPPORTING_WM_CHECK");
        reveal_strlit("_NET_SYSTEM_TRAY_S0");
        reveal_strlit("_NET_SYSTEM_TRAY_OPCODE");
        reveal_strlit("_NET_SYSTEM_TRAY_ORIENTATION");
        reveal_strlit("_NET_WM_DESKTOP");
        reveal_strlit("_NET_WM_NAME");
        reveal_strlit("_NET_WM_STATE");
        reveal_strlit("_NET_WM_STATE_FULLSCREEN");
        reveal_strlit("_NET_WM_WINDOW_TYPE");
        reveal_strlit("_NET_WM_WINDOW_TYPE_DESKTOP");
        reveal_strlit("_NET_WM_WINDOW_TYPE_DIALOG");
        reveal_strlit("_NET_WM_WINDOW_TYPE_DOCK");
        reveal_strlit("_NET_WM_WINDOW_TYPE_MENU");
        reveal_strlit("_NET_WORKAREA");
        reveal_strlit("_MOTIF_WM_HINTS");
        reveal_strlit("MANAGER");
        reveal_strlit("_XEMBED");
        reveal_strlit("_XEMBED_INFO");
        reveal_strlit("_MARS_WM_STATE_TILED");
        reveal_strlit("_MARS_STATUS");
        reveal_strlit("_NET_WM_WINDOW_TYPE_NOTIFICATION");
        assert(a.spec_name().len() == b.spec_name().len());
        assert(a.spec_name().len() > 0 ==> a.spec_name()[0] == b.spec_name()[0]);
        assert(a.spec_name().len() > 1 ==> a.spec_name()[1] == b.spec_name()[1]);
        assert(a.spec_name().len() > 2 ==> a.spec_name()[2] == b.spec_name()[2]);
        assert(a.spec_name().len() > 3 ==> a.spec_name()[3] == b.spec_name()[3]);
        assert(a.spec_name().len() > 4 ==> a.spec_name()[4] == b.spec_name()[4]);
        assert(a.spec_name().len() > 5 ==> a.spec_name()[5] == b.spec_name()[5]);
        assert(a.spec_name().len() > 6 ==> a.spec_name()[6] == b.spec_name()[6]);
        assert(a.spec_name().len() > 7 ==> a.spec_name()[7] == b.spec_name()[7]);
        assert(a.spec_name().len() > 8 ==> a.spec_name()[8] == b.spec_name()[8]);
        assert(a.spec_name().len() > 9 ==> a.spec_name()[9] == b.spec_name()[9]);
        assert(a.spec_name().len() > 10 ==> a.spec_name()[10] == b.spec_name()[10]);
        assert(a.spec_name().len() > 11 ==> a.spec_name()[11] == b.spec_name()[11]);
        assert(a.spec_name().len() > 12 ==> a.spec_name()[12] == b.spec_name()[12]);
        assert(a.spec_name().len() > 13 ==> a.spec_name()[13] == b.spec_name()[13]);
        assert(a.spec_name().len() > 14 ==> a.spec_name()[14] == b.spec_name()[14]);
        assert(a.spec_name().len() > 15 ==> a.spec_name()[15] == b.spec_name()[15]);
        assert(a.spec_name().len() > 16 ==> a.spec_name()[16] == b.spec_name()[16]);
        assert(a.spec_name().len() > 17 ==> a.spec_name()[17] == b.spec_name()[17]);
        assert(a.spec_name().len() > 18 ==> a.spec_name()[18] == b.spec_name()[18]);
        assert(a.spec_name().len() > 19 ==> a.spec_name()[19] == b.spec_name()[19]);
        assert(a.spec_name().len() > 20 ==> a.spec_name()[20] == b.spec_name()[20]);
        assert(a.spec_name().len() > 21 ==> a.spec_name()[21] == b.spec_name()[21]);
        assert(a.spec_name().len() > 22 ==> a.spec_name()[22] == b.spec_name()[22]);
        assert(a.spec_name().len() > 23 ==> a.spec_name()[23] == b.spec_name()[23]);
        assert(a.spec_name().len() > 24 ==> a.spec_name()[24] == b.spec_name()[24]);
        assert(a.spec_name().len() > 25 ==> a.spec_name()[25] == b.spec_name()[25]);
        assert(a.spec_name().len() > 26 ==> a.spec_name()[26] == b.spec_name()[26]);
        assert(a.spec_name().len() > 27 ==> a.spec_name()[27] == b.spec_name()[27]);
        assert(a.spec_name().len() > 28 ==> a.spec_name()[28] == b.spec_name()[28]);
        assert(false);
    }
}

} // verus!
