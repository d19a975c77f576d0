//! The tray icon, the menu and the place of the popup.
use crate::settings::Platform;
use crate::text::same_text;
use vstd::prelude::*;

verus! {

/// The width of the popup.
pub const WINDOW_WIDTH: i64 = 470;

/// The height of the popup.
pub const WINDOW_HEIGHT: i64 = 420;

/// The width and the height of the tray icon.
pub const ICON_SIZE: u32 = 32;

/// The square of the distance of a pixel from the middle of the icon.
pub open spec fn distance2(x: int, y: int) -> int {
    (x - 16) * (x - 16) + (y - 16) * (y - 16)
}

/// A pixel of the icon in red, green, blue and opacity: a disc of radius 14 with a lighter disc of
/// radius 8 in it, on a transparent ground.
pub open spec fn pixel(x: int, y: int) -> (u8, u8, u8, u8) {
    let opacity: u8 = if distance2(x, y) <= 196 {
        255
    } else {
        0
    };
    if distance2(x, y) < 64 {
        (28, 214, 187, opacity)
    } else {
        (32, 77, 98, opacity)
    }
}

/// The tray icon: its pixels row by row, four bytes each.
pub fn tray_image() -> (r: Vec<u8>)
    ensures
        r@.len() == 4 * ICON_SIZE * ICON_SIZE,
        forall|i: int|
            0 <= i < ICON_SIZE * ICON_SIZE ==> (
                #[trigger] r@[4 * i],
                r@[4 * i + 1],
                r@[4 * i + 2],
                r@[4 * i + 3],
            ) == pixel(i % (ICON_SIZE as int), i / (ICON_SIZE as int)),
{
    let mut out: Vec<u8> = Vec::new();
    let mut i: u32 = 0;
    while i < 1024
        invariant
            i <= 1024,
            out@.len() == 4 * i,
            forall|k: int|
                0 <= k < i ==> (
                    #[trigger] out@[4 * k],
                    out@[4 * k + 1],
                    out@[4 * k + 2],
                    out@[4 * k + 3],
                ) == pixel(k % 32, k / 32),
        decreases 1024 - i,
    {
        let dx: i32 = (i % 32) as i32 - 16;
        let dy: i32 = (i / 32) as i32 - 16;
        assert(0 <= dx * dx <= 256 && 0 <= dy * dy <= 256) by (nonlinear_arith)
            requires
                -16 <= dx <= 15,
                -16 <= dy <= 15,
        ;
        let d2: i32 = dx * dx + dy * dy;
        let opacity: u8 = if d2 <= 196 {
            255
        } else {
            0
        };
        if d2 < 64 {
            out.push(28);
            out.push(214);
            out.push(187);
        } else {
            out.push(32);
            out.push(77);
            out.push(98);
        }
        out.push(opacity);
        i += 1;
    }
    out
}

/// The part of a screen that windows may cover.
#[derive(Clone, Copy, Debug, PartialEq, Eq, Structural)]
pub struct WorkArea {
    pub left: i32,
    pub top: i32,
    pub width: u32,
    pub height: u32,
}

/// The area where none is known.
pub open spec fn default_area() -> WorkArea {
    WorkArea { left: 0, top: 0, width: 1920, height: 1080 }
}

pub open spec fn area_or_default(area: Option<WorkArea>) -> WorkArea {
    match area {
        Some(a) => a,
        None => default_area(),
    }
}

impl WorkArea {
    /// Whether the popup fits, with a margin of 8 on each side.
    pub open spec fn fits(self) -> bool {
        self.width >= WINDOW_WIDTH + 16 && self.height >= WINDOW_HEIGHT + 16
    }

    /// The greatest horizontal position of the popup.
    pub open spec fn last_x(self) -> int {
        self.left + self.width - WINDOW_WIDTH - 8
    }

    /// The greatest vertical position of the popup.
    pub open spec fn last_y(self) -> int {
        self.top + self.height - WINDOW_HEIGHT - 8
    }
}

/// `n` or the nearer bound.
pub open spec fn clamped(n: int, low: int, high: int) -> int {
    if n < low {
        low
    } else if n > high {
        high
    } else {
        n
    }
}

fn clamp_to(n: i64, low: i64, high: i64) -> (r: i64)
    ensures
        r == clamped(n as int, low as int, high as int),
{
    if n < low {
        low
    } else if n > high {
        high
    } else {
        n
    }
}

fn to_i32(n: i64) -> (r: i32)
    ensures
        r == clamped(n as int, i32::MIN as int, i32::MAX as int),
{
    clamp_to(n, i32::MIN as i64, i32::MAX as i64) as i32
}

/// Whether the popup fits into an area.
pub fn popup_fits(area: Option<WorkArea>) -> (r: bool)
    ensures
        r == area_or_default(area).fits(),
{
    match area {
        Some(a) => a.width as i64 >= WINDOW_WIDTH + 16 && a.height as i64 >= WINDOW_HEIGHT + 16,
        None => true,
    }
}

/// Where the popup goes: to the wanted position, or as near to it as the area and the range of screen
/// coordinates allow.
pub open spec fn position(wanted_x: int, wanted_y: int, area: WorkArea) -> (int, int) {
    (
        clamped(
            clamped(wanted_x, area.left + 8, area.last_x()),
            i32::MIN as int,
            i32::MAX as int,
        ),
        clamped(
            clamped(wanted_y, area.top + 8, area.last_y()),
            i32::MIN as int,
            i32::MAX as int,
        ),
    )
}

/// Where the popup goes.
pub fn popup_position(wanted_x: i64, wanted_y: i64, area: Option<WorkArea>) -> (r: (i32, i32))
    requires
        area_or_default(area).fits(),
    ensures
        (r.0 as int, r.1 as int) == position(
            wanted_x as int,
            wanted_y as int,
            area_or_default(area),
        ),
{
    let a = match area {
        Some(a) => a,
        None => WorkArea { left: 0, top: 0, width: 1920, height: 1080 },
    };
    let left: i64 = a.left as i64;
    let top: i64 = a.top as i64;
    let x = clamp_to(wanted_x, left + 8, left + a.width as i64 - WINDOW_WIDTH - 8);
    let y = clamp_to(wanted_y, top + 8, top + a.height as i64 - WINDOW_HEIGHT - 8);
    (to_i32(x), to_i32(y))
}

/// Law: the popup lies inside an area that it fits into and that screen coordinates cover, with a
/// margin of 8 on each side, wherever it is wanted.
pub proof fn law_popup_inside(wanted_x: int, wanted_y: int, area: WorkArea)
    requires
        area.fits(),
        area.last_x() <= i32::MAX,
        area.last_y() <= i32::MAX,
    ensures
        ({
            let (x, y) = position(wanted_x, wanted_y, area);
            &&& area.left + 8 <= x
            &&& x + WINDOW_WIDTH + 8 <= area.left + area.width
            &&& area.top + 8 <= y
            &&& y + WINDOW_HEIGHT + 8 <= area.top + area.height
        }),
{
}

/// Law: the popup goes where it is wanted if it lies inside the area there.
pub proof fn law_popup_where_wanted(wanted_x: int, wanted_y: int, area: WorkArea)
    requires
        area.left + 8 <= wanted_x <= area.last_x(),
        area.top + 8 <= wanted_y <= area.last_y(),
        wanted_x <= i32::MAX,
        wanted_y <= i32::MAX,
    ensures
        position(wanted_x, wanted_y, area) == (wanted_x, wanted_y),
{
}

/// What a menu entry does.
#[derive(Clone, Copy, Debug, PartialEq, Eq, Structural)]
pub enum MenuAction {
    Refresh,
    OpenSettings,
    ToggleAutostart,
    Quit,
    Ignore,
}

/// An entry of the tray menu.
#[derive(Clone, Copy, Debug)]
pub struct MenuEntry {
    pub id: &'static str,
    pub title: &'static str,
}

/// The identifiers and titles of the tray menu.
pub open spec fn menu(platform: Platform) -> Seq<(Seq<char>, Seq<char>)> {
    match platform {
        Platform::Windows => seq![
            ("refresh"@, "刷新"@),
            ("settings"@, "设置"@),
            ("autostart"@, "切换开机启动"@),
            ("quit"@, "退出"@),
        ],
        _ => seq![("refresh"@, "刷新"@), ("settings"@, "设置"@), ("quit"@, "退出"@)],
    }
}

/// The contents of a list of entries.
pub open spec fn entry_texts(v: Seq<MenuEntry>) -> Seq<(Seq<char>, Seq<char>)> {
    v.map_values(|e: MenuEntry| (e.id@, e.title@))
}

/// The entries of the tray menu.
pub fn menu_entries(platform: Platform) -> (r: Vec<MenuEntry>)
    ensures
        entry_texts(r@) == menu(platform),
{
    let mut r: Vec<MenuEntry> = Vec::new();
    r.push(MenuEntry { id: "refresh", title: "刷新" });
    r.push(MenuEntry { id: "settings", title: "设置" });
    if let Platform::Windows = platform {
        r.push(MenuEntry { id: "autostart", title: "切换开机启动" });
    }
    r.push(MenuEntry { id: "quit", title: "退出" });
    assert(entry_texts(r@) =~= menu(platform));
    r
}

/// What the entry with an identifier does.
pub open spec fn action_of(platform: Platform, id: Seq<char>) -> MenuAction {
    if id == "refresh"@ {
        MenuAction::Refresh
    } else if id == "settings"@ {
        MenuAction::OpenSettings
    } else if id == "autostart"@ && platform is Windows {
        MenuAction::ToggleAutostart
    } else if id == "quit"@ {
        MenuAction::Quit
    } else {
        MenuAction::Ignore
    }
}

/// What the entry with an identifier does.
pub fn menu_action(platform: Platform, id: &str) -> (r: MenuAction)
    ensures
        r == action_of(platform, id@),
{
    let windows = match platform {
        Platform::Windows => true,
        _ => false,
    };
    if same_text(id, "refresh") {
        MenuAction::Refresh
    } else if same_text(id, "settings") {
        MenuAction::OpenSettings
    } else if windows && same_text(id, "autostart") {
        MenuAction::ToggleAutostart
    } else if same_text(id, "quit") {
        MenuAction::Quit
    } else {
        MenuAction::Ignore
    }
}

/// Law: every entry of the menu does something, and no two do the same.
pub proof fn law_menu_entries_act(platform: Platform, i: int, j: int)
    requires
        0 <= i < j < menu(platform).len(),
    ensures
        !(action_of(platform, menu(platform)[i].0) is Ignore),
        !(action_of(platform, menu(platform)[j].0) is Ignore),
        action_of(platform, menu(platform)[i].0) != action_of(platform, menu(platform)[j].0),
{
    reveal_strlit("refresh");
    reveal_strlit("settings");
    reveal_strlit("autostart");
    reveal_strlit("quit");
    assert("refresh"@[0] == 'r');
    assert("settings"@[0] == 's');
    assert("autostart"@[0] == 'a');
    assert("quit"@[0] == 'q');
}

/// What a click on the tray icon does.
#[derive(Clone, Copy, Debug, PartialEq, Eq, Structural)]
pub enum ClickAction {
    Show,
    Hide,
    Ignore,
}

/// What a click on the tray icon does: the left button, when it is released, hides a visible popup
/// and shows a hidden one.
pub fn click_action(left: bool, released: bool, visible: bool) -> (r: ClickAction)
    ensures
        r is Hide <==> left && released && visible,
        r is Show <==> left && released && !visible,
        r is Ignore <==> !(left && released),
{
    if !left || !released {
        ClickAction::Ignore
    } else if visible {
        ClickAction::Hide
    } else {
        ClickAction::Show
    }
}

/// Law: a popup that is wanted beyond an edge of the area goes to that edge, and each direction is
/// settled by itself.
pub proof fn law_popup_at_the_edge(wanted_x: int, wanted_y: int, other: int, area: WorkArea)
    requires
        area.fits(),
        area.last_x() <= i32::MAX,
        area.last_y() <= i32::MAX,
    ensures
        ({
            let (x, y) = position(wanted_x, wanted_y, area);
            &&& wanted_x <= area.left + 8 ==> x == area.left + 8
            &&& wanted_x >= area.left + area.width - 478 ==> x == area.left + area.width - 478
            &&& wanted_y <= area.top + 8 ==> y == area.top + 8
            &&& wanted_y >= area.top + area.height - 428 ==> y == area.top + area.height - 428
            &&& position(wanted_x, other, area).0 == x
            &&& position(other, wanted_y, area).1 == y
        }),
{
}

} // verus!
