//! The reader's native surface on Linux: where it lies in its window, and the
//! registry of the windows that have one.
use vstd::prelude::*;

use crate::table::Table;

verus! {

/// Where the surface is put so that it cannot be seen.
pub const OFF_SCREEN: i32 = 10_000;

/// The surface of a window: its distance from the window's edges, its size, and
/// the view that is painted on it; no view yet has the number zero.
#[derive(Debug, Clone, Copy, PartialEq, Eq, Structural)]
pub struct LinuxGtkParent {
    pub margin_start: i32,
    pub margin_top: i32,
    pub width: i32,
    pub height: i32,
    pub webview_id: u64,
}

/// `v`, but at least `least`.
pub open spec fn at_least(v: i32, least: i32) -> i32 {
    if v < least {
        least
    } else {
        v
    }
}

/// See [`at_least`].
fn at_least_of(v: i32, least: i32) -> (r: i32)
    ensures
        r == at_least(v, least),
{
    if v < least {
        least
    } else {
        v
    }
}

impl LinuxGtkParent {
    /// A new surface of the given size, out of sight.
    pub fn install(initial_width: i32, initial_height: i32) -> (r: LinuxGtkParent)
        ensures
            r == (LinuxGtkParent {
                margin_start: OFF_SCREEN,
                margin_top: 0,
                width: initial_width,
                height: initial_height,
                webview_id: 0,
            }),
    {
        LinuxGtkParent {
            margin_start: OFF_SCREEN,
            margin_top: 0,
            width: initial_width,
            height: initial_height,
            webview_id: 0,
        }
    }

    /// Names the view that is painted on the surface.
    pub fn set_webview_id(&mut self, id: u64)
        ensures
            *final(self) == (LinuxGtkParent { webview_id: id, ..*old(self) }),
    {
        self.webview_id = id;
    }

    /// Puts the surface over a rectangle of the window. Edges left of or above
    /// the window, and sizes below one, are corrected.
    pub fn set_position(&mut self, x: i32, y: i32, w: i32, h: i32)
        ensures
            *final(self) == (LinuxGtkParent {
                margin_start: at_least(x, 0),
                margin_top: at_least(y, 0),
                width: at_least(w, 1),
                height: at_least(h, 1),
                ..*old(self)
            }),
    {
        self.margin_start = at_least_of(x, 0);
        self.margin_top = at_least_of(y, 0);
        self.width = at_least_of(w, 1);
        self.height = at_least_of(h, 1);
    }

    /// Takes the surface out of sight.
    pub fn conceal(&mut self)
        ensures
            *final(self) == (LinuxGtkParent {
                margin_start: OFF_SCREEN,
                margin_top: 0,
                width: 1,
                height: 1,
                ..*old(self)
            }),
    {
        self.margin_start = OFF_SCREEN;
        self.margin_top = 0;
        self.width = 1;
        self.height = 1;
    }
}

/// The surfaces by the labels of their windows.
#[derive(Debug)]
pub struct ParentRegistry {
    parents: Table<String, LinuxGtkParent>,
}

impl View for ParentRegistry {
    type V = Map<Seq<char>, LinuxGtkParent>;

    closed spec fn view(&self) -> Map<Seq<char>, LinuxGtkParent> {
        self.parents@
    }
}

impl ParentRegistry {
    /// No window has a surface.
    pub fn new() -> (r: ParentRegistry)
        ensures
            r@ == Map::<Seq<char>, LinuxGtkParent>::empty(),
    {
        ParentRegistry { parents: Table::new() }
    }
}

/// The surface of a window, where it has one.
pub open spec fn found(m: Map<Seq<char>, LinuxGtkParent>, window: Seq<char>) -> Option<
    LinuxGtkParent,
> {
    if m.dom().contains(window) {
        Some(m[window])
    } else {
        None
    }
}

/// The surface of the window with this label.
pub fn parent(registry: &ParentRegistry, label: &str) -> (r: Option<LinuxGtkParent>)
    ensures
        r == found(registry@, label@),
{
    match registry.parents.get(&label.to_owned()) {
        Some(p) => Some(*p),
        None => None,
    }
}

/// Registers the surface of a window, in place of the one it may have had.
pub fn register_parent(registry: &mut ParentRegistry, label: &str, p: LinuxGtkParent)
    ensures
        final(registry)@ == old(registry)@.insert(label@, p),
{
    registry.parents.insert(label.to_owned(), p);
}

/// Forgets the surface of a window that is closed.
pub fn remove_parent(registry: &mut ParentRegistry, label: &str)
    ensures
        final(registry)@ == old(registry)@.remove(label@),
{
    registry.parents.remove(&label.to_owned());
}

/// Each window has a surface of its own: what is registered or removed for one
/// is found or gone there, and changes nothing for another.
pub proof fn law_windows_keep_their_own_surface(
    m: Map<Seq<char>, LinuxGtkParent>,
    window: Seq<char>,
    other: Seq<char>,
    p: LinuxGtkParent,
)
    requires
        window != other,
    ensures
        found(m.insert(window, p), window) == Some(p),
        found(m.insert(window, p), other) == found(m, other),
        found(m.remove(window), window) is None,
        found(m.remove(window), other) == found(m, other),
{
}

/// A direction of the wheel.
#[derive(Debug, Clone, Copy, PartialEq, Eq, Structural)]
pub enum ScrollDirection {
    Up,
    Down,
    Left,
    Right,
}

/// How far a notch of the wheel moves the view, to the right and down. The
/// content moves against the direction in which the user goes.
pub fn wheel_notch(direction: ScrollDirection) -> (r: (i32, i32))
    ensures
        r == match direction {
            ScrollDirection::Up => (0i32, 1i32),
            ScrollDirection::Down => (0i32, -1i32),
            ScrollDirection::Left => (1i32, 0i32),
            ScrollDirection::Right => (-1i32, 0i32),
        },
{
    match direction {
        ScrollDirection::Up => (0, 1),
        ScrollDirection::Down => (0, -1),
        ScrollDirection::Left => (1, 0),
        ScrollDirection::Right => (-1, 0),
    }
}

/// The pointer's shape over the reader.
#[derive(Debug, Clone, Copy, PartialEq, Eq, Structural)]
pub enum Cursor {
    Hidden,
    Default,
    Pointer,
    ContextMenu,
    Help,
    Progress,
    Wait,
    Cell,
    Crosshair,
    Text,
    VerticalText,
    Alias,
    Copy,
    Move,
    NoDrop,
    NotAllowed,
    Grab,
    Grabbing,
    EResize,
    NResize,
    NeResize,
    NwResize,
    SResize,
    SeResize,
    SwResize,
    WResize,
    EwResize,
    NsResize,
    NeswResize,
    NwseResize,
    ColResize,
    RowResize,
    AllScroll,
    ZoomIn,
    ZoomOut,
}

/// The name of a shape, as style sheets write it.
pub open spec fn css_name(cursor: Cursor) -> Seq<char> {
    match cursor {
        Cursor::Hidden => "none"@,
        Cursor::Default => "default"@,
        Cursor::Pointer => "pointer"@,
        Cursor::ContextMenu => "context-menu"@,
        Cursor::Help => "help"@,
        Cursor::Progress => "progress"@,
        Cursor::Wait => "wait"@,
        Cursor::Cell => "cell"@,
        Cursor::Crosshair => "crosshair"@,
        Cursor::Text => "text"@,
        Cursor::VerticalText => "vertical-text"@,
        Cursor::Alias => "alias"@,
        Cursor::Copy => "copy"@,
        Cursor::Move => "move"@,
        Cursor::NoDrop => "no-drop"@,
        Cursor::NotAllowed => "not-allowed"@,
        Cursor::Grab => "grab"@,
        Cursor::Grabbing => "grabbing"@,
        Cursor::EResize => "e-resize"@,
        Cursor::NResize => "n-resize"@,
        Cursor::NeResize => "ne-resize"@,
        Cursor::NwResize => "nw-resize"@,
        Cursor::SResize => "s-resize"@,
        Cursor::SeResize => "se-resize"@,
        Cursor::SwResize => "sw-resize"@,
        Cursor::WResize => "w-resize"@,
        Cursor::EwResize => "ew-resize"@,
        Cursor::NsResize => "ns-resize"@,
        Cursor::NeswResize => "nesw-resize"@,
        Cursor::NwseResize => "nwse-resize"@,
        Cursor::ColResize => "col-resize"@,
        Cursor::RowResize => "row-resize"@,
        Cursor::AllScroll => "all-scroll"@,
        Cursor::ZoomIn => "zoom-in"@,
        Cursor::ZoomOut => "zoom-out"@,
    }
}

/// See [`css_name`].
pub fn cursor_to_css_name(cursor: Cursor) -> (r: &'static str)
    ensures
        r@ == css_name(cursor),
{
    match cursor {
        Cursor::Hidden => "none",
        Cursor::Default => "default",
        Cursor::Pointer => "pointer",
        Cursor::ContextMenu => "context-menu",
        Cursor::Help => "help",
        Cursor::Progress => "progress",
        Cursor::Wait => "wait",
        Cursor::Cell => "cell",
        Cursor::Crosshair => "crosshair",
        Cursor::Text => "text",
        Cursor::VerticalText => "vertical-text",
        Cursor::Alias => "alias",
        Cursor::Copy => "copy",
        Cursor::Move => "move",
        Cursor::NoDrop => "no-drop",
        Cursor::NotAllowed => "not-allowed",
        Cursor::Grab => "grab",
        Cursor::Grabbing => "grabbing",
        Cursor::EResize => "e-resize",
        Cursor::NResize => "n-resize",
        Cursor::NeResize => "ne-resize",
        Cursor::NwResize => "nw-resize",
        Cursor::SResize => "s-resize",
        Cursor::SeResize => "se-resize",
        Cursor::SwResize => "sw-resize",
        Cursor::WResize => "w-resize",
        Cursor::EwResize => "ew-resize",
        Cursor::NsResize => "ns-resize",
        Cursor::NeswResize => "nesw-resize",
        Cursor::NwseResize => "nwse-resize",
        Cursor::ColResize => "col-resize",
        Cursor::RowResize => "row-resize",
        Cursor::AllScroll => "all-scroll",
        Cursor::ZoomIn => "zoom-in",
        Cursor::ZoomOut => "zoom-out",
    }
}

/// A surface is never placed left of or above its window, nor smaller than a
/// pixel, and else where it is asked to be.
pub proof fn law_surfaces_stay_in_their_window(v: i32, least: i32)
    ensures
        at_least(v, least) >= least,
        v >= least ==> at_least(v, least) == v,
        v < least ==> at_least(v, least) == least,
{
}

/// Every shape has its name in style sheets; the hidden pointer is `none`.
pub proof fn law_shapes_have_their_style_names()
    ensures
        css_name(Cursor::Hidden) == "none"@,
        css_name(Cursor::Default) == "default"@,
        css_name(Cursor::Pointer) == "pointer"@,
        css_name(Cursor::ContextMenu) == "context-menu"@,
        css_name(Cursor::Help) == "help"@,
        css_name(Cursor::Progress) == "progress"@,
        css_name(Cursor::Wait) == "wait"@,
        css_name(Cursor::Cell) == "cell"@,
        css_name(Cursor::Crosshair) == "crosshair"@,
        css_name(Cursor::Text) == "text"@,
        css_name(Cursor::VerticalText) == "vertical-text"@,
        css_name(Cursor::Alias) == "alias"@,
        css_name(Cursor::Copy) == "copy"@,
        css_name(Cursor::Move) == "move"@,
        css_name(Cursor::NoDrop) == "no-drop"@,
        css_name(Cursor::NotAllowed) == "not-allowed"@,
        css_name(Cursor::Grab) == "grab"@,
        css_name(Cursor::Grabbing) == "grabbing"@,
        css_name(Cursor::EResize) == "e-resize"@,
        css_name(Cursor::NResize) == "n-resize"@,
        css_name(Cursor::NeResize) == "ne-resize"@,
        css_name(Cursor::NwResize) == "nw-resize"@,
        css_name(Cursor::SResize) == "s-resize"@,
        css_name(Cursor::SeResize) == "se-resize"@,
        css_name(Cursor::SwResize) == "sw-resize"@,
        css_name(Cursor::WResize) == "w-resize"@,
        css_name(Cursor::EwResize) == "ew-resize"@,
        css_name(Cursor::NsResize) == "ns-resize"@,
        css_name(Cursor::NeswResize) == "nesw-resize"@,
        css_name(Cursor::NwseResize) == "nwse-resize"@,
        css_name(Cursor::ColResize) == "col-resize"@,
        css_name(Cursor::RowResize) == "row-resize"@,
        css_name(Cursor::AllScroll) == "all-scroll"@,
        css_name(Cursor::ZoomIn) == "zoom-in"@,
        css_name(Cursor::ZoomOut) == "zoom-out"@,
        OFF_SCREEN == 10_000,
{
}

} // verus!
