//! Plain data exchanged between the framing state engine and the display
//! protocol: window handles, geometry, attributes, incoming events, and the
//! outgoing requests (`Command`) that the engine asks its caller to perform.

use vstd::prelude::*;

verus! {

/// A window handle: a plain 32-bit identifier owned by the display server.
pub type WindowId = u32;

/// Border width, in pixels, of every frame window.
pub const FRAME_BORDER_WIDTH: u16 = 4;

/// Border color of every frame window (red).
pub const FRAME_BORDER_COLOR: u32 = 0xff0000;

/// Background color of every frame window (blue).
pub const FRAME_BACKGROUND_COLOR: u32 = 0x0000ff;

/// Pointer button that, with the grab modifier, starts a window move.
pub const MOVE_BUTTON: u8 = 1;

/// Pointer button that, with the grab modifier, starts a window resize.
pub const RESIZE_BUTTON: u8 = 3;

/// Modifier mask for all pointer and key grabs (the first modifier group).
pub const GRAB_MODIFIER: u16 = 8;

/// The map state of a window, as reported by an attributes query.
#[derive(Clone, Copy, Debug, PartialEq, Eq, Structural)]
pub enum MapState {
    Unmapped,
    Unviewable,
    Viewable,
}

/// The attributes of a window that the startup sweep consults.
#[derive(Clone, Copy, Debug, PartialEq, Eq, Structural)]
pub struct WindowAttributes {
    /// The window asked the server to keep managers away from it.
    pub override_redirect: bool,
    pub map_state: MapState,
}

/// Position and size of a window, as reported by a geometry query.
#[derive(Clone, Copy, Debug, PartialEq, Eq, Structural)]
pub struct Geometry {
    pub x: i16,
    pub y: i16,
    pub width: u16,
    pub height: u16,
}

/// Keycodes, resolved once at startup from the keyboard layout, for the two
/// key grabs the engine registers on each client.
#[derive(Clone, Copy, Debug, PartialEq, Eq, Structural)]
pub struct KeyMap {
    /// Keycode of the key that closes a window (F4).
    pub close_keycode: u8,
    /// Keycode of the key that switches windows (Tab).
    pub switch_keycode: u8,
}

/// A configure request received from the display connection: a window asks
/// for new geometry and stacking, which the engine forwards verbatim.
#[derive(Clone, Copy, Debug, PartialEq, Eq, Structural)]
pub struct ConfigureRequest {
    pub window: WindowId,
    pub x: i16,
    pub y: i16,
    pub width: u16,
    pub height: u16,
    pub border_width: u16,
    pub sibling: WindowId,
    pub stack_mode: u8,
}

/// An event from the display connection, reduced to what the engine reads.
///
/// A map request carries the fresh frame handle and the client's queried
/// geometry, because framing a window needs both and only the caller can
/// obtain them from the server.
#[derive(Clone, Copy, Debug)]
pub enum Event {
    ConfigureRequest(ConfigureRequest),
    MapRequest { window: WindowId, frame: WindowId, geometry: Geometry },
    UnmapNotify { event_window: WindowId, window: WindowId },
    ButtonPress,
    /// Any event kind the engine does not handle.
    Other,
}

/// A request the engine asks its caller to send to the display server.
/// Commands carry every parameter of the corresponding protocol request that
/// the engine decides; the caller performs them strictly in order.
#[derive(Clone, Copy, Debug, PartialEq, Eq, Structural)]
pub enum Command {
    /// Create `window` as a child of `parent` with the given geometry,
    /// inheriting depth and visual from the parent.
    CreateWindow {
        window: WindowId,
        parent: WindowId,
        x: i16,
        y: i16,
        width: u16,
        height: u16,
        border_width: u16,
    },
    /// Set the border and background pixel colors of `window`.
    SetDecoration { window: WindowId, border_pixel: u32, background_pixel: u32 },
    /// Register substructure redirect and notify interest on `window`.
    SelectSubstructureEvents { window: WindowId },
    /// Insert `window` into the server's save set.
    AddToSaveSet { window: WindowId },
    /// Remove `window` from the server's save set.
    RemoveFromSaveSet { window: WindowId },
    /// Make `window` a child of `new_parent` at the given offset.
    Reparent { window: WindowId, new_parent: WindowId, x: i16, y: i16 },
    /// Make `window` visible.
    MapWindow { window: WindowId },
    /// Make `window` invisible.
    UnmapWindow { window: WindowId },
    /// Apply requested geometry and stacking to `window` verbatim.
    ConfigureWindow {
        window: WindowId,
        x: i16,
        y: i16,
        width: u16,
        height: u16,
        border_width: u16,
        sibling: WindowId,
        stack_mode: u8,
    },
    /// Destroy `window`; the server also destroys its remaining children.
    DestroyWindow { window: WindowId },
    /// Grab `button` with `modifiers` on `window`, reporting press, release
    /// and motion.
    GrabButton { window: WindowId, button: u8, modifiers: u16 },
    /// Grab the key with `keycode` and `modifiers` on `window`.
    GrabKey { window: WindowId, keycode: u8, modifiers: u16 },
}

/// A root child found by the startup sweep, with everything the engine needs
/// to frame it: its queried attributes and geometry and a fresh frame handle.
#[derive(Clone, Copy, Debug)]
pub struct ExistingWindow {
    pub window: WindowId,
    pub attrs: WindowAttributes,
    pub geometry: Geometry,
    pub frame: WindowId,
}

/// The startup sweep skips a pre-existing window that manages itself
/// (override-redirect) or is not currently viewable.
pub open spec fn startup_filter_skips(attrs: WindowAttributes) -> bool {
    attrs.override_redirect || attrs.map_state != MapState::Viewable
}

/// The exact request sequence that frames `window` inside the fresh frame
/// `frame`: create and decorate the frame at the client's geometry, watch its
/// substructure, protect the client through the save set, reparent the client
/// into the frame at the origin, map the frame, then register the four input
/// grabs on the client.
pub open spec fn frame_commands(
    window: WindowId,
    frame: WindowId,
    root: WindowId,
    geometry: Geometry,
    keys: KeyMap,
) -> Seq<Command> {
    seq![
        Command::CreateWindow {
            window: frame,
            parent: root,
            x: geometry.x,
            y: geometry.y,
            width: geometry.width,
            height: geometry.height,
            border_width: FRAME_BORDER_WIDTH,
        },
        Command::SetDecoration {
            window: frame,
            border_pixel: FRAME_BORDER_COLOR,
            background_pixel: FRAME_BACKGROUND_COLOR,
        },
        Command::SelectSubstructureEvents { window: frame },
        Command::AddToSaveSet { window },
        Command::Reparent { window, new_parent: frame, x: 0, y: 0 },
        Command::MapWindow { window: frame },
        Command::GrabButton { window, button: MOVE_BUTTON, modifiers: GRAB_MODIFIER },
        Command::GrabButton { window, button: RESIZE_BUTTON, modifiers: GRAB_MODIFIER },
        Command::GrabKey { window, keycode: keys.close_keycode, modifiers: GRAB_MODIFIER },
        Command::GrabKey { window, keycode: keys.switch_keycode, modifiers: GRAB_MODIFIER },
    ]
}

/// The exact request sequence that tears the framing of `window` down: hide
/// the frame, hand the client back to the root at the origin, drop the
/// crash-safety save-set entry, then destroy the frame. The client must leave
/// the frame before the frame is destroyed, or the server would destroy the
/// client with it.
pub open spec fn unframe_commands(window: WindowId, frame: WindowId, root: WindowId) -> Seq<
    Command,
> {
    seq![
        Command::UnmapWindow { window: frame },
        Command::Reparent { window, new_parent: root, x: 0, y: 0 },
        Command::RemoveFromSaveSet { window },
        Command::DestroyWindow { window: frame },
    ]
}

/// What a configure request produces: the requested geometry and stacking,
/// forwarded verbatim to the requesting window itself, and, when that window
/// is registered, first to its frame too, keeping the two in lockstep.
pub open spec fn configure_response(
    reg: Map<WindowId, WindowId>,
    req: ConfigureRequest,
) -> Seq<Command> {
    if reg.dom().contains(req.window) {
        seq![configure_command(reg[req.window], req), configure_command(req.window, req)]
    } else {
        seq![configure_command(req.window, req)]
    }
}

/// The registry after an unmap notification: the entry of `window` leaves
/// exactly when `window` is registered and the notification did not come
/// from the root (a root-sourced notification is a synthetic one the server
/// emits, not a real client unmap).
pub open spec fn unmap_registry(
    reg: Map<WindowId, WindowId>,
    root: WindowId,
    event_window: WindowId,
    window: WindowId,
) -> Map<WindowId, WindowId> {
    if reg.dom().contains(window) && event_window != root {
        reg.remove(window)
    } else {
        reg
    }
}

/// What an unmap notification produces: the unframing sequence for a
/// registered, non-root-sourced subject, and nothing otherwise.
pub open spec fn unmap_response(
    reg: Map<WindowId, WindowId>,
    root: WindowId,
    event_window: WindowId,
    window: WindowId,
) -> Seq<Command> {
    if reg.dom().contains(window) && event_window != root {
        unframe_commands(window, reg[window], root)
    } else {
        Seq::<Command>::empty()
    }
}

/// The sweep's inputs are sound: the enumerated windows are distinct, and
/// the frame handles are fresh (pairwise distinct and distinct from every
/// enumerated window and from the root), as the identifier generator
/// guarantees.
pub open spec fn sweep_inputs_ok(list: Seq<ExistingWindow>, root: WindowId) -> bool {
    &&& forall|i: int, j: int|
        #![trigger list[i], list[j]]
        0 <= i < list.len() && 0 <= j < list.len() && i != j ==> list[i].window != list[j].window
            && list[i].frame != list[j].frame
    &&& forall|i: int, j: int|
        #![trigger list[i], list[j]]
        0 <= i < list.len() && 0 <= j < list.len() ==> list[i].frame != list[j].window
    &&& forall|i: int| 0 <= i < list.len() ==> (#[trigger] list[i]).frame != root
}

/// The registry the startup sweep leaves behind: an entry for each
/// enumerated window that the startup filter admits, mapped to its fresh
/// frame handle.
pub open spec fn sweep_registry(list: Seq<ExistingWindow>) -> Map<WindowId, WindowId>
    decreases list.len(),
{
    if list.len() == 0 {
        Map::<WindowId, WindowId>::empty()
    } else {
        let prev = sweep_registry(list.drop_last());
        let e = list.last();
        if startup_filter_skips(e.attrs) {
            prev
        } else {
            prev.insert(e.window, e.frame)
        }
    }
}

/// The requests the startup sweep emits: the framing sequence of each
/// admitted window, in enumeration order.
pub open spec fn sweep_commands(list: Seq<ExistingWindow>, root: WindowId, keys: KeyMap) -> Seq<
    Command,
>
    decreases list.len(),
{
    if list.len() == 0 {
        Seq::<Command>::empty()
    } else {
        let prev = sweep_commands(list.drop_last(), root, keys);
        let e = list.last();
        if startup_filter_skips(e.attrs) {
            prev
        } else {
            prev + frame_commands(e.window, e.frame, root, e.geometry, keys)
        }
    }
}

/// Every entry of the sweep registry comes from an enumerated window that
/// the startup filter admitted, and carries that window's frame handle.
pub proof fn lemma_sweep_registry_entries(list: Seq<ExistingWindow>)
    ensures
        forall|w: WindowId| #[trigger]
            sweep_registry(list).dom().contains(w) ==> exists|i: int|
                0 <= i < list.len() && (#[trigger] list[i]).window == w && !startup_filter_skips(
                    list[i].attrs,
                ) && sweep_registry(list)[w] == list[i].frame,
    decreases list.len(),
{
    if list.len() == 0 {
    } else {
        let prev = list.drop_last();
        lemma_sweep_registry_entries(prev);
        let last = list.last();
        assert forall|w: WindowId| #[trigger]
            sweep_registry(list).dom().contains(w) implies exists|i: int|
            0 <= i < list.len() && (#[trigger] list[i]).window == w && !startup_filter_skips(
                list[i].attrs,
            ) && sweep_registry(list)[w] == list[i].frame by {
            if !startup_filter_skips(last.attrs) && w == last.window {
                let n: int = list.len() - 1;
                assert(0 <= n < list.len() && list[n].window == w && !startup_filter_skips(
                    list[n].attrs,
                ) && sweep_registry(list)[w] == list[n].frame);
            } else {
                assert(sweep_registry(prev).dom().contains(w));
                let i = choose|i: int|
                    0 <= i < prev.len() && (#[trigger] prev[i]).window == w
                        && !startup_filter_skips(prev[i].attrs) && sweep_registry(prev)[w]
                        == prev[i].frame;
                assert(list[i] == prev[i]);
                assert(sweep_registry(list)[w] == sweep_registry(prev)[w]);
            }
        }
    }
}

/// The startup filter, seen in the sweep's result: an enumerated window with
/// override-redirect set or a non-viewable map state is left unregistered;
/// a viewable one without override-redirect is registered, with its fresh
/// frame handle as its entry.
pub proof fn lemma_startup_filter(list: Seq<ExistingWindow>)
    requires
        forall|i: int, j: int|
            #![trigger list[i], list[j]]
            0 <= i < list.len() && 0 <= j < list.len() && i != j ==> list[i].window
                != list[j].window,
    ensures
        forall|i: int|
            0 <= i < list.len() && startup_filter_skips((#[trigger] list[i]).attrs)
                ==> !sweep_registry(list).dom().contains(list[i].window),
        forall|i: int|
            0 <= i < list.len() && !startup_filter_skips((#[trigger] list[i]).attrs)
                ==> sweep_registry(list).dom().contains(list[i].window) && sweep_registry(
                list,
            )[list[i].window] == list[i].frame,
{
    lemma_sweep_registry_entries(list);
    assert forall|i: int|
        0 <= i < list.len() && startup_filter_skips(
            (#[trigger] list[i]).attrs,
        ) implies !sweep_registry(list).dom().contains(list[i].window) by {
        if sweep_registry(list).dom().contains(list[i].window) {
            let j = choose|j: int|
                0 <= j < list.len() && (#[trigger] list[j]).window == list[i].window
                    && !startup_filter_skips(list[j].attrs) && sweep_registry(
                    list,
                )[list[i].window] == list[j].frame;
            assert(j != i);
            assert(false);
        }
    }
    lemma_startup_filter_admitted(list);
}

/// Induction for the admitted half of the startup filter.
proof fn lemma_startup_filter_admitted(list: Seq<ExistingWindow>)
    requires
        forall|i: int, j: int|
            #![trigger list[i], list[j]]
            0 <= i < list.len() && 0 <= j < list.len() && i != j ==> list[i].window
                != list[j].window,
    ensures
        forall|i: int|
            0 <= i < list.len() && !startup_filter_skips((#[trigger] list[i]).attrs)
                ==> sweep_registry(list).dom().contains(list[i].window) && sweep_registry(
                list,
            )[list[i].window] == list[i].frame,
    decreases list.len(),
{
    if list.len() == 0 {
    } else {
        let prev = list.drop_last();
        lemma_startup_filter_admitted(prev);
        let last = list.last();
        let n: int = list.len() - 1;
        assert forall|i: int|
            0 <= i < list.len() && !startup_filter_skips(
                (#[trigger] list[i]).attrs,
            ) implies sweep_registry(list).dom().contains(list[i].window) && sweep_registry(
            list,
        )[list[i].window] == list[i].frame by {
            if i < n {
                assert(prev[i] == list[i]);
                assert(sweep_registry(prev).dom().contains(list[i].window));
                assert(list[n].window != list[i].window);
            } else {
                assert(sweep_registry(list) == sweep_registry(prev).insert(
                    last.window,
                    last.frame,
                ));
            }
        }
    }
}

/// The configure command that forwards a configure request verbatim to
/// `target`.
pub open spec fn configure_command(target: WindowId, req: ConfigureRequest) -> Command {
    Command::ConfigureWindow {
        window: target,
        x: req.x,
        y: req.y,
        width: req.width,
        height: req.height,
        border_width: req.border_width,
        sibling: req.sibling,
        stack_mode: req.stack_mode,
    }
}

} // verus!
