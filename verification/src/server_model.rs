//! A specification-level model of the display server's window tree, used to
//! state and prove what the engine's command sequences do to the server:
//! the client-frame bijection is kept, and unframing restores a client as a
//! root child at the origin.

use vstd::prelude::*;

use crate::manager::registry_injective;
use crate::protocol::Command;
use crate::protocol::ConfigureRequest;
use crate::protocol::FRAME_BORDER_WIDTH;
use crate::protocol::Geometry;
use crate::protocol::KeyMap;
use crate::protocol::WindowId;
use crate::protocol::configure_response;
use crate::protocol::frame_commands;
use crate::protocol::unframe_commands;

verus! {

/// What the model tracks of one server-side window.
pub struct DisplayWindow {
    pub parent: WindowId,
    pub x: i16,
    pub y: i16,
    pub width: u16,
    pub height: u16,
    pub border_width: u16,
    pub mapped: bool,
}

/// The modeled server state: the windows that exist, and the save set.
pub struct DisplayState {
    pub windows: Map<WindowId, DisplayWindow>,
    pub save_set: Set<WindowId>,
}

/// How one command changes the modeled server. Decoration, event-mask and
/// grab requests leave the model unchanged: the model tracks only the window
/// tree, geometry, visibility and the save set.
pub open spec fn apply_command(s: DisplayState, c: Command) -> DisplayState {
    match c {
        Command::CreateWindow { window, parent, x, y, width, height, border_width } => DisplayState {
            windows: s.windows.insert(
                window,
                DisplayWindow { parent, x, y, width, height, border_width, mapped: false },
            ),
            save_set: s.save_set,
        },
        Command::AddToSaveSet { window } => DisplayState {
            windows: s.windows,
            save_set: s.save_set.insert(window),
        },
        Command::RemoveFromSaveSet { window } => DisplayState {
            windows: s.windows,
            save_set: s.save_set.remove(window),
        },
        Command::Reparent { window, new_parent, x, y } => if s.windows.dom().contains(window) {
            DisplayState {
                windows: s.windows.insert(
                    window,
                    DisplayWindow { parent: new_parent, x, y, ..s.windows[window] },
                ),
                save_set: s.save_set,
            }
        } else {
            s
        },
        Command::MapWindow { window } => if s.windows.dom().contains(window) {
            DisplayState {
                windows: s.windows.insert(
                    window,
                    DisplayWindow { mapped: true, ..s.windows[window] },
                ),
                save_set: s.save_set,
            }
        } else {
            s
        },
        Command::UnmapWindow { window } => if s.windows.dom().contains(window) {
            DisplayState {
                windows: s.windows.insert(
                    window,
                    DisplayWindow { mapped: false, ..s.windows[window] },
                ),
                save_set: s.save_set,
            }
        } else {
            s
        },
        Command::ConfigureWindow { window, x, y, width, height, border_width, .. } => if s.windows.dom().contains(window) {
            DisplayState {
                windows: s.windows.insert(
                    window,
                    DisplayWindow {
                        x,
                        y,
                        width,
                        height,
                        border_width,
                        ..s.windows[window]
                    },
                ),
                save_set: s.save_set,
            }
        } else {
            s
        },
        Command::DestroyWindow { window } => DisplayState {
            windows: Map::new(
                |w: WindowId|
                    s.windows.dom().contains(w) && w != window && s.windows[w].parent != window,
                |w: WindowId| s.windows[w],
            ),
            save_set: s.save_set,
        },
        Command::SetDecoration { .. } => s,
        Command::SelectSubstructureEvents { .. } => s,
        Command::GrabButton { .. } => s,
        Command::GrabKey { .. } => s,
    }
}

/// The modeled server after performing `cmds` in order.
pub open spec fn apply_all(s: DisplayState, cmds: Seq<Command>) -> DisplayState
    decreases cmds.len(),
{
    if cmds.len() == 0 {
        s
    } else {
        apply_command(apply_all(s, cmds.drop_last()), cmds.last())
    }
}

/// Performing a prefix and then the remainder performs the whole sequence.
pub proof fn lemma_apply_all_take_step(s: DisplayState, cmds: Seq<Command>, i: int)
    requires
        0 <= i < cmds.len(),
    ensures
        apply_all(s, cmds.take(i + 1)) == apply_command(apply_all(s, cmds.take(i)), cmds[i]),
{
    assert(cmds.take(i + 1).drop_last() =~= cmds.take(i));
}

/// Performing two command sequences one after the other performs their
/// concatenation.
pub proof fn lemma_apply_all_concat(s: DisplayState, a: Seq<Command>, b: Seq<Command>)
    ensures
        apply_all(s, a + b) == apply_all(apply_all(s, a), b),
    decreases b.len(),
{
    if b.len() == 0 {
        assert(a + b =~= a);
    } else {
        lemma_apply_all_concat(s, a, b.drop_last());
        assert((a + b).drop_last() =~= a + b.drop_last());
        assert((a + b).last() == b.last());
    }
}

/// What the framing sequence does to the server: the frame comes to exist as
/// a mapped root child carrying the client's old geometry and the fixed
/// border width, the client hangs inside the frame at the origin with its
/// size kept, the client joins the save set, and every other window is
/// untouched.
pub proof fn lemma_frame_commands_effect(
    s: DisplayState,
    window: WindowId,
    frame: WindowId,
    root: WindowId,
    geometry: Geometry,
    keys: KeyMap,
)
    requires
        s.windows.dom().contains(window),
        !s.windows.dom().contains(frame),
        frame != window,
        frame != root,
    ensures
        ({
            let t = apply_all(s, frame_commands(window, frame, root, geometry, keys));
            &&& t.windows.dom().contains(frame)
            &&& t.windows[frame] == (DisplayWindow {
                parent: root,
                x: geometry.x,
                y: geometry.y,
                width: geometry.width,
                height: geometry.height,
                border_width: FRAME_BORDER_WIDTH,
                mapped: true,
            })
            &&& t.windows.dom().contains(window)
            &&& t.windows[window].parent == frame
            &&& t.windows[window].x == 0
            &&& t.windows[window].y == 0
            &&& t.windows[window].width == s.windows[window].width
            &&& t.windows[window].height == s.windows[window].height
            &&& t.save_set == s.save_set.insert(window)
            &&& forall|w: WindowId|
                w != window && w != frame ==> (#[trigger] t.windows.dom().contains(w)
                    <==> s.windows.dom().contains(w))
            &&& forall|w: WindowId|
                w != window && w != frame && s.windows.dom().contains(w)
                    ==> #[trigger] t.windows[w] == s.windows[w]
        }),
{
    let c = frame_commands(window, frame, root, geometry, keys);
    lemma_apply_all_take_step(s, c, 0);
    lemma_apply_all_take_step(s, c, 1);
    lemma_apply_all_take_step(s, c, 2);
    lemma_apply_all_take_step(s, c, 3);
    lemma_apply_all_take_step(s, c, 4);
    lemma_apply_all_take_step(s, c, 5);
    lemma_apply_all_take_step(s, c, 6);
    lemma_apply_all_take_step(s, c, 7);
    lemma_apply_all_take_step(s, c, 8);
    lemma_apply_all_take_step(s, c, 9);
    assert(c.take(0) =~= Seq::<Command>::empty());
    assert(c.take(10) =~= c);
}

/// What the unframing sequence does to the server: the client becomes a
/// root child at the origin with its size kept, the client leaves the save
/// set, the frame stops existing, and every other window that did not hang
/// inside the frame is untouched.
pub proof fn lemma_unframe_commands_effect(
    s: DisplayState,
    window: WindowId,
    frame: WindowId,
    root: WindowId,
)
    requires
        s.windows.dom().contains(window),
        s.windows.dom().contains(frame),
        s.windows[window].parent == frame,
        frame != window,
        frame != root,
    ensures
        ({
            let t = apply_all(s, unframe_commands(window, frame, root));
            &&& t.windows.dom().contains(window)
            &&& t.windows[window].parent == root
            &&& t.windows[window].x == 0
            &&& t.windows[window].y == 0
            &&& t.windows[window].width == s.windows[window].width
            &&& t.windows[window].height == s.windows[window].height
            &&& !t.windows.dom().contains(frame)
            &&& t.save_set == s.save_set.remove(window)
            &&& forall|w: WindowId|
                w != window && w != frame ==> (#[trigger] t.windows.dom().contains(w) <==> (
                s.windows.dom().contains(w) && s.windows[w].parent != frame))
            &&& forall|w: WindowId|
                w != window && w != frame && s.windows.dom().contains(w) && s.windows[w].parent
                    != frame ==> #[trigger] t.windows[w] == s.windows[w]
        }),
{
    let c = unframe_commands(window, frame, root);
    lemma_apply_all_take_step(s, c, 0);
    lemma_apply_all_take_step(s, c, 1);
    lemma_apply_all_take_step(s, c, 2);
    lemma_apply_all_take_step(s, c, 3);
    assert(c.take(0) =~= Seq::<Command>::empty());
    assert(c.take(4) =~= c);
}

/// Framing and then unframing a window restores it as a direct root child
/// at the origin with its size kept, leaves no trace of the frame on the
/// server, and leaves the registry exactly as it was, so the pair of
/// operations can repeat indefinitely without leaking frames or growing the
/// registry.
pub proof fn lemma_round_trip(
    reg: Map<WindowId, WindowId>,
    s: DisplayState,
    window: WindowId,
    frame: WindowId,
    root: WindowId,
    geometry: Geometry,
    keys: KeyMap,
)
    requires
        s.windows.dom().contains(window),
        !s.windows.dom().contains(frame),
        forall|w: WindowId|
            s.windows.dom().contains(w) ==> (#[trigger] s.windows[w]).parent != frame,
        frame != window,
        frame != root,
        !reg.dom().contains(window),
    ensures
        reg.insert(window, frame).remove(window) == reg,
        ({
            let t = apply_all(
                s,
                frame_commands(window, frame, root, geometry, keys) + unframe_commands(
                    window,
                    frame,
                    root,
                ),
            );
            &&& t.windows.dom().contains(window)
            &&& t.windows[window].parent == root
            &&& t.windows[window].x == 0
            &&& t.windows[window].y == 0
            &&& t.windows[window].width == s.windows[window].width
            &&& t.windows[window].height == s.windows[window].height
            &&& !t.windows.dom().contains(frame)
            &&& t.save_set == s.save_set.insert(window).remove(window)
            &&& forall|w: WindowId|
                w != window && w != frame ==> (#[trigger] t.windows.dom().contains(w)
                    <==> s.windows.dom().contains(w))
            &&& forall|w: WindowId|
                w != window && w != frame && s.windows.dom().contains(w)
                    ==> #[trigger] t.windows[w] == s.windows[w]
        }),
{
    let fc = frame_commands(window, frame, root, geometry, keys);
    let uc = unframe_commands(window, frame, root);
    lemma_apply_all_concat(s, fc, uc);
    lemma_frame_commands_effect(s, window, frame, root, geometry, keys);
    let s1 = apply_all(s, fc);
    lemma_unframe_commands_effect(s1, window, frame, root);
    assert(reg.insert(window, frame).remove(window) =~= reg);
}

/// The client-frame bijection: every registered client exists on the
/// server, hangs inside its frame, its frame exists as a root child, and no
/// frame doubles as a client or is shared.
pub open spec fn frames_consistent(
    reg: Map<WindowId, WindowId>,
    s: DisplayState,
    root: WindowId,
) -> bool {
    forall|w: WindowId| #[trigger]
        reg.dom().contains(w) ==> {
            &&& s.windows.dom().contains(w)
            &&& s.windows.dom().contains(reg[w])
            &&& s.windows[w].parent == reg[w]
            &&& s.windows[reg[w]].parent == root
            &&& reg[w] != w
            &&& reg[w] != root
            &&& !reg.dom().contains(reg[w])
        }
}

/// Framing a fresh, existing client window preserves the client-frame
/// bijection, extended by the new entry.
pub proof fn lemma_frame_preserves_bijection(
    reg: Map<WindowId, WindowId>,
    s: DisplayState,
    window: WindowId,
    frame: WindowId,
    root: WindowId,
    geometry: Geometry,
    keys: KeyMap,
)
    requires
        frames_consistent(reg, s, root),
        registry_injective(reg),
        s.windows.dom().contains(window),
        !s.windows.dom().contains(frame),
        !reg.dom().contains(window),
        forall|w: WindowId| reg.dom().contains(w) ==> #[trigger] reg[w] != window,
        frame != window,
        frame != root,
    ensures
        frames_consistent(
            reg.insert(window, frame),
            apply_all(s, frame_commands(window, frame, root, geometry, keys)),
            root,
        ),
        registry_injective(reg.insert(window, frame)),
{
    lemma_frame_commands_effect(s, window, frame, root, geometry, keys);
    let t = apply_all(s, frame_commands(window, frame, root, geometry, keys));
    let reg2 = reg.insert(window, frame);
    assert(!reg.dom().contains(frame));
    assert forall|w: WindowId| #[trigger] reg2.dom().contains(w) implies {
        &&& t.windows.dom().contains(w)
        &&& t.windows.dom().contains(reg2[w])
        &&& t.windows[w].parent == reg2[w]
        &&& t.windows[reg2[w]].parent == root
        &&& reg2[w] != w
        &&& reg2[w] != root
        &&& !reg2.dom().contains(reg2[w])
    } by {
        if w != window {
            assert(reg.dom().contains(w));
            assert(reg[w] != frame);
            assert(t.windows[w] == s.windows[w]);
            assert(t.windows[reg[w]] == s.windows[reg[w]]);
        }
    }
    assert forall|a: WindowId, b: WindowId|
        reg2.dom().contains(a) && reg2.dom().contains(b) && a != b implies #[trigger] reg2[a]
        != #[trigger] reg2[b] by {
        if a != window && b != window {
            assert(reg[a] != reg[b]);
        }
    }
}

/// Unframing a registered client preserves the client-frame bijection,
/// shrunk by the removed entry.
pub proof fn lemma_unframe_preserves_bijection(
    reg: Map<WindowId, WindowId>,
    s: DisplayState,
    window: WindowId,
    root: WindowId,
)
    requires
        frames_consistent(reg, s, root),
        registry_injective(reg),
        reg.dom().contains(window),
    ensures
        frames_consistent(
            reg.remove(window),
            apply_all(s, unframe_commands(window, reg[window], root)),
            root,
        ),
        registry_injective(reg.remove(window)),
{
    let frame = reg[window];
    lemma_unframe_commands_effect(s, window, frame, root);
    let t = apply_all(s, unframe_commands(window, frame, root));
    let reg2 = reg.remove(window);
    assert forall|w: WindowId| #[trigger] reg2.dom().contains(w) implies {
        &&& t.windows.dom().contains(w)
        &&& t.windows.dom().contains(reg2[w])
        &&& t.windows[w].parent == reg2[w]
        &&& t.windows[reg2[w]].parent == root
        &&& reg2[w] != w
        &&& reg2[w] != root
        &&& !reg2.dom().contains(reg2[w])
    } by {
        assert(reg.dom().contains(w));
        assert(w != frame);
        assert(reg[w] != frame);
        assert(reg[w] != window);
        assert(s.windows[w].parent == reg[w]);
        assert(t.windows[w] == s.windows[w]);
        assert(t.windows[reg[w]] == s.windows[reg[w]]);
    }
}

/// Commands that leave the window tree alone: everything but creating,
/// reparenting and destroying a window.
pub open spec fn preserves_tree(c: Command) -> bool {
    match c {
        Command::CreateWindow { .. } => false,
        Command::Reparent { .. } => false,
        Command::DestroyWindow { .. } => false,
        _ => true,
    }
}

/// A sequence of tree-preserving commands changes no window's existence or
/// parent, so the client-frame bijection survives it untouched.
pub proof fn lemma_tree_preserving_commands(
    reg: Map<WindowId, WindowId>,
    s: DisplayState,
    root: WindowId,
    cmds: Seq<Command>,
)
    requires
        frames_consistent(reg, s, root),
        forall|i: int| 0 <= i < cmds.len() ==> preserves_tree(#[trigger] cmds[i]),
    ensures
        forall|w: WindowId| #[trigger]
            apply_all(s, cmds).windows.dom().contains(w) <==> s.windows.dom().contains(w),
        forall|w: WindowId|
            s.windows.dom().contains(w) ==> (#[trigger] apply_all(s, cmds).windows[w]).parent
                == s.windows[w].parent,
        frames_consistent(reg, apply_all(s, cmds), root),
    decreases cmds.len(),
{
    if cmds.len() == 0 {
    } else {
        lemma_tree_preserving_commands(reg, s, root, cmds.drop_last());
        assert(preserves_tree(cmds.last()));
    }
}

/// The configure-request response reconfigures only the target and, for a
/// registered client, its frame: the registry's bijection with the server
/// survives it untouched.
pub proof fn lemma_configure_preserves_bijection(
    reg: Map<WindowId, WindowId>,
    s: DisplayState,
    root: WindowId,
    req: ConfigureRequest,
)
    requires
        frames_consistent(reg, s, root),
    ensures
        frames_consistent(reg, apply_all(s, configure_response(reg, req)), root),
{
    let cmds = configure_response(reg, req);
    assert forall|i: int| 0 <= i < cmds.len() implies preserves_tree(#[trigger] cmds[i]) by {
        if i == 0 {
        } else {
            assert(i == 1);
        }
    }
    lemma_tree_preserving_commands(reg, s, root, cmds);
}

/// The startup sweep preserves the client-frame bijection from the empty
/// registry up: after it, every swept-in client hangs inside its frame, a
/// root child, and no frame is shared. The sweep never removes a window,
/// and every window it adds is one of the fresh frame handles.
pub proof fn lemma_sweep_preserves_bijection(
    s: DisplayState,
    list: Seq<crate::protocol::ExistingWindow>,
    root: WindowId,
    keys: KeyMap,
)
    requires
        crate::protocol::sweep_inputs_ok(list, root),
        forall|i: int|
            0 <= i < list.len() ==> s.windows.dom().contains((#[trigger] list[i]).window),
        forall|i: int|
            0 <= i < list.len() ==> !s.windows.dom().contains((#[trigger] list[i]).frame),
    ensures
        frames_consistent(
            crate::protocol::sweep_registry(list),
            apply_all(s, crate::protocol::sweep_commands(list, root, keys)),
            root,
        ),
        registry_injective(crate::protocol::sweep_registry(list)),
        forall|w: WindowId|
            s.windows.dom().contains(w) ==> apply_all(
                s,
                crate::protocol::sweep_commands(list, root, keys),
            ).windows.dom().contains(w),
        forall|w: WindowId| #[trigger]
            apply_all(s, crate::protocol::sweep_commands(list, root, keys)).windows.dom().contains(
                w,
            ) ==> s.windows.dom().contains(w) || exists|j: int|
                0 <= j < list.len() && (#[trigger] list[j]).frame == w,
    decreases list.len(),
{
    if list.len() == 0 {
    } else {
        let prev = list.drop_last();
        let last = list.last();
        let n: int = list.len() - 1;
        assert forall|i: int, j: int|
            #![trigger prev[i], prev[j]]
            0 <= i < prev.len() && 0 <= j < prev.len() implies prev[i].frame != prev[j].window && (
        i != j ==> prev[i].window != prev[j].window && prev[i].frame != prev[j].frame) by {
            assert(prev[i] == list[i]);
            assert(prev[j] == list[j]);
        }
        assert forall|i: int| 0 <= i < prev.len() implies (#[trigger] prev[i]).frame != root
            && s.windows.dom().contains(prev[i].window) && !s.windows.dom().contains(
            prev[i].frame,
        ) by {
            assert(prev[i] == list[i]);
        }
        lemma_sweep_preserves_bijection(s, prev, root, keys);
        let reg1 = crate::protocol::sweep_registry(prev);
        let cmds1 = crate::protocol::sweep_commands(prev, root, keys);
        let s1 = apply_all(s, cmds1);
        crate::protocol::lemma_sweep_registry_entries(prev);
        if crate::protocol::startup_filter_skips(last.attrs) {
            assert forall|w: WindowId| #[trigger]
                apply_all(s, crate::protocol::sweep_commands(list, root, keys)).windows.dom()
                    .contains(w) && !s.windows.dom().contains(w) implies exists|j: int|
                0 <= j < list.len() && (#[trigger] list[j]).frame == w by {
                let j = choose|j: int| 0 <= j < prev.len() && (#[trigger] prev[j]).frame == w;
                assert(list[j] == prev[j]);
            }
        } else {
            assert(!s1.windows.dom().contains(last.frame)) by {
                if s1.windows.dom().contains(last.frame) {
                    let j = choose|j: int|
                        0 <= j < prev.len() && (#[trigger] prev[j]).frame == last.frame;
                    assert(list[j] == prev[j]);
                    assert(list[j].frame != list[n].frame);
                }
            }
            assert(!reg1.dom().contains(last.window)) by {
                if reg1.dom().contains(last.window) {
                    let j = choose|j: int|
                        0 <= j < prev.len() && (#[trigger] prev[j]).window == last.window
                            && !crate::protocol::startup_filter_skips(prev[j].attrs)
                            && reg1[last.window] == prev[j].frame;
                    assert(list[j] == prev[j]);
                    assert(list[j].window != list[n].window);
                }
            }
            assert forall|w: WindowId| reg1.dom().contains(w) implies #[trigger] reg1[w]
                != last.window by {
                let j = choose|j: int|
                    0 <= j < prev.len() && (#[trigger] prev[j]).window == w
                        && !crate::protocol::startup_filter_skips(prev[j].attrs) && reg1[w]
                        == prev[j].frame;
                assert(list[j] == prev[j]);
                assert(list[j].frame != list[n].window);
            }
            assert(last.frame != last.window) by {
                assert(list[n].frame != list[n].window);
            }
            let fc = frame_commands(last.window, last.frame, root, last.geometry, keys);
            lemma_apply_all_concat(s, cmds1, fc);
            lemma_frame_preserves_bijection(
                reg1,
                s1,
                last.window,
                last.frame,
                root,
                last.geometry,
                keys,
            );
            lemma_frame_commands_effect(s1, last.window, last.frame, root, last.geometry, keys);
            let t = apply_all(s, crate::protocol::sweep_commands(list, root, keys));
            assert forall|w: WindowId| #[trigger]
                t.windows.dom().contains(w) && !s.windows.dom().contains(w) implies exists|j: int|
                0 <= j < list.len() && (#[trigger] list[j]).frame == w by {
                if w == last.frame {
                    assert(0 <= n < list.len() && list[n].frame == w);
                } else {
                    assert(s1.windows.dom().contains(w));
                    let j = choose|j: int| 0 <= j < prev.len() && (#[trigger] prev[j]).frame == w;
                    assert(list[j] == prev[j]);
                }
            }
        }
    }
}

/// A map request frames the fresh window and then maps the client; the
/// client-frame bijection, extended by the new entry, survives the whole
/// response.
pub proof fn lemma_map_request_preserves_bijection(
    reg: Map<WindowId, WindowId>,
    s: DisplayState,
    window: WindowId,
    frame: WindowId,
    root: WindowId,
    geometry: Geometry,
    keys: KeyMap,
)
    requires
        frames_consistent(reg, s, root),
        registry_injective(reg),
        s.windows.dom().contains(window),
        !s.windows.dom().contains(frame),
        !reg.dom().contains(window),
        forall|w: WindowId| reg.dom().contains(w) ==> #[trigger] reg[w] != window,
        frame != window,
        frame != root,
    ensures
        frames_consistent(
            reg.insert(window, frame),
            apply_all(
                s,
                frame_commands(window, frame, root, geometry, keys).push(
                    Command::MapWindow { window },
                ),
            ),
            root,
        ),
        registry_injective(reg.insert(window, frame)),
{
    let fc = frame_commands(window, frame, root, geometry, keys);
    let tail = seq![Command::MapWindow { window }];
    assert(fc.push(Command::MapWindow { window }) =~= fc + tail);
    lemma_apply_all_concat(s, fc, tail);
    lemma_frame_preserves_bijection(reg, s, window, frame, root, geometry, keys);
    lemma_tree_preserving_commands(reg.insert(window, frame), apply_all(s, fc), root, tail);
}

} // verus!
