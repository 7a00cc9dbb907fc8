//! The framing state engine: the client-to-frame registry and the handlers
//! that react to window-lifecycle events.
//!
//! Every handler is a pure state transition: it reads and updates the
//! registry and returns the display-protocol requests to perform, in order.
//! The caller (the unverified event loop) performs them and supplies the
//! query replies and fresh window handles that framing needs.

use vstd::prelude::*;

use crate::protocol::Command;
use crate::protocol::ConfigureRequest;
use crate::protocol::Event;
use crate::protocol::ExistingWindow;
use crate::protocol::Geometry;
use crate::protocol::KeyMap;
use crate::protocol::WindowAttributes;
use crate::protocol::WindowId;
use crate::protocol::configure_response;
use crate::protocol::frame_commands;
use crate::protocol::lemma_sweep_registry_entries;
use crate::protocol::startup_filter_skips;
use crate::protocol::sweep_commands;
use crate::protocol::sweep_inputs_ok;
use crate::protocol::sweep_registry;
use crate::protocol::unframe_commands;
use crate::protocol::unmap_registry;
use crate::protocol::unmap_response;
use std::collections::HashMap;

verus! {

broadcast use vstd::std_specs::hash::group_hash_axioms;

/// The engine refused an operation that would have corrupted the registry:
/// framing was asked for a window that already has a frame. This signals a
/// dispatcher bug, not a runtime condition, and is fatal by design.
#[derive(Clone, Copy, Debug, PartialEq, Eq, Structural)]
pub enum EngineError {
    AlreadyFramed,
}

/// What a framing call did: produced the framing request sequence, or
/// skipped the window because the startup filter excluded it.
#[derive(Debug)]
pub enum FrameOutcome {
    Framed(Vec<Command>),
    Skipped,
}

/// No two registry entries share a frame window.
pub open spec fn registry_injective(reg: Map<WindowId, WindowId>) -> bool {
    forall|a: WindowId, b: WindowId|
        reg.dom().contains(a) && reg.dom().contains(b) && a != b ==> #[trigger] reg[a]
            != #[trigger] reg[b]
}

/// The framing state engine. Owns the registry that maps each managed client
/// window to the frame window wrapping it.
pub struct WindowManager {
    root: WindowId,
    keys: KeyMap,
    clients: HashMap<WindowId, WindowId>,
}

impl View for WindowManager {
    type V = Map<WindowId, WindowId>;

    /// The registry: each managed client window mapped to its frame.
    closed spec fn view(&self) -> Map<WindowId, WindowId> {
        self.clients@
    }
}

impl WindowManager {
    /// The root window the engine manages.
    pub closed spec fn spec_root(self) -> WindowId {
        self.root
    }

    /// The keycodes the engine grabs on each client.
    pub closed spec fn spec_keys(self) -> KeyMap {
        self.keys
    }

    /// Registry well-formedness: no two clients share a frame.
    pub open spec fn wf(self) -> bool {
        registry_injective(self@)
    }

    /// `frame` is a handle the identifier generator just produced: it names
    /// neither the client, nor the root, nor any window the registry knows.
    pub open spec fn frame_id_fresh(self, window: WindowId, frame: WindowId) -> bool {
        &&& frame != window
        &&& frame != self.spec_root()
        &&& forall|k: WindowId| #[trigger] self@.dom().contains(k) ==> k != frame && self@[k] != frame
    }

    /// Whether `window` is currently registered, that is, framed.
    pub fn is_managed(&self, window: WindowId) -> (r: bool)
        ensures
            r == self@.dom().contains(window),
    {
        self.clients.contains_key(&window)
    }

    /// The frame of `window`, if it is currently registered.
    pub fn frame_of(&self, window: WindowId) -> (r: Option<WindowId>)
        ensures
            match r {
                Some(f) => self@.dom().contains(window) && f == self@[window],
                None => !self@.dom().contains(window),
            },
    {
        match self.clients.get(&window) {
            Some(f) => Some(*f),
            None => None,
        }
    }

    /// How many clients are currently registered, which equals the number
    /// of live frames.
    pub fn managed_count(&self) -> (r: usize)
        ensures
            r == self@.len(),
    {
        self.clients.len()
    }

    /// The root window, as given at construction.
    pub fn root(&self) -> (r: WindowId)
        ensures
            r == self.spec_root(),
    {
        self.root
    }

    /// A new engine for the given root window, with an empty registry. The
    /// keycodes come resolved from the keyboard layout once, at startup.
    pub fn new(root: WindowId, keys: KeyMap) -> (wm: WindowManager)
        ensures
            wm@ == Map::<WindowId, WindowId>::empty(),
            wm.spec_root() == root,
            wm.spec_keys() == keys,
            wm.wf(),
    {
        WindowManager { root, keys, clients: HashMap::new() }
    }

    /// Frame `window` inside the fresh frame handle `frame`.
    ///
    /// Refuses a window that is already registered: overwriting an entry
    /// would leak its frame, so the double call is reported as the fatal
    /// contract violation it is, never absorbed. During the startup sweep
    /// (`created_before_wm`), a window whose queried attributes show
    /// override-redirect or a non-viewable map state is skipped untouched.
    /// Otherwise the registry gains the entry and the caller receives the
    /// exact framing request sequence.
    pub fn frame_window(
        &mut self,
        window: WindowId,
        created_before_wm: bool,
        attrs: Option<WindowAttributes>,
        frame: WindowId,
        geometry: Geometry,
    ) -> (r: Result<FrameOutcome, EngineError>)
        requires
            old(self).wf(),
            old(self).frame_id_fresh(window, frame),
            created_before_wm ==> attrs is Some,
        ensures
            final(self).wf(),
            final(self).spec_root() == old(self).spec_root(),
            final(self).spec_keys() == old(self).spec_keys(),
            match r {
                Err(e) => {
                    &&& e == EngineError::AlreadyFramed
                    &&& old(self)@.dom().contains(window)
                    &&& final(self)@ == old(self)@
                },
                Ok(FrameOutcome::Skipped) => {
                    &&& !old(self)@.dom().contains(window)
                    &&& created_before_wm
                    &&& (attrs matches Some(a) && startup_filter_skips(a))
                    &&& final(self)@ == old(self)@
                },
                Ok(FrameOutcome::Framed(cmds)) => {
                    &&& !old(self)@.dom().contains(window)
                    &&& (created_before_wm ==> (attrs matches Some(a) && !startup_filter_skips(a)))
                    &&& final(self)@ == old(self)@.insert(window, frame)
                    &&& cmds@ == frame_commands(
                        window,
                        frame,
                        old(self).spec_root(),
                        geometry,
                        old(self).spec_keys(),
                    )
                },
            },
    {
        if self.clients.contains_key(&window) {
            return Err(EngineError::AlreadyFramed);
        }
        if created_before_wm {
            let a = attrs.unwrap();
            if a.override_redirect || a.map_state != crate::protocol::MapState::Viewable {
                return Ok(FrameOutcome::Skipped);
            }
        }
        let mut cmds: Vec<Command> = Vec::new();
        cmds.push(
            Command::CreateWindow {
                window: frame,
                parent: self.root,
                x: geometry.x,
                y: geometry.y,
                width: geometry.width,
                height: geometry.height,
                border_width: crate::protocol::FRAME_BORDER_WIDTH,
            },
        );
        cmds.push(
            Command::SetDecoration {
                window: frame,
                border_pixel: crate::protocol::FRAME_BORDER_COLOR,
                background_pixel: crate::protocol::FRAME_BACKGROUND_COLOR,
            },
        );
        cmds.push(Command::SelectSubstructureEvents { window: frame });
        cmds.push(Command::AddToSaveSet { window });
        cmds.push(Command::Reparent { window, new_parent: frame, x: 0, y: 0 });
        cmds.push(Command::MapWindow { window: frame });
        self.clients.insert(window, frame);
        cmds.push(
            Command::GrabButton {
                window,
                button: crate::protocol::MOVE_BUTTON,
                modifiers: crate::protocol::GRAB_MODIFIER,
            },
        );
        cmds.push(
            Command::GrabButton {
                window,
                button: crate::protocol::RESIZE_BUTTON,
                modifiers: crate::protocol::GRAB_MODIFIER,
            },
        );
        cmds.push(
            Command::GrabKey {
                window,
                keycode: self.keys.close_keycode,
                modifiers: crate::protocol::GRAB_MODIFIER,
            },
        );
        cmds.push(
            Command::GrabKey {
                window,
                keycode: self.keys.switch_keycode,
                modifiers: crate::protocol::GRAB_MODIFIER,
            },
        );
        proof {
            assert(cmds@ =~= frame_commands(
                window,
                frame,
                old(self).spec_root(),
                geometry,
                old(self).spec_keys(),
            ));
        }
        Ok(FrameOutcome::Framed(cmds))
    }

    /// Tear the framing of `window` down and remove its registry entry.
    ///
    /// The caller must have checked that `window` is registered; the event
    /// dispatcher does so before calling.
    pub fn unframe_window(&mut self, window: WindowId) -> (cmds: Vec<Command>)
        requires
            old(self).wf(),
            old(self)@.dom().contains(window),
        ensures
            final(self).wf(),
            final(self).spec_root() == old(self).spec_root(),
            final(self).spec_keys() == old(self).spec_keys(),
            final(self)@ == old(self)@.remove(window),
            cmds@ == unframe_commands(window, old(self)@[window], old(self).spec_root()),
    {
        let frame: WindowId = match self.clients.get(&window) {
            Some(f) => *f,
            None => {
                proof {
                    assert(false);
                }
                vstd::pervasive::unreached()
            },
        };
        let mut cmds: Vec<Command> = Vec::new();
        cmds.push(Command::UnmapWindow { window: frame });
        cmds.push(Command::Reparent { window, new_parent: self.root, x: 0, y: 0 });
        cmds.push(Command::RemoveFromSaveSet { window });
        cmds.push(Command::DestroyWindow { window: frame });
        self.clients.remove(&window);
        proof {
            assert(cmds@ =~= unframe_commands(window, old(self)@[window], old(self).spec_root()));
        }
        cmds
    }

    /// Frame the windows that already existed when the manager started.
    ///
    /// The caller enumerates the root's children under an exclusive server
    /// grab (so the tree cannot change underneath), queries each child's
    /// attributes and geometry, draws a fresh frame handle for each, and
    /// hands everything in. Each child is framed in startup mode, so the
    /// filter leaves override-redirect and non-viewable windows
    /// unregistered.
    #[verifier::loop_isolation(false)]
    pub fn discover_and_frame_existing(&mut self, existing: &Vec<ExistingWindow>) -> (cmds: Vec<
        Command,
    >)
        requires
            old(self).wf(),
            old(self)@ == Map::<WindowId, WindowId>::empty(),
            sweep_inputs_ok(existing@, old(self).spec_root()),
        ensures
            final(self).wf(),
            final(self).spec_root() == old(self).spec_root(),
            final(self).spec_keys() == old(self).spec_keys(),
            final(self)@ == sweep_registry(existing@),
            cmds@ == sweep_commands(existing@, old(self).spec_root(), old(self).spec_keys()),
    {
        let mut cmds: Vec<Command> = Vec::new();
        let mut i: usize = 0;
        proof {
            assert(existing@.take(0) =~= Seq::<ExistingWindow>::empty());
        }
        while i < existing.len()
            invariant
                i <= existing.len(),
                self.wf(),
                self.spec_root() == old(self).spec_root(),
                self.spec_keys() == old(self).spec_keys(),
                self@ == sweep_registry(existing@.take(i as int)),
                cmds@ == sweep_commands(
                    existing@.take(i as int),
                    old(self).spec_root(),
                    old(self).spec_keys(),
                ),
            decreases existing.len() - i,
        {
            let e = existing[i];
            proof {
                let ghost done = existing@.take(i as int);
                lemma_sweep_registry_entries(done);
                assert forall|k: WindowId| #[trigger]
                    self@.dom().contains(k) implies k != e.frame && self@[k] != e.frame && k
                    != e.window by {
                    assert(sweep_registry(done).dom().contains(k));
                    let j = choose|j: int|
                        0 <= j < done.len() && (#[trigger] done[j]).window == k
                            && !startup_filter_skips(done[j].attrs) && sweep_registry(done)[k]
                            == done[j].frame;
                    assert(done[j] == existing@[j]);
                }
                assert(self.frame_id_fresh(e.window, e.frame));
            }
            let r = self.frame_window(e.window, true, Some(e.attrs), e.frame, e.geometry);
            match r {
                Ok(FrameOutcome::Framed(mut fc)) => {
                    cmds.append(&mut fc);
                },
                Ok(FrameOutcome::Skipped) => {},
                Err(_) => {
                    proof {
                        assert(false);
                    }
                },
            }
            proof {
                assert(existing@.take(i as int + 1).drop_last() =~= existing@.take(i as int));
                assert(existing@.take(i as int + 1).last() == existing@[i as int]);
            }
            i = i + 1;
        }
        proof {
            assert(existing@.take(existing@.len() as int) =~= existing@);
        }
        cmds
    }

    /// Handle a configure request: forward the requested geometry and
    /// stacking verbatim to the requesting window, and, when the window is
    /// registered, first to its frame too. The registry never changes.
    ///
    /// The frame receives the client's raw requested size, deliberately
    /// without border compensation: a known simplification, kept explicit
    /// rather than silently corrected.
    pub fn on_configure_request(&self, req: &ConfigureRequest) -> (cmds: Vec<Command>)
        ensures
            cmds@ == configure_response(self@, *req),
    {
        let mut cmds: Vec<Command> = Vec::new();
        match self.clients.get(&req.window) {
            Some(frame) => {
                cmds.push(
                    Command::ConfigureWindow {
                        window: *frame,
                        x: req.x,
                        y: req.y,
                        width: req.width,
                        height: req.height,
                        border_width: req.border_width,
                        sibling: req.sibling,
                        stack_mode: req.stack_mode,
                    },
                );
            },
            None => {},
        }
        cmds.push(
            Command::ConfigureWindow {
                window: req.window,
                x: req.x,
                y: req.y,
                width: req.width,
                height: req.height,
                border_width: req.border_width,
                sibling: req.sibling,
                stack_mode: req.stack_mode,
            },
        );
        proof {
            assert(cmds@ =~= configure_response(self@, *req));
        }
        cmds
    }

    /// Handle a map request: frame the window live (the startup filter does
    /// not apply, since a window asking to be mapped is neither withdrawn
    /// nor override-redirect), then map the client itself. The frame was
    /// already mapped by the framing sequence.
    pub fn on_map_request(
        &mut self,
        window: WindowId,
        frame: WindowId,
        geometry: Geometry,
    ) -> (r: Result<Vec<Command>, EngineError>)
        requires
            old(self).wf(),
            old(self).frame_id_fresh(window, frame),
        ensures
            final(self).wf(),
            final(self).spec_root() == old(self).spec_root(),
            final(self).spec_keys() == old(self).spec_keys(),
            match r {
                Err(e) => {
                    &&& e == EngineError::AlreadyFramed
                    &&& old(self)@.dom().contains(window)
                    &&& final(self)@ == old(self)@
                },
                Ok(cmds) => {
                    &&& !old(self)@.dom().contains(window)
                    &&& final(self)@ == old(self)@.insert(window, frame)
                    &&& cmds@ == frame_commands(
                        window,
                        frame,
                        old(self).spec_root(),
                        geometry,
                        old(self).spec_keys(),
                    ).push(Command::MapWindow { window })
                },
            },
    {
        match self.frame_window(window, false, None, frame, geometry) {
            Err(e) => Err(e),
            Ok(FrameOutcome::Skipped) => {
                proof {
                    assert(false);
                }
                vstd::pervasive::unreached()
            },
            Ok(FrameOutcome::Framed(mut cmds)) => {
                cmds.push(Command::MapWindow { window });
                Ok(cmds)
            },
        }
    }

    /// Handle an unmap notification: unframe the subject window, unless it
    /// is not registered (a duplicate or stale notification) or the
    /// notification's event window is the root itself (a synthetic
    /// server-side notification, never a real client unmap). The guarded
    /// cases leave the registry untouched and produce no requests.
    pub fn on_unmap_notify(&mut self, event_window: WindowId, window: WindowId) -> (cmds: Vec<
        Command,
    >)
        requires
            old(self).wf(),
        ensures
            final(self).wf(),
            final(self).spec_root() == old(self).spec_root(),
            final(self).spec_keys() == old(self).spec_keys(),
            final(self)@ == unmap_registry(old(self)@, old(self).spec_root(), event_window, window),
            cmds@ == unmap_response(old(self)@, old(self).spec_root(), event_window, window),
    {
        if !self.clients.contains_key(&window) {
            return Vec::new();
        }
        if event_window == self.root {
            return Vec::new();
        }
        self.unframe_window(window)
    }

    /// Handle a button press: recognized, and deliberately without effect.
    /// Drag tracking for move and resize is outside this engine's scope.
    pub fn on_button_press(&self) -> (cmds: Vec<Command>)
        ensures
            cmds@ == Seq::<Command>::empty(),
    {
        Vec::new()
    }

    /// Route one event to its handler, as the dispatcher loop does: a
    /// configure request, map request, unmap notification or button press is
    /// handled; every other event kind is silently discarded.
    ///
    /// The only failure is the fatal double-framing violation, reported by a
    /// map request for an already registered window; the caller decides the
    /// policy (the shell around this engine terminates).
    pub fn handle_event(&mut self, event: &Event) -> (r: Result<Vec<Command>, EngineError>)
        requires
            old(self).wf(),
            (*event matches Event::MapRequest { window, frame, .. } ==> old(self).frame_id_fresh(
                window,
                frame,
            )),
        ensures
            final(self).wf(),
            final(self).spec_root() == old(self).spec_root(),
            final(self).spec_keys() == old(self).spec_keys(),
            match *event {
                Event::ConfigureRequest(req) => {
                    &&& final(self)@ == old(self)@
                    &&& (r matches Ok(cmds) && cmds@ == configure_response(old(self)@, req))
                },
                Event::MapRequest { window, frame, geometry } => match r {
                    Err(e) => {
                        &&& e == EngineError::AlreadyFramed
                        &&& old(self)@.dom().contains(window)
                        &&& final(self)@ == old(self)@
                    },
                    Ok(cmds) => {
                        &&& !old(self)@.dom().contains(window)
                        &&& final(self)@ == old(self)@.insert(window, frame)
                        &&& cmds@ == frame_commands(
                            window,
                            frame,
                            old(self).spec_root(),
                            geometry,
                            old(self).spec_keys(),
                        ).push(Command::MapWindow { window })
                    },
                },
                Event::UnmapNotify { event_window, window } => {
                    &&& final(self)@ == unmap_registry(
                        old(self)@,
                        old(self).spec_root(),
                        event_window,
                        window,
                    )
                    &&& (r matches Ok(cmds) && cmds@ == unmap_response(
                        old(self)@,
                        old(self).spec_root(),
                        event_window,
                        window,
                    ))
                },
                Event::ButtonPress => {
                    &&& final(self)@ == old(self)@
                    &&& (r matches Ok(cmds) && cmds@ == Seq::<Command>::empty())
                },
                Event::Other => {
                    &&& final(self)@ == old(self)@
                    &&& (r matches Ok(cmds) && cmds@ == Seq::<Command>::empty())
                },
            },
    {
        match event {
            Event::ConfigureRequest(req) => Ok(self.on_configure_request(req)),
            Event::MapRequest { window, frame, geometry } => self.on_map_request(
                *window,
                *frame,
                *geometry,
            ),
            Event::UnmapNotify { event_window, window } => Ok(
                self.on_unmap_notify(*event_window, *window),
            ),
            Event::ButtonPress => Ok(self.on_button_press()),
            Event::Other => Ok(Vec::new()),
        }
    }
}

} // verus!
