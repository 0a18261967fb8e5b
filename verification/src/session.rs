//! The presenter thread's bookkeeping of its compositor session: which
//! outputs it knows, which of them carry an overlay surface, and whether the
//! overlays are shown, as a solid colour or as screensaver frames.
//!
//! The Wayland objects and requests live outside. Each operation here
//! changes the bookkeeping and lists the requests the caller then makes.

use std::collections::HashMap;

use vstd::prelude::*;

use crate::text::{chars_equal, str_chars};

verus! {

broadcast use vstd::std_specs::hash::group_hash_axioms;

/// What the session knows of one overlay surface: the size it renders at
/// (zero until the compositor configures it).
#[derive(Clone, Copy, Debug, PartialEq, Eq, Structural)]
pub struct OverlayRecord {
    pub width: u32,
    pub height: u32,
}

/// A request to the compositor that follows from a session operation.
#[derive(Clone, Copy, Debug, PartialEq, Eq, Structural)]
pub enum SessionRequest {
    /// Start the grace period during which input does not dismiss the overlays.
    ArmDismissGrace,
    /// Forget the output layouts published to renderers.
    ClearLayouts,
    /// Hide the pointer, with the serial of its last enter event.
    HidePointer(u32),
    /// Create the fullscreen overlay surface of this output.
    CreateSurface(u32),
    /// Destroy the overlay surface of this output.
    DestroySurface(u32),
}

/// The session's bookkeeping.
pub struct OverlaySession {
    /// Whether overlay surfaces can be made: the compositor and the layer
    /// shell are both bound.
    pub surfaces_supported: bool,
    pub has_compositor: bool,
    pub has_layer_shell: bool,
    /// Whether shared memory is bound, so that frame buffers can be made.
    pub shm_bound: bool,
    /// Whether a seat is bound (its pointer and keyboard report input).
    pub has_seat: bool,
    /// Outputs the compositor announced, in order.
    pub outputs: Vec<u32>,
    /// Overlay surfaces by output.
    pub overlays: HashMap<u32, OverlayRecord>,
    /// Colour shown while presenting a solid overlay.
    pub solid_color: Option<[u8; 3]>,
    /// Whether the overlays show screensaver frames.
    pub screensaver_mode: bool,
    pub visible: bool,
    /// Serial of the pointer's last enter event (0 before any).
    pub pointer_serial: u32,
}

/// The outputs, first occurrences only and in order, that have no overlay
/// in `have` and so get one when a presentation begins.
pub open spec fn created_ids(outputs: Seq<u32>, have: Set<u32>) -> Seq<u32>
    decreases outputs.len(),
{
    if outputs.len() == 0 {
        Seq::empty()
    } else {
        let prev = created_ids(outputs.drop_last(), have);
        let id = outputs.last();
        if have.contains(id) || outputs.drop_last().contains(id) {
            prev
        } else {
            prev.push(id)
        }
    }
}

/// The outputs, first occurrences only and in order, that have an overlay
/// in `have` and so lose it when the overlays are hidden.
pub open spec fn removed_ids(outputs: Seq<u32>, have: Set<u32>) -> Seq<u32>
    decreases outputs.len(),
{
    if outputs.len() == 0 {
        Seq::empty()
    } else {
        let prev = removed_ids(outputs.drop_last(), have);
        let id = outputs.last();
        if have.contains(id) && !outputs.drop_last().contains(id) {
            prev.push(id)
        } else {
            prev
        }
    }
}

/// The requests that create the surfaces of `ids`, in order.
pub open spec fn create_requests(ids: Seq<u32>) -> Seq<SessionRequest> {
    ids.map_values(|id: u32| SessionRequest::CreateSurface(id))
}

/// The requests that destroy the surfaces of `ids`, in order.
pub open spec fn destroy_requests(ids: Seq<u32>) -> Seq<SessionRequest> {
    ids.map_values(|id: u32| SessionRequest::DestroySurface(id))
}

/// The requests that begin a presentation: arm the grace period, forget the
/// layouts, hide a pointer that has entered, create the missing surfaces.
pub open spec fn begin_requests(serial: u32, created: Seq<u32>) -> Seq<SessionRequest> {
    seq![SessionRequest::ArmDismissGrace, SessionRequest::ClearLayouts] + (if serial != 0 {
        seq![SessionRequest::HidePointer(serial)]
    } else {
        Seq::empty()
    }) + create_requests(created)
}

/// The overlays once a presentation has begun: every known output has one
/// when surfaces can be made; existing overlays are kept as they are.
pub open spec fn presented_overlays(
    overlays: Map<u32, OverlayRecord>,
    outputs: Seq<u32>,
    surfaces_supported: bool,
) -> Map<u32, OverlayRecord> {
    if surfaces_supported {
        Map::new(
            |k: u32| overlays.contains_key(k) || outputs.contains(k),
            |k: u32|
                if overlays.contains_key(k) {
                    overlays[k]
                } else {
                    OverlayRecord { width: 0, height: 0 }
                },
        )
    } else {
        overlays
    }
}

proof fn lemma_created_step(outputs: Seq<u32>, have: Set<u32>, i: int)
    requires
        0 <= i < outputs.len(),
    ensures
        created_ids(outputs.take(i + 1), have) == (if have.contains(outputs[i]) || outputs.take(
            i,
        ).contains(outputs[i]) {
            created_ids(outputs.take(i), have)
        } else {
            created_ids(outputs.take(i), have).push(outputs[i])
        }),
{
    assert(outputs.take(i + 1).drop_last() =~= outputs.take(i));
}

proof fn lemma_removed_step(outputs: Seq<u32>, have: Set<u32>, i: int)
    requires
        0 <= i < outputs.len(),
    ensures
        removed_ids(outputs.take(i + 1), have) == (if have.contains(outputs[i]) && !outputs.take(
            i,
        ).contains(outputs[i]) {
            removed_ids(outputs.take(i), have).push(outputs[i])
        } else {
            removed_ids(outputs.take(i), have)
        }),
{
    assert(outputs.take(i + 1).drop_last() =~= outputs.take(i));
}

proof fn lemma_take_contains_step(outputs: Seq<u32>, i: int, k: u32)
    requires
        0 <= i < outputs.len(),
    ensures
        outputs.take(i + 1).contains(k) == (outputs.take(i).contains(k) || outputs[i] == k),
{
    assert(outputs.take(i + 1) =~= outputs.take(i).push(outputs[i]));
    vstd::seq_lib::lemma_seq_contains_after_push(outputs.take(i), outputs[i], k);
}

/// The globals the session binds.
#[derive(Clone, Copy, Debug, PartialEq, Eq, Structural)]
pub enum GlobalKind {
    Compositor,
    Shm,
    LayerShell,
    Output,
    Seat,
    Other,
}

/// Which global an interface name announces.
pub open spec fn global_kind_spec(interface: Seq<char>) -> GlobalKind {
    if interface == "wl_compositor"@ {
        GlobalKind::Compositor
    } else if interface == "wl_shm"@ {
        GlobalKind::Shm
    } else if interface == "zwlr_layer_shell_v1"@ {
        GlobalKind::LayerShell
    } else if interface == "wl_output"@ {
        GlobalKind::Output
    } else if interface == "wl_seat"@ {
        GlobalKind::Seat
    } else {
        GlobalKind::Other
    }
}

/// The global an interface name announces.
pub fn global_kind(interface: &str) -> (k: GlobalKind)
    ensures
        k == global_kind_spec(interface@),
{
    let v = str_chars(interface);
    if chars_equal(&v, str_chars("wl_compositor").as_slice()) {
        GlobalKind::Compositor
    } else if chars_equal(&v, str_chars("wl_shm").as_slice()) {
        GlobalKind::Shm
    } else if chars_equal(&v, str_chars("zwlr_layer_shell_v1").as_slice()) {
        GlobalKind::LayerShell
    } else if chars_equal(&v, str_chars("wl_output").as_slice()) {
        GlobalKind::Output
    } else if chars_equal(&v, str_chars("wl_seat").as_slice()) {
        GlobalKind::Seat
    } else {
        GlobalKind::Other
    }
}

impl OverlaySession {
    /// Every overlay belongs to an output the compositor announced, and
    /// surfaces can be made exactly when both globals they need are bound.
    pub open spec fn wf(&self) -> bool {
        &&& forall|k: u32| #[trigger] self.overlays@.contains_key(k) ==> self.outputs@.contains(k)
        &&& self.surfaces_supported == (self.has_compositor && self.has_layer_shell)
    }

    /// A session before the compositor announced anything: nothing shown.
    pub fn new() -> (s: Self)
        ensures
            s.wf(),
            !s.surfaces_supported,
            !s.has_compositor,
            !s.has_layer_shell,
            !s.shm_bound,
            !s.has_seat,
            s.outputs@ == Seq::<u32>::empty(),
            s.overlays@ == Map::<u32, OverlayRecord>::empty(),
            s.solid_color is None,
            !s.screensaver_mode,
            !s.visible,
            s.pointer_serial == 0,
    {
        OverlaySession {
            surfaces_supported: false,
            has_compositor: false,
            has_layer_shell: false,
            shm_bound: false,
            has_seat: false,
            outputs: Vec::new(),
            overlays: HashMap::new(),
            solid_color: None,
            screensaver_mode: false,
            visible: false,
            pointer_serial: 0,
        }
    }

    /// Bookkeeping after the compositor announced global `name` with
    /// `interface`: the compositor, shared memory and the layer shell are
    /// bound, an output is remembered by its name, the first seat is bound;
    /// other interfaces are ignored.
    pub fn global_announced(&mut self, interface: &str, name: u32)
        requires
            old(self).wf(),
        ensures
            final(self).wf(),
            ({
                let kind = global_kind_spec(interface@);
                &&& final(self).has_compositor == (old(self).has_compositor || kind
                    == GlobalKind::Compositor)
                &&& final(self).has_layer_shell == (old(self).has_layer_shell || kind
                    == GlobalKind::LayerShell)
                &&& final(self).shm_bound == (old(self).shm_bound || kind == GlobalKind::Shm)
                &&& final(self).has_seat == (old(self).has_seat || kind == GlobalKind::Seat)
                &&& final(self).outputs@ == (if kind == GlobalKind::Output {
                    old(self).outputs@.push(name)
                } else {
                    old(self).outputs@
                })
            }),
            final(self).overlays@ == old(self).overlays@,
            final(self).visible == old(self).visible,
            final(self).screensaver_mode == old(self).screensaver_mode,
            final(self).solid_color == old(self).solid_color,
            final(self).pointer_serial == old(self).pointer_serial,
    {
        match global_kind(interface) {
            GlobalKind::Compositor => {
                self.has_compositor = true;
            },
            GlobalKind::Shm => {
                self.shm_bound = true;
            },
            GlobalKind::LayerShell => {
                self.has_layer_shell = true;
            },
            GlobalKind::Output => {
                self.outputs.push(name);
                proof {
                    assert forall|k: u32| #[trigger]
                        self.overlays@.contains_key(k) implies self.outputs@.contains(k) by {
                        let j = choose|j: int|
                            0 <= j < old(self).outputs@.len() && old(self).outputs@[j] == k;
                        assert(self.outputs@[j] == k);
                    }
                }
            },
            GlobalKind::Seat => {
                self.has_seat = true;
            },
            GlobalKind::Other => {},
        }
        self.surfaces_supported = self.has_compositor && self.has_layer_shell;
    }

    /// Give `output_id` an overlay surface, unless it has one, surfaces
    /// cannot be made, or the output is unknown. Returns whether a surface
    /// is to be created.
    pub fn create_overlay(&mut self, output_id: u32) -> (created: bool)
        requires
            old(self).wf(),
        ensures
            final(self).wf(),
            created == (old(self).surfaces_supported && old(self).outputs@.contains(output_id)
                && !old(self).overlays@.contains_key(output_id)),
            final(self).overlays@ == after_create(
                old(self).overlays@,
                old(self).outputs@,
                old(self).surfaces_supported,
                output_id,
            ),
            final(self).outputs@ == old(self).outputs@,
            final(self).visible == old(self).visible,
            final(self).screensaver_mode == old(self).screensaver_mode,
            final(self).solid_color == old(self).solid_color,
            final(self).surfaces_supported == old(self).surfaces_supported,
            final(self).shm_bound == old(self).shm_bound,
            final(self).has_compositor == old(self).has_compositor,
            final(self).has_layer_shell == old(self).has_layer_shell,
            final(self).has_seat == old(self).has_seat,
            final(self).pointer_serial == old(self).pointer_serial,
    {
        if self.overlays.contains_key(&output_id) {
            return false;
        }
        if !self.surfaces_supported {
            return false;
        }
        if !vec_contains(&self.outputs, output_id) {
            return false;
        }
        self.overlays.insert(output_id, OverlayRecord { width: 0, height: 0 });
        true
    }

    /// Show the overlays: visible, a grace period armed, layouts forgotten,
    /// the pointer hidden if it entered, and an overlay on every output.
    fn begin_presentation(&mut self) -> (requests: Vec<SessionRequest>)
        requires
            old(self).wf(),
        ensures
            final(self).wf(),
            final(self).visible,
            final(self).overlays@ == presented_overlays(
                old(self).overlays@,
                old(self).outputs@,
                old(self).surfaces_supported,
            ),
            requests@ == begin_requests(
                old(self).pointer_serial,
                if old(self).surfaces_supported {
                    created_ids(old(self).outputs@, old(self).overlays@.dom())
                } else {
                    Seq::empty()
                },
            ),
            final(self).outputs@ == old(self).outputs@,
            final(self).screensaver_mode == old(self).screensaver_mode,
            final(self).solid_color == old(self).solid_color,
            final(self).surfaces_supported == old(self).surfaces_supported,
            final(self).shm_bound == old(self).shm_bound,
            final(self).has_compositor == old(self).has_compositor,
            final(self).has_layer_shell == old(self).has_layer_shell,
            final(self).has_seat == old(self).has_seat,
            final(self).pointer_serial == old(self).pointer_serial,
    {
        self.visible = true;
        let mut requests: Vec<SessionRequest> = Vec::new();
        requests.push(SessionRequest::ArmDismissGrace);
        requests.push(SessionRequest::ClearLayouts);
        if self.pointer_serial != 0 {
            requests.push(SessionRequest::HidePointer(self.pointer_serial));
        }
        let ghost head = requests@;
        let ghost have = old(self).overlays@.dom();
        let ghost outs = old(self).outputs@;
        let mut i: usize = 0;
        while i < self.outputs.len()
            invariant
                self.wf(),
                self.outputs@ == outs,
                self.visible,
                0 <= i <= outs.len(),
                self.surfaces_supported == old(self).surfaces_supported,
                self.shm_bound == old(self).shm_bound,
                self.has_compositor == old(self).has_compositor,
                self.has_layer_shell == old(self).has_layer_shell,
                self.has_seat == old(self).has_seat,
                self.screensaver_mode == old(self).screensaver_mode,
                self.solid_color == old(self).solid_color,
                self.pointer_serial == old(self).pointer_serial,
                have == old(self).overlays@.dom(),
                head == begin_requests(old(self).pointer_serial, Seq::empty()),
                forall|k: u32|
                    #[trigger] self.overlays@.contains_key(k) <==> (have.contains(k) || (
                    self.surfaces_supported && outs.take(i as int).contains(k))),
                forall|k: u32|
                    #[trigger] self.overlays@.contains_key(k) ==> self.overlays@[k] == (
                    if have.contains(k) {
                        old(self).overlays@[k]
                    } else {
                        OverlayRecord { width: 0, height: 0 }
                    }),
                requests@ == head + (if self.surfaces_supported {
                    create_requests(created_ids(outs.take(i as int), have))
                } else {
                    Seq::empty()
                }),
            decreases outs.len() - i,
        {
            let id = self.outputs[i];
            proof {
                lemma_created_step(outs, have, i as int);
                assert forall|k: u32| #[trigger] outs.take(i + 1).contains(k) == (outs.take(
                    i as int,
                ).contains(k) || outs[i as int] == k) by {
                    lemma_take_contains_step(outs, i as int, k);
                }
                assert(outs.contains(id)) by {
                    assert(outs[i as int] == id);
                }
            }
            if self.create_overlay(id) {
                requests.push(SessionRequest::CreateSurface(id));
                proof {
                    let c = created_ids(outs.take(i as int), have);
                    assert(create_requests(c.push(id)) =~= create_requests(c).push(
                        SessionRequest::CreateSurface(id),
                    ));
                }
            }
            i = i + 1;
        }
        proof {
            assert(outs.take(outs.len() as int) =~= outs);
            assert(self.overlays@ =~= presented_overlays(
                old(self).overlays@,
                outs,
                old(self).surfaces_supported,
            ));
            if !self.surfaces_supported {
                assert(requests@ =~= begin_requests(old(self).pointer_serial, Seq::empty()));
            }
        }
        requests
    }

    /// Show `color` on every output.
    pub fn show_solid(&mut self, color: [u8; 3]) -> (requests: Vec<SessionRequest>)
        requires
            old(self).wf(),
        ensures
            final(self).wf(),
            final(self).visible,
            !final(self).screensaver_mode,
            final(self).solid_color == Some(color),
            final(self).overlays@ == presented_overlays(
                old(self).overlays@,
                old(self).outputs@,
                old(self).surfaces_supported,
            ),
            requests@ == begin_requests(
                old(self).pointer_serial,
                if old(self).surfaces_supported {
                    created_ids(old(self).outputs@, old(self).overlays@.dom())
                } else {
                    Seq::empty()
                },
            ),
            final(self).outputs@ == old(self).outputs@,
            final(self).surfaces_supported == old(self).surfaces_supported,
            final(self).shm_bound == old(self).shm_bound,
            final(self).has_compositor == old(self).has_compositor,
            final(self).has_layer_shell == old(self).has_layer_shell,
            final(self).has_seat == old(self).has_seat,
            final(self).pointer_serial == old(self).pointer_serial,
    {
        self.screensaver_mode = false;
        self.solid_color = Some(color);
        self.begin_presentation()
    }

    /// Show screensaver frames on every output.
    pub fn show_screensaver(&mut self) -> (requests: Vec<SessionRequest>)
        requires
            old(self).wf(),
        ensures
            final(self).wf(),
            final(self).visible,
            final(self).screensaver_mode,
            final(self).solid_color is None,
            final(self).overlays@ == presented_overlays(
                old(self).overlays@,
                old(self).outputs@,
                old(self).surfaces_supported,
            ),
            requests@ == begin_requests(
                old(self).pointer_serial,
                if old(self).surfaces_supported {
                    created_ids(old(self).outputs@, old(self).overlays@.dom())
                } else {
                    Seq::empty()
                },
            ),
            final(self).outputs@ == old(self).outputs@,
            final(self).surfaces_supported == old(self).surfaces_supported,
            final(self).shm_bound == old(self).shm_bound,
            final(self).has_compositor == old(self).has_compositor,
            final(self).has_layer_shell == old(self).has_layer_shell,
            final(self).has_seat == old(self).has_seat,
            final(self).pointer_serial == old(self).pointer_serial,
    {
        self.screensaver_mode = true;
        self.solid_color = None;
        self.begin_presentation()
    }

    /// Hide everything: no colour, no screensaver mode, not visible, layouts
    /// forgotten, every overlay surface destroyed.
    pub fn hide_overlays(&mut self) -> (requests: Vec<SessionRequest>)
        requires
            old(self).wf(),
        ensures
            final(self).wf(),
            !final(self).visible,
            !final(self).screensaver_mode,
            final(self).solid_color is None,
            final(self).overlays@ == Map::<u32, OverlayRecord>::empty(),
            requests@ == seq![SessionRequest::ClearLayouts] + destroy_requests(
                removed_ids(old(self).outputs@, old(self).overlays@.dom()),
            ),
            final(self).outputs@ == old(self).outputs@,
            final(self).surfaces_supported == old(self).surfaces_supported,
            final(self).shm_bound == old(self).shm_bound,
            final(self).has_compositor == old(self).has_compositor,
            final(self).has_layer_shell == old(self).has_layer_shell,
            final(self).has_seat == old(self).has_seat,
            final(self).pointer_serial == old(self).pointer_serial,
    {
        self.solid_color = None;
        self.screensaver_mode = false;
        self.visible = false;
        let mut requests: Vec<SessionRequest> = Vec::new();
        requests.push(SessionRequest::ClearLayouts);
        let ghost have = old(self).overlays@.dom();
        let ghost outs = old(self).outputs@;
        let mut i: usize = 0;
        while i < self.outputs.len()
            invariant
                self.outputs@ == outs,
                0 <= i <= outs.len(),
                self.solid_color is None,
                !self.screensaver_mode,
                !self.visible,
                self.surfaces_supported == old(self).surfaces_supported,
                self.shm_bound == old(self).shm_bound,
                self.has_compositor == old(self).has_compositor,
                self.has_layer_shell == old(self).has_layer_shell,
                self.has_seat == old(self).has_seat,
                self.pointer_serial == old(self).pointer_serial,
                have == old(self).overlays@.dom(),
                forall|k: u32| #[trigger] have.contains(k) ==> outs.contains(k),
                forall|k: u32|
                    #[trigger] self.overlays@.contains_key(k) <==> (have.contains(k) && !outs.take(
                        i as int,
                    ).contains(k)),
                requests@ == seq![SessionRequest::ClearLayouts] + destroy_requests(
                    removed_ids(outs.take(i as int), have),
                ),
            decreases outs.len() - i,
        {
            let id = self.outputs[i];
            proof {
                lemma_removed_step(outs, have, i as int);
                assert forall|k: u32| #[trigger] outs.take(i + 1).contains(k) == (outs.take(
                    i as int,
                ).contains(k) || outs[i as int] == k) by {
                    lemma_take_contains_step(outs, i as int, k);
                }
            }
            match self.overlays.remove(&id) {
                Some(_) => {
                    requests.push(SessionRequest::DestroySurface(id));
                    proof {
                        let r = removed_ids(outs.take(i as int), have);
                        assert(destroy_requests(r.push(id)) =~= destroy_requests(r).push(
                            SessionRequest::DestroySurface(id),
                        ));
                        assert(seq![SessionRequest::ClearLayouts] + destroy_requests(r).push(
                            SessionRequest::DestroySurface(id),
                        ) =~= (seq![SessionRequest::ClearLayouts] + destroy_requests(r)).push(
                            SessionRequest::DestroySurface(id),
                        ));
                    }
                },
                None => {},
            }
            i = i + 1;
        }
        proof {
            assert(outs.take(outs.len() as int) =~= outs);
            assert(self.overlays@ =~= Map::<u32, OverlayRecord>::empty());
        }
        requests
    }

    /// The layer surface of `output_id` was closed: forget its overlay.
    /// Returns whether there was one (and so a surface to destroy).
    pub fn remove_overlay(&mut self, output_id: u32) -> (removed: bool)
        requires
            old(self).wf(),
        ensures
            final(self).wf(),
            removed == old(self).overlays@.contains_key(output_id),
            final(self).overlays@ == old(self).overlays@.remove(output_id),
            final(self).outputs@ == old(self).outputs@,
            final(self).visible == old(self).visible,
            final(self).screensaver_mode == old(self).screensaver_mode,
            final(self).solid_color == old(self).solid_color,
            final(self).surfaces_supported == old(self).surfaces_supported,
            final(self).shm_bound == old(self).shm_bound,
            final(self).has_compositor == old(self).has_compositor,
            final(self).has_layer_shell == old(self).has_layer_shell,
            final(self).has_seat == old(self).has_seat,
            final(self).pointer_serial == old(self).pointer_serial,
    {
        match self.overlays.remove(&output_id) {
            Some(_) => true,
            None => false,
        }
    }

    /// The overlay of `output_id` was configured to render at
    /// `render_w x render_h`. Returns whether the output has an overlay
    /// (otherwise the configure is ignored).
    pub fn overlay_configured(&mut self, output_id: u32, render_w: u32, render_h: u32) -> (known:
        bool)
        requires
            old(self).wf(),
        ensures
            final(self).wf(),
            known == old(self).overlays@.contains_key(output_id),
            final(self).overlays@ == (if known {
                old(self).overlays@.insert(output_id, OverlayRecord { width: render_w, height: render_h })
            } else {
                old(self).overlays@
            }),
            final(self).outputs@ == old(self).outputs@,
            final(self).visible == old(self).visible,
            final(self).screensaver_mode == old(self).screensaver_mode,
            final(self).solid_color == old(self).solid_color,
            final(self).surfaces_supported == old(self).surfaces_supported,
            final(self).shm_bound == old(self).shm_bound,
            final(self).has_compositor == old(self).has_compositor,
            final(self).has_layer_shell == old(self).has_layer_shell,
            final(self).has_seat == old(self).has_seat,
            final(self).pointer_serial == old(self).pointer_serial,
    {
        if !self.overlays.contains_key(&output_id) {
            return false;
        }
        self.overlays.insert(output_id, OverlayRecord { width: render_w, height: render_h });
        true
    }

    /// Whether a screensaver frame for `output_id` is shown: only in
    /// screensaver mode, with shared memory bound, on an output that has an
    /// overlay. Other frames are dropped.
    pub fn accepts_frame(&self, output_id: u32) -> (r: bool)
        ensures
            r == (self.screensaver_mode && self.shm_bound && self.overlays@.contains_key(output_id)),
    {
        self.screensaver_mode && self.shm_bound && self.overlays.contains_key(&output_id)
    }

    /// The pointer entered a surface with `serial`: remember it, and hide
    /// the pointer while the overlays are shown.
    pub fn pointer_entered(&mut self, serial: u32) -> (hide_with: Option<u32>)
        requires
            old(self).wf(),
        ensures
            final(self).wf(),
            final(self).pointer_serial == serial,
            hide_with == (if old(self).visible {
                Some(serial)
            } else {
                None::<u32>
            }),
            final(self).overlays@ == old(self).overlays@,
            final(self).outputs@ == old(self).outputs@,
            final(self).visible == old(self).visible,
            final(self).screensaver_mode == old(self).screensaver_mode,
            final(self).solid_color == old(self).solid_color,
            final(self).surfaces_supported == old(self).surfaces_supported,
            final(self).shm_bound == old(self).shm_bound,
            final(self).has_compositor == old(self).has_compositor,
            final(self).has_layer_shell == old(self).has_layer_shell,
            final(self).has_seat == old(self).has_seat,
    {
        self.pointer_serial = serial;
        if self.visible {
            Some(serial)
        } else {
            None
        }
    }

    /// A key or button was pressed: hide everything while shown, unless the
    /// grace period after showing still runs.
    pub fn input_received(&mut self, within_grace: bool) -> (requests: Vec<SessionRequest>)
        requires
            old(self).wf(),
        ensures
            final(self).wf(),
            dismisses(old(self).visible, within_grace) ==> {
                &&& !final(self).visible
                &&& !final(self).screensaver_mode
                &&& final(self).solid_color is None
                &&& final(self).overlays@ == Map::<u32, OverlayRecord>::empty()
                &&& requests@ == seq![SessionRequest::ClearLayouts] + destroy_requests(
                    removed_ids(old(self).outputs@, old(self).overlays@.dom()),
                )
            },
            !dismisses(old(self).visible, within_grace) ==> {
                &&& requests@ == Seq::<SessionRequest>::empty()
                &&& final(self).overlays@ == old(self).overlays@
                &&& final(self).visible == old(self).visible
                &&& final(self).screensaver_mode == old(self).screensaver_mode
                &&& final(self).solid_color == old(self).solid_color
            },
            final(self).outputs@ == old(self).outputs@,
            final(self).surfaces_supported == old(self).surfaces_supported,
            final(self).shm_bound == old(self).shm_bound,
            final(self).has_compositor == old(self).has_compositor,
            final(self).has_layer_shell == old(self).has_layer_shell,
            final(self).has_seat == old(self).has_seat,
            final(self).pointer_serial == old(self).pointer_serial,
    {
        if self.visible && !within_grace {
            self.hide_overlays()
        } else {
            Vec::new()
        }
    }

    /// The pointer moved: hide it again while shown (once it has entered),
    /// then treat the motion as input (see [`OverlaySession::input_received`]).
    pub fn pointer_moved(&mut self, within_grace: bool) -> (requests: Vec<SessionRequest>)
        requires
            old(self).wf(),
        ensures
            final(self).wf(),
            ({
                let hide_pointer = if old(self).visible && old(self).pointer_serial != 0 {
                    seq![SessionRequest::HidePointer(old(self).pointer_serial)]
                } else {
                    Seq::<SessionRequest>::empty()
                };
                &&& dismisses(old(self).visible, within_grace) ==> {
                    &&& !final(self).visible
                    &&& final(self).overlays@ == Map::<u32, OverlayRecord>::empty()
                    &&& requests@ == hide_pointer + seq![SessionRequest::ClearLayouts]
                        + destroy_requests(removed_ids(old(self).outputs@, old(self).overlays@.dom()))
                }
                &&& !dismisses(old(self).visible, within_grace) ==> {
                    &&& requests@ == hide_pointer
                    &&& final(self).overlays@ == old(self).overlays@
                    &&& final(self).visible == old(self).visible
                }
            }),
            final(self).outputs@ == old(self).outputs@,
            final(self).pointer_serial == old(self).pointer_serial,
    {
        let mut requests: Vec<SessionRequest> = Vec::new();
        if self.visible && self.pointer_serial != 0 {
            requests.push(SessionRequest::HidePointer(self.pointer_serial));
        }
        let mut rest = self.input_received(within_grace);
        requests.append(&mut rest);
        requests
    }
}

/// Whether input dismisses the overlays: only while they are shown and
/// after the grace period that follows showing them.
pub open spec fn dismisses(visible: bool, within_grace: bool) -> bool {
    visible && !within_grace
}

/// The overlays after `create_overlay(output_id)`.
pub open spec fn after_create(
    overlays: Map<u32, OverlayRecord>,
    outputs: Seq<u32>,
    surfaces_supported: bool,
    output_id: u32,
) -> Map<u32, OverlayRecord> {
    if surfaces_supported && outputs.contains(output_id) && !overlays.contains_key(output_id) {
        overlays.insert(output_id, OverlayRecord { width: 0, height: 0 })
    } else {
        overlays
    }
}

/// Creating the overlay of an output twice is creating it once: the second
/// call finds the overlay and changes nothing (a configured size is kept).
pub proof fn law_create_overlay_is_idempotent(
    overlays: Map<u32, OverlayRecord>,
    outputs: Seq<u32>,
    surfaces_supported: bool,
    output_id: u32,
)
    ensures
        ({
            let once = after_create(overlays, outputs, surfaces_supported, output_id);
            after_create(once, outputs, surfaces_supported, output_id) == once
        }),
{
}

/// Once a presentation begins, every announced output has an overlay when
/// surfaces can be made, and no overlay was lost or reset.
pub proof fn law_presentation_covers_every_output(
    overlays: Map<u32, OverlayRecord>,
    outputs: Seq<u32>,
    output_id: u32,
)
    ensures
        outputs.contains(output_id) ==> presented_overlays(overlays, outputs, true).contains_key(output_id),
        overlays.contains_key(output_id) ==> presented_overlays(overlays, outputs, true).contains_key(output_id)
            && presented_overlays(overlays, outputs, true)[output_id] == overlays[output_id],
{
}

/// Whether `v` holds `x`.
fn vec_contains(v: &Vec<u32>, x: u32) -> (r: bool)
    ensures
        r == v@.contains(x),
{
    let mut i: usize = 0;
    while i < v.len()
        invariant
            0 <= i <= v@.len(),
            forall|j: int| 0 <= j < i ==> v@[j] != x,
        decreases v@.len() - i,
    {
        if v[i] == x {
            assert(v@[i as int] == x);
            return true;
        }
        i = i + 1;
    }
    false
}

} // verus!
