//! The fixed-tick scheduler that drives the rendering pipeline.
//!
//! Each tick the scheduler applies control-plane messages, fans input events
//! out to every VM, broadcasts the tick, and then runs the composition
//! phase: clear the canvas, and for each VM in profile order send
//! `RealizeColorMap` and wait on the blend barrier until that VM's blend has
//! committed, so that blends land in a deterministic order.  A barrier
//! timeout drops the frame; otherwise the composed canvas is pushed to the
//! device.
//!
//! The scheduler state here records, per VM, the full history of commands
//! sent on that VM's channel; the surrounding application forwards each
//! newly appended command over the real channel and performs the waiting,
//! sleeping and device I/O.

use vstd::prelude::*;

use crate::canvas::{spec_blend_onto, spec_cleared, spec_compose, Canvas, LayerBuffer};
use crate::events::{spec_notify_plan, Event, ObserverCall, ObserverRegistry, notify_observers};
use crate::pixel::Pixel;
use crate::util::{join_path, spec_join_path};
use crate::vm::{Command, CommandModel};

verus! {

/// A control-plane message from the front-end or the D-Bus listener.
#[derive(Clone, Debug)]
pub enum Message {
    /// Route the script at this path to VM 0.
    LoadScript(String),
    /// Replace the active profile with the one at this path.
    SwitchProfile(String),
}

/// Errors of the pipeline itself.
#[derive(Clone, Copy, Debug, PartialEq, Eq, Structural)]
pub enum MainError {
    /// A script could not be executed.
    ScriptExecError,
}

/// A named, ordered list of scripts plus parameters; exactly one profile is
/// active at any moment.
#[derive(Clone, Debug)]
pub struct Profile {
    pub name: String,
    pub active_scripts: Vec<String>,
    pub parameters: Vec<(String, String)>,
}

/// The abstract value of a `Profile`.
pub ghost struct ProfileModel {
    pub name: Seq<char>,
    pub active_scripts: Seq<Seq<char>>,
    pub parameters: Seq<(Seq<char>, Seq<char>)>,
}

impl View for Profile {
    type V = ProfileModel;

    open spec fn view(&self) -> ProfileModel {
        ProfileModel {
            name: self.name@,
            active_scripts: Seq::new(
                self.active_scripts@.len(),
                |i: int| self.active_scripts@[i]@,
            ),
            parameters: Seq::new(
                self.parameters@.len(),
                |i: int| (self.parameters@[i].0@, self.parameters@[i].1@),
            ),
        }
    }
}

impl Default for Profile {
    /// The profile substituted when no profile file could be read: named
    /// "default", with no scripts and no parameters.
    fn default() -> (p: Profile)
        ensures
            p@.name == "default"@,
            p@.active_scripts == Seq::<Seq<char>>::empty(),
            p@.parameters == Seq::<(Seq<char>, Seq<char>)>::empty(),
    {
        let p = Profile {
            name: String::from_str("default"),
            active_scripts: Vec::new(),
            parameters: Vec::new(),
        };
        proof {
            assert(p@.active_scripts =~= Seq::<Seq<char>>::empty());
            assert(p@.parameters =~= Seq::<(Seq<char>, Seq<char>)>::empty());
        }
        p
    }
}

impl Profile {
    /// An equal copy of this profile.
    pub fn duplicate(&self) -> (p: Profile)
        ensures
            p@ == self@,
    {
        let name = self.name.clone();
        let mut active_scripts: Vec<String> = Vec::new();
        let mut i: usize = 0;
        while i < self.active_scripts.len()
            invariant
                i <= self.active_scripts@.len(),
                active_scripts@.len() == i,
                forall|j: int| 0 <= j < i ==> (#[trigger] active_scripts@[j]@) == self.active_scripts@[j]@,
            decreases self.active_scripts@.len() - i,
        {
            active_scripts.push(self.active_scripts[i].clone());
            i = i + 1;
        }
        let mut parameters: Vec<(String, String)> = Vec::new();
        let mut k: usize = 0;
        while k < self.parameters.len()
            invariant
                k <= self.parameters@.len(),
                parameters@.len() == k,
                forall|j: int|
                    0 <= j < k ==> (#[trigger] parameters@[j].0@) == self.parameters@[j].0@
                        && parameters@[j].1@ == self.parameters@[j].1@,
            decreases self.parameters@.len() - k,
        {
            let pair = (self.parameters[k].0.clone(), self.parameters[k].1.clone());
            parameters.push(pair);
            k = k + 1;
        }
        let p = Profile { name, active_scripts, parameters };
        proof {
            assert(p@.active_scripts =~= self@.active_scripts);
            assert(p@.parameters =~= self@.parameters);
        }
        p
    }
}

/// A drained control-plane message, together with the file-system facts the
/// surrounding application established for it: whether the script named by
/// the message (for a profile switch: the profile's first script) and its
/// manifest were readable at drain time.
pub enum ControlRequest {
    LoadScript { path: String, script_ok: bool, manifest_ok: bool },
    SwitchProfile { profile: Profile, script_ok: bool, manifest_ok: bool },
}

/// The abstract value of a `ControlRequest`.
pub ghost enum ControlRequestModel {
    LoadScript { path: Seq<char>, script_ok: bool, manifest_ok: bool },
    SwitchProfile { profile: ProfileModel, script_ok: bool, manifest_ok: bool },
}

impl View for ControlRequest {
    type V = ControlRequestModel;

    open spec fn view(&self) -> ControlRequestModel {
        match self {
            ControlRequest::LoadScript { path, script_ok, manifest_ok } => {
                ControlRequestModel::LoadScript {
                    path: path@,
                    script_ok: *script_ok,
                    manifest_ok: *manifest_ok,
                }
            },
            ControlRequest::SwitchProfile { profile, script_ok, manifest_ok } => {
                ControlRequestModel::SwitchProfile {
                    profile: profile@,
                    script_ok: *script_ok,
                    manifest_ok: *manifest_ok,
                }
            },
        }
    }
}

impl DeepView for ControlRequest {
    type V = ControlRequestModel;

    open spec fn deep_view(&self) -> ControlRequestModel {
        self.view()
    }
}

/// The commands one control message routes to VM 0: a `LoadScript` when the
/// named script and its manifest are accessible (for a profile switch, the
/// new profile's first script resolved against the script directory), and
/// nothing otherwise.
pub open spec fn spec_control_cmds(req: ControlRequestModel, dir: Seq<char>) -> Seq<CommandModel> {
    match req {
        ControlRequestModel::LoadScript { path, script_ok, manifest_ok } => {
            if script_ok && manifest_ok {
                seq![CommandModel::LoadScript(path)]
            } else {
                Seq::empty()
            }
        },
        ControlRequestModel::SwitchProfile { profile, script_ok, manifest_ok } => {
            if profile.active_scripts.len() > 0 && script_ok && manifest_ok {
                seq![CommandModel::LoadScript(spec_join_path(dir, profile.active_scripts[0]))]
            } else {
                Seq::empty()
            }
        },
    }
}

/// The profile after one control message: a `SwitchProfile` replaces it
/// (whether or not its first script was loadable), anything else keeps it.
pub open spec fn spec_profile_upd(req: ControlRequestModel, p: ProfileModel) -> ProfileModel {
    match req {
        ControlRequestModel::SwitchProfile { profile, .. } => profile,
        _ => p,
    }
}

/// All commands a sequence of control messages routes to VM 0, in order.
pub open spec fn spec_control_sends(reqs: Seq<ControlRequestModel>, dir: Seq<char>) -> Seq<
    CommandModel,
>
    decreases reqs.len(),
{
    if reqs.len() == 0 {
        Seq::empty()
    } else {
        spec_control_sends(reqs.drop_last(), dir) + spec_control_cmds(reqs.last(), dir)
    }
}

/// The profile after a sequence of control messages.
pub open spec fn spec_profile_after(reqs: Seq<ControlRequestModel>, p: ProfileModel) -> ProfileModel
    decreases reqs.len(),
{
    if reqs.len() == 0 {
        p
    } else {
        spec_profile_upd(reqs.last(), spec_profile_after(reqs.drop_last(), p))
    }
}

/// The key commands a drained input batch broadcasts, in order; spurious
/// events (`None`) are discarded.
pub open spec fn spec_input_cmds(ins: Seq<Option<(u8, bool)>>) -> Seq<CommandModel>
    decreases ins.len(),
{
    if ins.len() == 0 {
        Seq::empty()
    } else {
        spec_input_cmds(ins.drop_last()) + match ins.last() {
            Some((index, pressed)) => seq![spec_key_cmd(index, pressed)],
            None => Seq::empty(),
        }
    }
}

/// The observer event a key event turns into.
pub open spec fn spec_key_event(index: u8, pressed: bool) -> Event {
    if pressed {
        Event::KeyDown(index)
    } else {
        Event::KeyUp(index)
    }
}

/// The observer invocations a drained input batch gives rise to: for each
/// real event, every observer exactly once, in registration order.
pub open spec fn spec_calls_plan(observers: Seq<u64>, ins: Seq<Option<(u8, bool)>>) -> Seq<
    ObserverCall,
>
    decreases ins.len(),
{
    if ins.len() == 0 {
        Seq::empty()
    } else {
        spec_calls_plan(observers, ins.drop_last()) + match ins.last() {
            Some((index, pressed)) => spec_notify_plan(observers, spec_key_event(index, pressed)),
            None => Seq::empty(),
        }
    }
}

/// What one whole tick appends to VM `j`'s channel: control routes (VM 0
/// only), then the input broadcast, then the tick, then `RealizeColorMap`
/// for the VMs the composition reached — with each later phase cut off by a
/// channel error in an earlier one.
pub open spec fn spec_tick_queue(
    q0: Seq<CommandModel>,
    j: int,
    reqs: Seq<ControlRequestModel>,
    dir: Seq<char>,
    control_error: bool,
    ins: Seq<Option<(u8, bool)>>,
    input_error: bool,
    now_ms: u64,
    m: int,
) -> Seq<CommandModel> {
    let q1 = if j == 0 {
        q0 + spec_control_sends(reqs, dir)
    } else {
        q0
    };
    if control_error {
        q1
    } else {
        let q2 = q1 + spec_input_cmds(ins);
        if input_error {
            q2
        } else {
            let q3 = q2.push(CommandModel::Tick(now_ms));
            if j < m {
                q3.push(CommandModel::RealizeColorMap)
            } else {
                q3
            }
        }
    }
}

/// What one call of `run_tick` decided.
pub struct TickOutcome {
    /// Whether the composed canvas is to be pushed to the device.
    pub send_frame: bool,
    /// Whether the main loop exits after this tick.
    pub exit: bool,
    /// How many VM blends committed this tick.
    pub blended: usize,
    /// The observer invocations to perform, in order.
    pub calls: Vec<ObserverCall>,
}

/// The scheduler-side descriptor of one VM: its identity, the script it was
/// started with, and the history of commands sent on its channel.
#[derive(Clone, Debug)]
pub struct VmHandle {
    pub id: u64,
    pub script_path: String,
    pub sent: Vec<Command>,
}

/// The abstract value of a `VmHandle`.
pub ghost struct VmHandleModel {
    pub id: u64,
    pub script_path: Seq<char>,
    pub sent: Seq<CommandModel>,
}

impl View for VmHandle {
    type V = VmHandleModel;

    open spec fn view(&self) -> VmHandleModel {
        VmHandleModel { id: self.id, script_path: self.script_path@, sent: self.sent.deep_view() }
    }
}

/// One VM's answer to `RealizeColorMap` within the blend timeout: either the
/// layer it blended, or nothing in time.
pub enum BlendResponse {
    Blended(LayerBuffer),
    TimedOut,
}

/// The abstract value of a `BlendResponse`.
pub ghost enum BlendResponseModel {
    Blended(Seq<Pixel>),
    TimedOut,
}

impl View for BlendResponse {
    type V = BlendResponseModel;

    open spec fn view(&self) -> BlendResponseModel {
        match self {
            BlendResponse::Blended(l) => BlendResponseModel::Blended(l.pixels@),
            BlendResponse::TimedOut => BlendResponseModel::TimedOut,
        }
    }
}

impl DeepView for BlendResponse {
    type V = BlendResponseModel;

    open spec fn deep_view(&self) -> BlendResponseModel {
        self.view()
    }
}

/// The layer carried by a blend response; empty when the VM timed out.
pub open spec fn spec_layer_of(r: BlendResponseModel) -> Seq<Pixel> {
    match r {
        BlendResponseModel::Blended(l) => l,
        BlendResponseModel::TimedOut => Seq::empty(),
    }
}

/// The first `k` layers of a response sequence.
pub open spec fn spec_layers_prefix(rs: Seq<BlendResponseModel>, k: int) -> Seq<Seq<Pixel>> {
    Seq::new(k as nat, |i: int| spec_layer_of(rs[i]))
}

/// The command a key event turns into.
pub open spec fn spec_key_cmd(index: u8, pressed: bool) -> CommandModel {
    if pressed {
        CommandModel::KeyDown(index)
    } else {
        CommandModel::KeyUp(index)
    }
}

/// The arguments of the `Tick` commands in a channel history, in send order.
pub open spec fn spec_tick_args(q: Seq<CommandModel>) -> Seq<u64>
    decreases q.len(),
{
    if q.len() == 0 {
        Seq::empty()
    } else {
        let rest = spec_tick_args(q.drop_last());
        match q.last() {
            CommandModel::Tick(ms) => rest.push(ms),
            _ => rest,
        }
    }
}

/// A sequence that never decreases.
pub open spec fn non_decreasing(s: Seq<u64>) -> bool {
    forall|i: int, j: int| 0 <= i <= j < s.len() ==> s[i] <= s[j]
}

/// Appending one command extends the tick argument list exactly when the
/// command is a `Tick`.
pub proof fn lemma_tick_args_push(q: Seq<CommandModel>, c: CommandModel)
    ensures
        spec_tick_args(q.push(c)) == match c {
            CommandModel::Tick(ms) => spec_tick_args(q).push(ms),
            _ => spec_tick_args(q),
        },
{
    assert(q.push(c).drop_last() =~= q);
    assert(q.push(c).last() == c);
}

/// A channel history whose tick arguments are non-decreasing and bounded by
/// the scheduler's clock.
pub open spec fn queue_ticks_ok(q: Seq<CommandModel>, last: u64) -> bool {
    &&& non_decreasing(spec_tick_args(q))
    &&& forall|k: int| 0 <= k < spec_tick_args(q).len() ==> spec_tick_args(q)[k] <= last
}

/// The scheduler: VM bank, shared canvas, active profile, clocks and the
/// blend barrier.
pub struct Scheduler {
    /// One descriptor per running VM, in profile order.
    pub vms: Vec<VmHandle>,
    /// The shared destination canvas.
    pub canvas: Canvas,
    /// The currently active profile.
    pub active_profile: Profile,
    /// Directory the profile's script names are resolved against.
    pub script_dir: String,
    /// Monotonic count of completed loop iterations.
    pub ticks: u64,
    /// The argument of the last `Tick` broadcast.
    pub last_tick_ms: u64,
    /// The blend barrier counter: blends still outstanding this frame.
    pub pending: usize,
    /// Whether the current frame was dropped on a blend timeout.
    pub drop_frame: bool,
    /// How many frames have been pushed to the device.
    pub frames_sent: u64,
    /// Set once the scheduler has shut the VM bank down.
    pub terminated: bool,
    /// Which VMs' blends have committed this frame, in commit order.
    pub blend_log: Ghost<Seq<int>>,
}

impl Scheduler {
    /// Number of VMs.
    pub open spec fn n(&self) -> int {
        self.vms@.len() as int
    }

    /// The command history of VM `i`'s channel.
    pub open spec fn q(&self, i: int) -> Seq<CommandModel> {
        self.vms@[i]@.sent
    }

    /// The identity of VM `i`.
    pub open spec fn vm_id(&self, i: int) -> u64 {
        self.vms@[i]@.id
    }

    /// The script VM `i` was started with.
    pub open spec fn vm_script(&self, i: int) -> Seq<char> {
        self.vms@[i]@.script_path
    }

    pub open spec fn wf(&self) -> bool {
        &&& self.canvas.wf()
        &&& self.pending <= self.n()
        &&& forall|i: int|
            0 <= i < self.n() ==> queue_ticks_ok(#[trigger] self.q(i), self.last_tick_ms)
    }

    /// VM identities and script paths of `b` match `a`: VMs are neither
    /// created, destroyed nor renamed by per-tick work.
    pub open spec fn same_vm_bank(a: &Scheduler, b: &Scheduler) -> bool {
        &&& a.n() == b.n()
        &&& forall|i: int| 0 <= i < a.n() ==> (#[trigger] b.vm_id(i)) == a.vm_id(i)
        &&& forall|i: int| 0 <= i < a.n() ==> (#[trigger] b.vm_script(i)) == a.vm_script(i)
    }

    /// All parts of the state not touched by channel sends are equal.
    pub open spec fn same_frame_state(a: &Scheduler, b: &Scheduler) -> bool {
        &&& b.canvas == a.canvas
        &&& b.active_profile == a.active_profile
        &&& b.script_dir == a.script_dir
        &&& b.ticks == a.ticks
        &&& b.last_tick_ms == a.last_tick_ms
        &&& b.pending == a.pending
        &&& b.drop_frame == a.drop_frame
        &&& b.frames_sent == a.frames_sent
        &&& b.terminated == a.terminated
        &&& b.blend_log == a.blend_log
    }

    /// Two states with the same VM vector agree on every per-VM observation.
    pub proof fn lemma_same_vms(a: Scheduler, b: Scheduler)
        requires
            a.vms == b.vms,
        ensures
            a.n() == b.n(),
            forall|j: int| 0 <= j < a.n() ==> (#[trigger] b.q(j)) == a.q(j),
            forall|j: int| 0 <= j < a.n() ==> (#[trigger] b.vm_id(j)) == a.vm_id(j),
            forall|j: int| 0 <= j < a.n() ==> (#[trigger] b.vm_script(j)) == a.vm_script(j),
    {
        assert forall|j: int| 0 <= j < a.n() implies (#[trigger] b.q(j)) == a.q(j) by {
            assert(b.vms@[j] == a.vms@[j]);
        }
        assert forall|j: int| 0 <= j < a.n() implies (#[trigger] b.vm_id(j)) == a.vm_id(j) by {
            assert(b.vms@[j] == a.vms@[j]);
        }
        assert forall|j: int| 0 <= j < a.n() implies (#[trigger] b.vm_script(j)) == a.vm_script(
            j,
        ) by {
            assert(b.vms@[j] == a.vms@[j]);
        }
    }

    /// Appends one command to VM `i`'s channel history and changes nothing
    /// else.
    fn send_cmd(&mut self, i: usize, cmd: Command)
        requires
            i < old(self).n(),
        ensures
            final(self).n() == old(self).n(),
            final(self).q(i as int) == old(self).q(i as int).push(cmd@),
            forall|j: int|
                0 <= j < old(self).n() && j != i ==> (#[trigger] final(self).q(j)) == old(self).q(j),
            Scheduler::same_vm_bank(old(self), final(self)),
            Scheduler::same_frame_state(old(self), final(self)),
    {
        let ghost c = cmd@;
        self.vms[i].sent.push(cmd);
        proof {
            assert(self.q(i as int) =~= old(self).q(i as int).push(c));
            assert forall|j: int| 0 <= j < old(self).n() && j != i implies (#[trigger] self.q(j))
                == old(self).q(j) by {
                assert(self.vms@[j] == old(self).vms@[j]);
            }
            assert forall|j: int| 0 <= j < old(self).n() implies (#[trigger] self.vm_id(j)) == old(
                self,
            ).vm_id(j) && (#[trigger] self.vm_script(j)) == old(self).vm_script(j) by {
                if j != i {
                    assert(self.vms@[j] == old(self).vms@[j]);
                }
            }
        }
    }

    /// A scheduler over the given scripts: one idle VM per script, in order,
    /// with identities equal to their positions, empty channels, a cleared
    /// canvas and an idle barrier.
    pub fn new(script_dir: String, active_profile: Profile, script_paths: &Vec<String>) -> (s:
        Scheduler)
        ensures
            s.wf(),
            s.n() == script_paths@.len(),
            forall|i: int| 0 <= i < s.n() ==> (#[trigger] s.vm_id(i)) == i as u64,
            forall|i: int| 0 <= i < s.n() ==> (#[trigger] s.vm_script(i)) == script_paths@[i]@,
            forall|i: int| 0 <= i < s.n() ==> (#[trigger] s.q(i)) == Seq::<CommandModel>::empty(),
            s.canvas.pixels@ == spec_cleared(),
            s.active_profile == active_profile,
            s.script_dir == script_dir,
            s.ticks == 0,
            s.last_tick_ms == 0,
            s.pending == 0,
            !s.drop_frame,
            s.frames_sent == 0,
            !s.terminated,
    {
        let mut vms: Vec<VmHandle> = Vec::new();
        let n = script_paths.len();
        let mut i: usize = 0;
        while i < n
            invariant
                i <= n,
                n == script_paths@.len(),
                vms@.len() == i,
                forall|j: int| 0 <= j < i ==> (#[trigger] vms@[j]@.id) == j as u64,
                forall|j: int| 0 <= j < i ==> (#[trigger] vms@[j]@.script_path) == script_paths@[j]@,
                forall|j: int|
                    0 <= j < i ==> (#[trigger] vms@[j]@.sent) == Seq::<CommandModel>::empty(),
            decreases n - i,
        {
            let handle = VmHandle {
                id: i as u64,
                script_path: script_paths[i].clone(),
                sent: Vec::new(),
            };
            proof {
                assert(handle@.sent =~= Seq::<CommandModel>::empty());
            }
            vms.push(handle);
            i = i + 1;
        }
        Scheduler {
            vms,
            canvas: Canvas::new(),
            active_profile,
            script_dir,
            ticks: 0,
            last_tick_ms: 0,
            pending: 0,
            drop_frame: false,
            frames_sent: 0,
            terminated: false,
            blend_log: Ghost(Seq::empty()),
        }
    }

    /// Broadcasts one key event: every VM's channel receives exactly one
    /// matching `KeyDown` or `KeyUp`.
    pub fn fan_out_input(&mut self, index: u8, pressed: bool)
        requires
            old(self).wf(),
        ensures
            final(self).wf(),
            Scheduler::same_vm_bank(old(self), final(self)),
            Scheduler::same_frame_state(old(self), final(self)),
            forall|i: int|
                0 <= i < old(self).n() ==> (#[trigger] final(self).q(i)) == old(self).q(i).push(
                    spec_key_cmd(index, pressed),
                ),
    {
        let n = self.vms.len();
        let mut i: usize = 0;
        while i < n
            invariant
                i <= n,
                n == self.n(),
                self.n() == old(self).n(),
                Scheduler::same_vm_bank(old(self), self),
                Scheduler::same_frame_state(old(self), self),
                forall|j: int|
                    0 <= j < i ==> (#[trigger] self.q(j)) == old(self).q(j).push(
                        spec_key_cmd(index, pressed),
                    ),
                forall|j: int| i <= j < n ==> (#[trigger] self.q(j)) == old(self).q(j),
            decreases n - i,
        {
            let cmd = if pressed {
                Command::KeyDown(index)
            } else {
                Command::KeyUp(index)
            };
            self.send_cmd(i, cmd);
            i = i + 1;
        }
        proof {
            assert forall|j: int| 0 <= j < self.n() implies queue_ticks_ok(
                #[trigger] self.q(j),
                self.last_tick_ms,
            ) by {
                assert(queue_ticks_ok(old(self).q(j), old(self).last_tick_ms));
                lemma_tick_args_push(old(self).q(j), spec_key_cmd(index, pressed));
            }
        }
    }

    /// Broadcasts the tick: every VM's channel receives `Tick(now_ms)`.  The
    /// clock handed in must be monotone; in return, the tick arguments on
    /// every channel are non-decreasing.
    pub fn broadcast_tick(&mut self, now_ms: u64)
        requires
            old(self).wf(),
            now_ms >= old(self).last_tick_ms,
        ensures
            final(self).wf(),
            Scheduler::same_vm_bank(old(self), final(self)),
            forall|i: int|
                0 <= i < old(self).n() ==> (#[trigger] final(self).q(i)) == old(self).q(i).push(
                    CommandModel::Tick(now_ms),
                ),
            final(self).last_tick_ms == now_ms,
            final(self).canvas == old(self).canvas,
            final(self).active_profile == old(self).active_profile,
            final(self).script_dir == old(self).script_dir,
            final(self).ticks == old(self).ticks,
            final(self).pending == old(self).pending,
            final(self).drop_frame == old(self).drop_frame,
            final(self).frames_sent == old(self).frames_sent,
            final(self).terminated == old(self).terminated,
            final(self).blend_log == old(self).blend_log,
    {
        let n = self.vms.len();
        let mut i: usize = 0;
        while i < n
            invariant
                i <= n,
                n == self.n(),
                self.n() == old(self).n(),
                Scheduler::same_vm_bank(old(self), self),
                Scheduler::same_frame_state(old(self), self),
                forall|j: int|
                    0 <= j < i ==> (#[trigger] self.q(j)) == old(self).q(j).push(
                        CommandModel::Tick(now_ms),
                    ),
                forall|j: int| i <= j < n ==> (#[trigger] self.q(j)) == old(self).q(j),
            decreases n - i,
        {
            self.send_cmd(i, Command::Tick(now_ms));
            i = i + 1;
        }
        let ghost prev = *self;
        self.last_tick_ms = now_ms;
        proof {
            Scheduler::lemma_same_vms(prev, *self);
            assert forall|j: int| 0 <= j < self.n() implies queue_ticks_ok(
                #[trigger] self.q(j),
                self.last_tick_ms,
            ) by {
                assert(queue_ticks_ok(old(self).q(j), old(self).last_tick_ms));
                assert(self.q(j) == old(self).q(j).push(CommandModel::Tick(now_ms)));
                lemma_tick_args_push(old(self).q(j), CommandModel::Tick(now_ms));
                let args0 = spec_tick_args(old(self).q(j));
                let args1 = spec_tick_args(self.q(j));
                assert(args1 == args0.push(now_ms));
                assert forall|a: int, b: int| 0 <= a <= b < args1.len() implies args1[a]
                    <= args1[b] by {
                    if b < args0.len() {
                        assert(args0[a] <= args0[b]);
                    } else {
                        if a < args0.len() {
                            assert(args0[a] <= old(self).last_tick_ms);
                        }
                    }
                }
            }
        }
    }

    /// Opens the composition phase: clears the canvas, arms the blend
    /// barrier at the number of VMs, and empties the blend log.
    pub fn begin_composition(&mut self)
        requires
            old(self).wf(),
        ensures
            final(self).wf(),
            Scheduler::same_vm_bank(old(self), final(self)),
            forall|i: int| 0 <= i < old(self).n() ==> (#[trigger] final(self).q(i)) == old(self).q(i),
            final(self).canvas.pixels@ == spec_cleared(),
            final(self).pending == final(self).n(),
            !final(self).drop_frame,
            final(self).blend_log@ == Seq::<int>::empty(),
            final(self).active_profile == old(self).active_profile,
            final(self).script_dir == old(self).script_dir,
            final(self).ticks == old(self).ticks,
            final(self).last_tick_ms == old(self).last_tick_ms,
            final(self).frames_sent == old(self).frames_sent,
            final(self).terminated == old(self).terminated,
    {
        let ghost prev = *self;
        self.canvas.clear();
        self.pending = self.vms.len();
        self.drop_frame = false;
        self.blend_log = Ghost(Seq::empty());
        proof {
            Scheduler::lemma_same_vms(prev, *self);
            assert forall|j: int| 0 <= j < self.n() implies queue_ticks_ok(
                #[trigger] self.q(j),
                self.last_tick_ms,
            ) by {
                assert(queue_ticks_ok(old(self).q(j), old(self).last_tick_ms));
                assert(self.q(j) == old(self).q(j));
            }
        }
    }

    /// Commits VM `i`'s blend onto the canvas and decrements the barrier.
    ///
    /// The barrier enforces the frame ordering: VM `i` can commit only once
    /// the counter has reached `n - i`, that is, only after the blends of
    /// all VMs before it have committed and before any VM after it begins.
    pub fn commit_blend(&mut self, i: usize, layer: &LayerBuffer)
        requires
            old(self).wf(),
            i < old(self).n(),
            old(self).pending == old(self).n() - i,
            layer.wf(),
        ensures
            final(self).wf(),
            Scheduler::same_vm_bank(old(self), final(self)),
            forall|j: int| 0 <= j < old(self).n() ==> (#[trigger] final(self).q(j)) == old(self).q(j),
            final(self).canvas.pixels@ == spec_blend_onto(old(self).canvas.pixels@, layer.pixels@),
            final(self).pending == old(self).pending - 1,
            final(self).blend_log@ == old(self).blend_log@.push(i as int),
            final(self).drop_frame == old(self).drop_frame,
            final(self).active_profile == old(self).active_profile,
            final(self).script_dir == old(self).script_dir,
            final(self).ticks == old(self).ticks,
            final(self).last_tick_ms == old(self).last_tick_ms,
            final(self).frames_sent == old(self).frames_sent,
            final(self).terminated == old(self).terminated,
    {
        let ghost prev = *self;
        self.canvas.blend_layer(layer);
        self.pending = self.pending - 1;
        self.blend_log = Ghost(self.blend_log@.push(i as int));
        proof {
            Scheduler::lemma_same_vms(prev, *self);
            assert forall|j: int| 0 <= j < self.n() implies queue_ticks_ok(
                #[trigger] self.q(j),
                self.last_tick_ms,
            ) by {
                assert(queue_ticks_ok(old(self).q(j), old(self).last_tick_ms));
                assert(self.q(j) == old(self).q(j));
            }
        }
    }

    /// Runs the whole composition phase against the VMs' blend responses:
    /// clear, then for each VM in order send `RealizeColorMap` and commit
    /// its blend, stopping at the first VM that times out.
    ///
    /// Returns how many blends committed.  The composed canvas is a function
    /// of the committed layers and their order alone — in particular it does
    /// not depend on what the canvas held before, so a frame after any run
    /// of dropped frames carries no stale contents.
    pub fn compose_frame(&mut self, responses: &Vec<BlendResponse>) -> (blended: usize)
        requires
            old(self).wf(),
            responses@.len() == old(self).n(),
            forall|i: int|
                0 <= i < responses@.len() ==> ((#[trigger] responses@[i]@) is Blended
                    ==> spec_layer_of(responses@[i]@).len() == crate::NUM_KEYS),
        ensures
            final(self).wf(),
            Scheduler::same_vm_bank(old(self), final(self)),
            blended <= old(self).n(),
            forall|j: int| 0 <= j < blended ==> !((#[trigger] responses@[j]@) is TimedOut),
            blended < old(self).n() ==> responses@[blended as int]@ is TimedOut,
            final(self).drop_frame == (blended < old(self).n()),
            final(self).canvas.pixels@ == spec_compose(
                spec_layers_prefix(responses.deep_view(), blended as int),
            ),
            final(self).pending == old(self).n() - blended,
            final(self).blend_log@ == Seq::new(blended as nat, |i: int| i),
            forall|j: int|
                0 <= j < old(self).n() ==> (#[trigger] final(self).q(j)) == (if j < blended + 1 && j
                    < old(self).n() {
                    old(self).q(j).push(CommandModel::RealizeColorMap)
                } else {
                    old(self).q(j)
                }),
            final(self).active_profile == old(self).active_profile,
            final(self).script_dir == old(self).script_dir,
            final(self).ticks == old(self).ticks,
            final(self).last_tick_ms == old(self).last_tick_ms,
            final(self).frames_sent == old(self).frames_sent,
            final(self).terminated == old(self).terminated,
    {
        self.begin_composition();
        let n = self.vms.len();
        let ghost rs = responses.deep_view();
        proof {
            assert(self.blend_log@ =~= Seq::new(0 as nat, |k: int| k));
            assert(spec_layers_prefix(rs, 0) =~= Seq::<Seq<Pixel>>::empty());
        }
        let mut i: usize = 0;
        let mut stopped = false;
        while i < n && !stopped
            invariant
                i <= n,
                n == self.n(),
                n == old(self).n(),
                rs == responses.deep_view(),
                rs.len() == n,
                responses@.len() == n,
                forall|k: int|
                    0 <= k < rs.len() ==> ((#[trigger] rs[k]) is Blended ==> spec_layer_of(
                        rs[k],
                    ).len() == crate::NUM_KEYS),
                self.wf(),
                Scheduler::same_vm_bank(old(self), self),
                forall|j: int| 0 <= j < i ==> !((#[trigger] rs[j]) is TimedOut),
                self.canvas.pixels@ == spec_compose(spec_layers_prefix(rs, i as int)),
                self.pending == n - i,
                self.blend_log@ == Seq::new(i as nat, |k: int| k),
                !stopped ==> {
                    &&& !self.drop_frame
                    &&& forall|j: int|
                        0 <= j < n ==> (#[trigger] self.q(j)) == (if j < i {
                            old(self).q(j).push(CommandModel::RealizeColorMap)
                        } else {
                            old(self).q(j)
                        })
                },
                stopped ==> {
                    &&& i < n
                    &&& rs[i as int] is TimedOut
                    &&& self.drop_frame
                    &&& forall|j: int|
                        0 <= j < n ==> (#[trigger] self.q(j)) == (if j < i + 1 {
                            old(self).q(j).push(CommandModel::RealizeColorMap)
                        } else {
                            old(self).q(j)
                        })
                },
                self.active_profile == old(self).active_profile,
                self.script_dir == old(self).script_dir,
                self.ticks == old(self).ticks,
                self.last_tick_ms == old(self).last_tick_ms,
                self.frames_sent == old(self).frames_sent,
                self.terminated == old(self).terminated,
            decreases n - i + (if stopped {
                0int
            } else {
                1int
            }),
        {
            let ghost qs_before = *self;
            self.send_cmd(i, Command::RealizeColorMap);
            proof {
                lemma_tick_args_push(qs_before.q(i as int), CommandModel::RealizeColorMap);
                assert forall|j: int| 0 <= j < self.n() implies queue_ticks_ok(
                    #[trigger] self.q(j),
                    self.last_tick_ms,
                ) by {
                    assert(queue_ticks_ok(qs_before.q(j), qs_before.last_tick_ms));
                    lemma_tick_args_push(qs_before.q(j), CommandModel::RealizeColorMap);
                }
            }
            match &responses[i] {
                BlendResponse::Blended(layer) => {
                    proof {
                        assert(rs[i as int] == responses@[i as int].deep_view());
                        assert(rs[i as int] is Blended);
                        assert(spec_layer_of(rs[i as int]) == layer.pixels@);
                        assert(layer.wf());
                    }
                    self.commit_blend(i, layer);
                    proof {
                        assert(self.n() == old(self).n());
                        assert forall|j: int| 0 <= j < old(self).n() implies (#[trigger] self.vm_id(
                            j,
                        )) == old(self).vm_id(j) by {}
                        assert forall|j: int|
                            0 <= j < old(self).n() implies (#[trigger] self.vm_script(j)) == old(
                                self,
                            ).vm_script(j) by {}
                        assert forall|j: int| 0 <= j < self.n() implies (#[trigger] self.q(j)) == (
                        if j < i + 1 {
                            old(self).q(j).push(CommandModel::RealizeColorMap)
                        } else {
                            old(self).q(j)
                        }) by {}
                        assert(spec_layers_prefix(rs, i + 1 as int).drop_last()
                            =~= spec_layers_prefix(rs, i as int));
                        assert(spec_layers_prefix(rs, i + 1 as int).last() == spec_layer_of(
                            rs[i as int],
                        ));
                        assert(self.canvas.pixels@ == spec_compose(
                            spec_layers_prefix(rs, i + 1 as int),
                        ));
                        assert(self.blend_log@ =~= Seq::new((i + 1) as nat, |k: int| k));
                    }
                    i = i + 1;
                },
                BlendResponse::TimedOut => {
                    let ghost prev = *self;
                    self.drop_frame = true;
                    stopped = true;
                    proof {
                        Scheduler::lemma_same_vms(prev, *self);
                        assert(rs[i as int] == responses@[i as int].deep_view());
                        assert(rs[i as int] is TimedOut);
                        assert(self.n() == old(self).n());
                        assert forall|j: int| 0 <= j < old(self).n() implies (#[trigger] self.q(j))
                            == (if j < i + 1 {
                            old(self).q(j).push(CommandModel::RealizeColorMap)
                        } else {
                            old(self).q(j)
                        }) by {
                            assert(self.q(j) == prev.q(j));
                        }
                        assert forall|j: int| 0 <= j < self.n() implies queue_ticks_ok(
                            #[trigger] self.q(j),
                            self.last_tick_ms,
                        ) by {
                            assert(queue_ticks_ok(prev.q(j), prev.last_tick_ms));
                            assert(self.q(j) == prev.q(j));
                        }
                    }
                },
            }
        }
        proof {
            assert forall|j: int| 0 <= j < i implies !((#[trigger] responses@[j]@) is TimedOut) by {
                assert(rs[j] == responses@[j].deep_view());
            }
            if i < n {
                assert(rs[i as int] == responses@[i as int].deep_view());
            }
        }
        i
    }

    /// Ends the scheduler's run: every VM receives exactly one `Quit(0)`, and
    /// no frame is pushed afterwards — a terminated scheduler refuses all
    /// further per-tick work.
    pub fn shutdown(&mut self)
        requires
            old(self).wf(),
            !old(self).terminated,
        ensures
            final(self).wf(),
            Scheduler::same_vm_bank(old(self), final(self)),
            forall|i: int|
                0 <= i < old(self).n() ==> (#[trigger] final(self).q(i)) == old(self).q(i).push(
                    CommandModel::Quit(0),
                ),
            final(self).terminated,
            final(self).frames_sent == old(self).frames_sent,
            final(self).canvas == old(self).canvas,
            final(self).active_profile == old(self).active_profile,
            final(self).script_dir == old(self).script_dir,
            final(self).ticks == old(self).ticks,
            final(self).last_tick_ms == old(self).last_tick_ms,
    {
        let n = self.vms.len();
        let mut i: usize = 0;
        while i < n
            invariant
                i <= n,
                n == self.n(),
                self.n() == old(self).n(),
                Scheduler::same_vm_bank(old(self), self),
                Scheduler::same_frame_state(old(self), self),
                forall|j: int|
                    0 <= j < i ==> (#[trigger] self.q(j)) == old(self).q(j).push(
                        CommandModel::Quit(0),
                    ),
                forall|j: int| i <= j < n ==> (#[trigger] self.q(j)) == old(self).q(j),
            decreases n - i,
        {
            self.send_cmd(i, Command::Quit(0));
            i = i + 1;
        }
        let ghost prev = *self;
        self.terminated = true;
        proof {
            Scheduler::lemma_same_vms(prev, *self);
            assert forall|j: int| 0 <= j < self.n() implies queue_ticks_ok(
                #[trigger] self.q(j),
                self.last_tick_ms,
            ) by {
                assert(queue_ticks_ok(old(self).q(j), old(self).last_tick_ms));
                assert(self.q(j) == old(self).q(j).push(CommandModel::Quit(0)));
                lemma_tick_args_push(old(self).q(j), CommandModel::Quit(0));
            }
        }
    }
    /// Applies one drained control-plane message: an accessible script is
    /// routed to VM 0 as a `LoadScript`; an inaccessible one changes no VM
    /// state at all.  A profile switch replaces the active profile either
    /// way.  Returns whether a load was routed.
    pub fn apply_control(&mut self, req: &ControlRequest) -> (applied: bool)
        requires
            old(self).wf(),
        ensures
            final(self).wf(),
            Scheduler::same_vm_bank(old(self), final(self)),
            old(self).n() > 0 ==> final(self).q(0) == old(self).q(0) + spec_control_cmds(
                req@,
                old(self).script_dir@,
            ),
            forall|j: int| 1 <= j < old(self).n() ==> (#[trigger] final(self).q(j)) == old(self).q(j),
            final(self).active_profile@ == spec_profile_upd(req@, old(self).active_profile@),
            applied == (spec_control_cmds(req@, old(self).script_dir@).len() > 0),
            final(self).canvas == old(self).canvas,
            final(self).script_dir == old(self).script_dir,
            final(self).ticks == old(self).ticks,
            final(self).last_tick_ms == old(self).last_tick_ms,
            final(self).pending == old(self).pending,
            final(self).drop_frame == old(self).drop_frame,
            final(self).frames_sent == old(self).frames_sent,
            final(self).terminated == old(self).terminated,
            final(self).blend_log == old(self).blend_log,
    {
        match req {
            ControlRequest::LoadScript { path, script_ok, manifest_ok } => {
                let ok = *script_ok && *manifest_ok;
                if ok {
                    if self.vms.len() > 0 {
                        self.send_cmd(0, Command::LoadScript(path.clone()));
                        proof {
                            assert forall|j: int| 0 <= j < self.n() implies queue_ticks_ok(
                                #[trigger] self.q(j),
                                self.last_tick_ms,
                            ) by {
                                assert(queue_ticks_ok(old(self).q(j), old(self).last_tick_ms));
                                if j == 0 {
                                    lemma_tick_args_push(
                                        old(self).q(0),
                                        CommandModel::LoadScript(path@),
                                    );
                                }
                            }
                            assert(self.q(0) =~= old(self).q(0) + spec_control_cmds(
                                req@,
                                old(self).script_dir@,
                            ));
                        }
                    }
                } else {
                    proof {
                        assert(self.q(0) =~= old(self).q(0) + spec_control_cmds(
                            req@,
                            old(self).script_dir@,
                        ));
                    }
                }
                ok
            },
            ControlRequest::SwitchProfile { profile, script_ok, manifest_ok } => {
                let ok = profile.active_scripts.len() > 0 && *script_ok && *manifest_ok;
                if ok {
                    if self.vms.len() > 0 {
                        let joined = join_path(
                            self.script_dir.as_str(),
                            profile.active_scripts[0].as_str(),
                        );
                        self.send_cmd(0, Command::LoadScript(joined));
                        proof {
                            assert forall|j: int| 0 <= j < self.n() implies queue_ticks_ok(
                                #[trigger] self.q(j),
                                self.last_tick_ms,
                            ) by {
                                assert(queue_ticks_ok(old(self).q(j), old(self).last_tick_ms));
                                if j == 0 {
                                    lemma_tick_args_push(
                                        old(self).q(0),
                                        CommandModel::LoadScript(
                                            spec_join_path(
                                                old(self).script_dir@,
                                                profile@.active_scripts[0],
                                            ),
                                        ),
                                    );
                                }
                            }
                            assert(self.q(0) =~= old(self).q(0) + spec_control_cmds(
                                req@,
                                old(self).script_dir@,
                            ));
                        }
                    }
                } else {
                    proof {
                        assert(self.q(0) =~= old(self).q(0) + spec_control_cmds(
                            req@,
                            old(self).script_dir@,
                        ));
                    }
                }
                let ghost mid = *self;
                self.active_profile = profile.duplicate();
                proof {
                    Scheduler::lemma_same_vms(mid, *self);
                    assert forall|j: int| 0 <= j < self.n() implies queue_ticks_ok(
                        #[trigger] self.q(j),
                        self.last_tick_ms,
                    ) by {
                        assert(queue_ticks_ok(mid.q(j), mid.last_tick_ms));
                        assert(self.q(j) == mid.q(j));
                    }
                }
                ok
            },
        }
    }

    /// One whole iteration of the main loop, against everything the outside
    /// handed it this tick: the drained control messages (with their
    /// file-system verdicts), the drained input events, the clock, the VMs'
    /// blend responses, and the quit flag as read at the end of the
    /// iteration.
    ///
    /// In order: control messages are applied, then every input event is
    /// fanned out to every VM and planned for every observer, then the tick
    /// is broadcast, then the composition phase runs.  A channel error in
    /// the control or input queues ends the loop at that point.  The frame
    /// is sent exactly when composition finished without a blend timeout.
    pub fn run_tick(
        &mut self,
        reg: &ObserverRegistry,
        controls: &Vec<ControlRequest>,
        control_error: bool,
        inputs: &Vec<Option<(u8, bool)>>,
        input_error: bool,
        now_ms: u64,
        responses: &Vec<BlendResponse>,
        quit_requested: bool,
    ) -> (out: TickOutcome)
        requires
            old(self).wf(),
            !old(self).terminated,
            now_ms >= old(self).last_tick_ms,
            responses@.len() == old(self).n(),
            forall|i: int|
                0 <= i < responses@.len() ==> ((#[trigger] responses@[i]@) is Blended
                    ==> spec_layer_of(responses@[i]@).len() == crate::NUM_KEYS),
            old(self).ticks < u64::MAX,
            old(self).frames_sent < u64::MAX,
        ensures
            final(self).wf(),
            Scheduler::same_vm_bank(old(self), final(self)),
            !final(self).terminated,
            final(self).script_dir == old(self).script_dir,
            final(self).active_profile@ == spec_profile_after(
                controls.deep_view(),
                old(self).active_profile@,
            ),
            out.exit == (control_error || input_error || quit_requested),
            out.calls@ == (if control_error {
                Seq::<ObserverCall>::empty()
            } else {
                spec_calls_plan(reg.keyboard_observers@, inputs@)
            }),
            forall|j: int|
                0 <= j < old(self).n() ==> (#[trigger] final(self).q(j)) == spec_tick_queue(
                    old(self).q(j),
                    j,
                    controls.deep_view(),
                    old(self).script_dir@,
                    control_error,
                    inputs@,
                    input_error,
                    now_ms,
                    (if out.blended < old(self).n() {
                        out.blended as int + 1
                    } else {
                        out.blended as int
                    }),
                ),
            (control_error || input_error) ==> {
                &&& !out.send_frame
                &&& out.blended == 0
                &&& final(self).canvas == old(self).canvas
                &&& final(self).frames_sent == old(self).frames_sent
                &&& final(self).ticks == old(self).ticks
                &&& final(self).last_tick_ms == old(self).last_tick_ms
                &&& final(self).drop_frame == old(self).drop_frame
            },
            (!control_error && !input_error) ==> {
                &&& out.blended <= old(self).n()
                &&& forall|j: int|
                    0 <= j < out.blended ==> !((#[trigger] responses@[j]@) is TimedOut)
                &&& out.blended < old(self).n() ==> responses@[out.blended as int]@ is TimedOut
                &&& final(self).drop_frame == (out.blended < old(self).n())
                &&& out.send_frame == !final(self).drop_frame
                &&& final(self).canvas.pixels@ == spec_compose(
                    spec_layers_prefix(responses.deep_view(), out.blended as int),
                )
                &&& final(self).frames_sent == old(self).frames_sent + (if out.send_frame {
                    1int
                } else {
                    0int
                })
                &&& final(self).ticks == old(self).ticks + 1
                &&& final(self).last_tick_ms == now_ms
            },
    {
        let ghost reqs = controls.deep_view();
        let ghost dir0 = self.script_dir@;
        let ghost s0 = *self;

        // Control-plane intake: apply every drained message in order.
        let mut ci: usize = 0;
        while ci < controls.len()
            invariant
                ci <= controls@.len(),
                reqs == controls.deep_view(),
                reqs.len() == controls@.len(),
                dir0 == s0.script_dir@,
                s0 == *old(self),
                s0.wf(),
                self.wf(),
                Scheduler::same_vm_bank(old(self), self),
                self.n() > 0 ==> self.q(0) == s0.q(0) + spec_control_sends(
                    reqs.subrange(0, ci as int),
                    dir0,
                ),
                forall|j: int| 1 <= j < self.n() ==> (#[trigger] self.q(j)) == s0.q(j),
                self.active_profile@ == spec_profile_after(
                    reqs.subrange(0, ci as int),
                    s0.active_profile@,
                ),
                self.canvas == s0.canvas,
                self.script_dir == s0.script_dir,
                self.ticks == s0.ticks,
                self.last_tick_ms == s0.last_tick_ms,
                self.pending == s0.pending,
                self.drop_frame == s0.drop_frame,
                self.frames_sent == s0.frames_sent,
                self.terminated == s0.terminated,
            decreases controls@.len() - ci,
        {
            let ghost before = *self;
            self.apply_control(&controls[ci]);
            proof {
                let prefix0 = reqs.subrange(0, ci as int);
                let prefix1 = reqs.subrange(0, ci + 1 as int);
                assert(prefix1.drop_last() =~= prefix0);
                assert(prefix1.last() == reqs[ci as int]);
                assert(reqs[ci as int] == controls@[ci as int].deep_view());
                if self.n() > 0 {
                    assert(self.q(0) == s0.q(0) + spec_control_sends(prefix0, dir0)
                        + spec_control_cmds(reqs[ci as int], dir0));
                    assert(s0.q(0) + spec_control_sends(prefix1, dir0) =~= s0.q(0)
                        + spec_control_sends(prefix0, dir0) + spec_control_cmds(
                        reqs[ci as int],
                        dir0,
                    ));
                }
            }
            ci = ci + 1;
        }
        proof {
            assert(reqs.subrange(0, reqs.len() as int) =~= reqs);
        }

        if control_error {
            // A channel error on a control queue is fatal to the loop.
            return TickOutcome { send_frame: false, exit: true, blended: 0, calls: Vec::new() };
        }

        // Input fan-out: broadcast each real event to every VM, then plan
        // the observer notifications, in order.
        let ghost s1 = *self;
        let ghost ins = inputs@;
        let mut calls: Vec<ObserverCall> = Vec::new();
        let mut ii: usize = 0;
        while ii < inputs.len()
            invariant
                ii <= ins.len(),
                ins == inputs@,
                self.wf(),
                s1.wf(),
                Scheduler::same_vm_bank(&s1, self),
                forall|j: int|
                    0 <= j < self.n() ==> (#[trigger] self.q(j)) == s1.q(j) + spec_input_cmds(
                        ins.subrange(0, ii as int),
                    ),
                calls@ == spec_calls_plan(reg.keyboard_observers@, ins.subrange(0, ii as int)),
                self.canvas == s1.canvas,
                self.active_profile == s1.active_profile,
                self.script_dir == s1.script_dir,
                self.ticks == s1.ticks,
                self.last_tick_ms == s1.last_tick_ms,
                self.pending == s1.pending,
                self.drop_frame == s1.drop_frame,
                self.frames_sent == s1.frames_sent,
                self.terminated == s1.terminated,
            decreases ins.len() - ii,
        {
            let ghost prefix0 = ins.subrange(0, ii as int);
            let ghost prefix1 = ins.subrange(0, ii + 1 as int);
            proof {
                assert(prefix1.drop_last() =~= prefix0);
                assert(prefix1.last() == ins[ii as int]);
            }
            match inputs[ii] {
                Some((index, pressed)) => {
                    let ghost before = *self;
                    self.fan_out_input(index, pressed);
                    let event = if pressed {
                        Event::KeyDown(index)
                    } else {
                        Event::KeyUp(index)
                    };
                    let mut more = notify_observers(reg, event);
                    calls.append(&mut more);
                    proof {
                        assert forall|j: int| 0 <= j < self.n() implies (#[trigger] self.q(j))
                            == s1.q(j) + spec_input_cmds(prefix1) by {
                            assert(self.q(j) == before.q(j).push(spec_key_cmd(index, pressed)));
                            assert(s1.q(j) + spec_input_cmds(prefix1) =~= (s1.q(j)
                                + spec_input_cmds(prefix0)).push(spec_key_cmd(index, pressed)));
                        }
                        assert(calls@ =~= spec_calls_plan(reg.keyboard_observers@, prefix1));
                    }
                },
                None => {
                    // A spurious event is discarded.
                    proof {
                        assert(spec_input_cmds(prefix1) =~= spec_input_cmds(prefix0));
                        assert forall|j: int| 0 <= j < self.n() implies (#[trigger] self.q(j))
                            == s1.q(j) + spec_input_cmds(prefix1) by {}
                        assert(calls@ =~= spec_calls_plan(reg.keyboard_observers@, prefix1));
                    }
                },
            }
            ii = ii + 1;
        }
        proof {
            assert(ins.subrange(0, ins.len() as int) =~= ins);
        }

        if input_error {
            // A channel error on the input queue is fatal to the loop.
            proof {
                assert forall|j: int| 0 <= j < old(self).n() implies (#[trigger] self.q(j))
                    == spec_tick_queue(
                    old(self).q(j),
                    j,
                    reqs,
                    dir0,
                    false,
                    ins,
                    true,
                    now_ms,
                    1int,
                ) by {
                    if j == 0 {
                        assert(self.q(j) == s1.q(j) + spec_input_cmds(ins));
                    }
                }
            }
            return TickOutcome { send_frame: false, exit: true, blended: 0, calls };
        }

        // Broadcast the tick, then run the composition phase.
        let ghost s2 = *self;
        self.broadcast_tick(now_ms);
        let ghost s3 = *self;
        let blended = self.compose_frame(responses);

        let ghost s4 = *self;
        let send_frame = !self.drop_frame;
        if send_frame {
            self.frames_sent = self.frames_sent + 1;
        }
        self.ticks = self.ticks + 1;
        proof {
            Scheduler::lemma_same_vms(s4, *self);
            assert forall|j: int| 0 <= j < self.n() implies queue_ticks_ok(
                #[trigger] self.q(j),
                self.last_tick_ms,
            ) by {
                assert(queue_ticks_ok(s4.q(j), s4.last_tick_ms));
                assert(self.q(j) == s4.q(j));
            }
            let m = if blended < old(self).n() {
                blended as int + 1
            } else {
                blended as int
            };
            assert forall|j: int| 0 <= j < old(self).n() implies (#[trigger] self.q(j))
                == spec_tick_queue(
                old(self).q(j),
                j,
                reqs,
                dir0,
                false,
                ins,
                false,
                now_ms,
                m,
            ) by {
                assert(self.q(j) == s4.q(j));
                assert(s4.q(j) == (if j < m {
                    s3.q(j).push(CommandModel::RealizeColorMap)
                } else {
                    s3.q(j)
                }));
                assert(s3.q(j) == s2.q(j).push(CommandModel::Tick(now_ms)));
                if j == 0 {
                    assert(s2.q(j) == s1.q(j) + spec_input_cmds(ins));
                    assert(s1.q(j) == s0.q(j) + spec_control_sends(reqs, dir0));
                } else {
                    assert(s2.q(j) == s1.q(j) + spec_input_cmds(ins));
                    assert(s1.q(j) == s0.q(j));
                }
            }
            assert(self.n() == old(self).n());
            assert forall|j: int| 0 <= j < old(self).n() implies (#[trigger] self.vm_id(j)) == old(
                self,
            ).vm_id(j) by {
                assert(self.vm_id(j) == s4.vm_id(j));
                assert(s4.vm_id(j) == s3.vm_id(j));
                assert(s3.vm_id(j) == s2.vm_id(j));
                assert(s2.vm_id(j) == s1.vm_id(j));
                assert(s1.vm_id(j) == old(self).vm_id(j));
            }
            assert forall|j: int| 0 <= j < old(self).n() implies (#[trigger] self.vm_script(j))
                == old(self).vm_script(j) by {
                assert(self.vm_script(j) == s4.vm_script(j));
                assert(s4.vm_script(j) == s3.vm_script(j));
                assert(s3.vm_script(j) == s2.vm_script(j));
                assert(s2.vm_script(j) == s1.vm_script(j));
                assert(s1.vm_script(j) == old(self).vm_script(j));
            }
        }
        TickOutcome { send_frame, exit: quit_requested, blended, calls }
    }
}

/// Tick monotonicity: on every VM's channel of a well-formed scheduler, the
/// arguments of the `Tick` commands never decrease, and none exceeds the
/// scheduler's clock.
pub proof fn lemma_tick_monotonicity(s: &Scheduler, i: int)
    requires
        s.wf(),
        0 <= i < s.n(),
    ensures
        non_decreasing(spec_tick_args(s.q(i))),
        forall|k: int|
            0 <= k < spec_tick_args(s.q(i)).len() ==> spec_tick_args(s.q(i))[k] <= s.last_tick_ms,
{
}

/// Frame ordering: the blend log left by a composition phase is strictly
/// increasing — VM `i`'s blend commits before VM `j`'s begins whenever
/// `i < j` in profile order.
pub proof fn lemma_frame_ordering(log: Seq<int>, k: nat)
    requires
        log == Seq::new(k, |i: int| i),
    ensures
        forall|a: int, b: int| 0 <= a < b < log.len() ==> log[a] < log[b],
{
}

} // verus!
