//! The script virtual machine's command state machine.
//!
//! Each VM runs on its own task, owns one layer buffer, and consumes command
//! messages from its channel.  From `Idle` it advances its clock on `Tick`,
//! mirrors key state on `KeyDown`/`KeyUp`, enters `Reloading` on
//! `LoadScript`, enters `Blending` on `RealizeColorMap`, and terminates on
//! `Quit`.  While `Blending` it composes its layer onto the shared canvas and
//! returns to `Idle`.  A failed reload is fatal to the VM.
//!
//! The transition relation is given as spec functions over the VM's abstract
//! model, and the executable steps are proved to follow it exactly.

use vstd::prelude::*;

use crate::canvas::{spec_blend_onto, spec_cleared, Canvas, LayerBuffer};
use crate::pixel::Pixel;

verus! {

/// Number of key slots in the per-VM key-state mirror (one per `u8` index).
pub const KEY_SLOTS: usize = 256;

/// A command message consumed by a VM, in the order its channel delivers them.
#[derive(Clone, Debug)]
pub enum Command {
    /// Replace the running script with the one at this path.
    LoadScript(String),
    /// A key was pressed.
    KeyDown(u8),
    /// A key was released.
    KeyUp(u8),
    /// Milliseconds since the scheduler's loop started.
    Tick(u64),
    /// Compose the VM's layer onto the shared canvas.
    RealizeColorMap,
    /// Stop the VM with this exit code.
    Quit(u32),
}

/// The abstract value of a `Command`, with the path as a character sequence.
pub ghost enum CommandModel {
    LoadScript(Seq<char>),
    KeyDown(u8),
    KeyUp(u8),
    Tick(u64),
    RealizeColorMap,
    Quit(u32),
}

impl View for Command {
    type V = CommandModel;

    open spec fn view(&self) -> CommandModel {
        match self {
            Command::LoadScript(p) => CommandModel::LoadScript(p@),
            Command::KeyDown(i) => CommandModel::KeyDown(*i),
            Command::KeyUp(i) => CommandModel::KeyUp(*i),
            Command::Tick(ms) => CommandModel::Tick(*ms),
            Command::RealizeColorMap => CommandModel::RealizeColorMap,
            Command::Quit(c) => CommandModel::Quit(*c),
        }
    }
}

impl DeepView for Command {
    type V = CommandModel;

    open spec fn deep_view(&self) -> CommandModel {
        self.view()
    }
}

/// Where a VM stands in its life cycle.
#[derive(Clone, Copy, Debug, PartialEq, Eq, Structural)]
pub enum VmState {
    /// Waiting on the command channel.
    Idle,
    /// Composing its layer onto the canvas.
    Blending,
    /// Tearing down the current script and loading another.
    Reloading,
    /// Stopped; the layer buffer has been released.
    Terminated,
}

/// What the surrounding task must do after a command was applied.
#[derive(Clone, Debug)]
pub enum VmAction {
    /// Nothing; wait for the next command.
    Continue,
    /// Blend the layer onto the canvas, then decrement the blend barrier.
    Blend,
    /// Tear down the interpreter and load the script at this path.
    Reload(String),
    /// The task ends with this exit code.
    Exit(u32),
}

/// The abstract value of a `VmAction`.
pub ghost enum VmActionModel {
    Continue,
    Blend,
    Reload(Seq<char>),
    Exit(u32),
}

impl View for VmAction {
    type V = VmActionModel;

    open spec fn view(&self) -> VmActionModel {
        match self {
            VmAction::Continue => VmActionModel::Continue,
            VmAction::Blend => VmActionModel::Blend,
            VmAction::Reload(p) => VmActionModel::Reload(p@),
            VmAction::Exit(c) => VmActionModel::Exit(*c),
        }
    }
}

/// The state a VM task carries between commands.
#[derive(Clone, Debug)]
pub struct VmCore {
    /// Path of the script this VM is running.
    pub script_path: String,
    /// Internal clock, advanced by `Tick`.
    pub time_ms: u64,
    /// Key-state mirror: `keys[i]` is true while key `i` is held.
    pub keys: Vec<bool>,
    /// This VM's working pixel sequence.
    pub layer: LayerBuffer,
    /// Life-cycle state.
    pub state: VmState,
}

/// The abstract value of a `VmCore`.
pub ghost struct VmModel {
    pub script_path: Seq<char>,
    pub time_ms: u64,
    pub keys: Seq<bool>,
    pub layer: Seq<Pixel>,
    pub state: VmState,
}

impl View for VmCore {
    type V = VmModel;

    open spec fn view(&self) -> VmModel {
        VmModel {
            script_path: self.script_path@,
            time_ms: self.time_ms,
            keys: self.keys@,
            layer: self.layer.pixels@,
            state: self.state,
        }
    }
}

impl VmModel {
    /// Well-formedness of the abstract state: full key mirror, and a layer of
    /// canvas length as long as the VM is alive.
    pub open spec fn wf(&self) -> bool {
        &&& self.keys.len() == KEY_SLOTS
        &&& (self.state is Terminated || self.layer.len() == crate::NUM_KEYS)
    }
}

/// The transition out of `Idle`: the abstract state after `cmd` and the
/// action the surrounding task performs next.
pub open spec fn spec_vm_handle(v: VmModel, cmd: CommandModel) -> (VmModel, VmActionModel) {
    match cmd {
        CommandModel::Tick(ms) => (VmModel { time_ms: ms, ..v }, VmActionModel::Continue),
        CommandModel::KeyDown(i) => (
            VmModel { keys: v.keys.update(i as int, true), ..v },
            VmActionModel::Continue,
        ),
        CommandModel::KeyUp(i) => (
            VmModel { keys: v.keys.update(i as int, false), ..v },
            VmActionModel::Continue,
        ),
        CommandModel::LoadScript(p) => (
            VmModel { state: VmState::Reloading, ..v },
            VmActionModel::Reload(p),
        ),
        CommandModel::RealizeColorMap => (
            VmModel { state: VmState::Blending, ..v },
            VmActionModel::Blend,
        ),
        CommandModel::Quit(code) => (
            VmModel { state: VmState::Terminated, layer: Seq::empty(), ..v },
            VmActionModel::Exit(code),
        ),
    }
}

/// The end of a reload: on success the VM runs the new script from `Idle`;
/// on failure the VM is terminated (a failed reload is fatal).
pub open spec fn spec_finish_reload(v: VmModel, path: Seq<char>, ok: bool) -> VmModel {
    if ok {
        VmModel { script_path: path, state: VmState::Idle, ..v }
    } else {
        VmModel { state: VmState::Terminated, layer: Seq::empty(), ..v }
    }
}

impl VmCore {
    pub open spec fn wf(&self) -> bool {
        self@.wf()
    }

    /// A fresh VM in `Idle`, running the script at `script_path`.
    pub fn new(script_path: String) -> (v: VmCore)
        ensures
            v.wf(),
            v@.state is Idle,
            v@.script_path == script_path@,
            v@.time_ms == 0,
            v@.layer == spec_cleared(),
            forall|i: int| 0 <= i < KEY_SLOTS ==> !v@.keys[i],
    {
        let mut keys: Vec<bool> = Vec::new();
        let mut i: usize = 0;
        while i < KEY_SLOTS
            invariant
                i <= KEY_SLOTS,
                keys@.len() == i,
                forall|j: int| 0 <= j < i ==> !keys@[j],
            decreases KEY_SLOTS - i,
        {
            keys.push(false);
            i = i + 1;
        }
        VmCore { script_path, time_ms: 0, keys, layer: LayerBuffer::new(), state: VmState::Idle }
    }

    /// Applies one command from the channel; follows `spec_vm_handle`.
    pub fn handle(&mut self, cmd: &Command) -> (action: VmAction)
        requires
            old(self).wf(),
            old(self)@.state is Idle,
        ensures
            final(self).wf(),
            final(self)@ == spec_vm_handle(old(self)@, cmd@).0,
            action@ == spec_vm_handle(old(self)@, cmd@).1,
    {
        match cmd {
            Command::Tick(ms) => {
                self.time_ms = *ms;
                VmAction::Continue
            },
            Command::KeyDown(i) => {
                self.keys.set(*i as usize, true);
                VmAction::Continue
            },
            Command::KeyUp(i) => {
                self.keys.set(*i as usize, false);
                VmAction::Continue
            },
            Command::LoadScript(p) => {
                self.state = VmState::Reloading;
                VmAction::Reload(p.clone())
            },
            Command::RealizeColorMap => {
                self.state = VmState::Blending;
                VmAction::Blend
            },
            Command::Quit(code) => {
                self.state = VmState::Terminated;
                self.layer = LayerBuffer { pixels: Vec::new() };
                VmAction::Exit(*code)
            },
        }
    }

    /// Ends a reload; follows `spec_finish_reload`.
    pub fn finish_reload(&mut self, path: String, ok: bool)
        requires
            old(self).wf(),
            old(self)@.state is Reloading,
        ensures
            final(self).wf(),
            final(self)@ == spec_finish_reload(old(self)@, path@, ok),
    {
        if ok {
            self.script_path = path;
            self.state = VmState::Idle;
        } else {
            self.state = VmState::Terminated;
            self.layer = LayerBuffer { pixels: Vec::new() };
        }
    }

    /// Replaces the layer contents, as the script does while handling
    /// `RealizeColorMap`.
    pub fn write_layer(&mut self, layer: LayerBuffer)
        requires
            old(self).wf(),
            !(old(self)@.state is Terminated),
            layer.wf(),
        ensures
            final(self).wf(),
            final(self)@ == (VmModel { layer: layer.pixels@, ..old(self)@ }),
    {
        self.layer = layer;
    }

    /// The blend step: composes this VM's layer onto the shared canvas and
    /// returns to `Idle`.  The caller then decrements the blend barrier.
    pub fn blend_onto(&mut self, canvas: &mut Canvas)
        requires
            old(self).wf(),
            old(self)@.state is Blending,
            old(canvas).wf(),
        ensures
            final(self).wf(),
            final(canvas).wf(),
            final(canvas).pixels@ == spec_blend_onto(old(canvas).pixels@, old(self)@.layer),
            final(self)@ == (VmModel { state: VmState::Idle, ..old(self)@ }),
    {
        canvas.blend_layer(&self.layer);
        self.state = VmState::Idle;
    }
}

/// Reloading the script that is already running changes nothing: the same VM
/// identity continues with the same state, clock, keys and layer.
pub proof fn lemma_reload_current_script_is_noop(v: VmModel, p: Seq<char>)
    requires
        v.state is Idle,
        p == v.script_path,
    ensures
        ({
            let (reloading, action) = spec_vm_handle(v, CommandModel::LoadScript(p));
            &&& spec_finish_reload(reloading, p, true) == v
            &&& action == VmActionModel::Reload(p)
        }),
{
}

} // verus!
