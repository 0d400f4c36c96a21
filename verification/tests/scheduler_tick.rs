use eruption::canvas::LayerBuffer;
use eruption::events::{register_observer, Event, EventClass, ObserverRegistry};
use eruption::pixel::Pixel;
use eruption::scheduler::{
    BlendResponse, ControlRequest, Profile, Scheduler,
};
use eruption::vm::Command;
use eruption::NUM_KEYS;

fn profile(name: &str, scripts: &[&str]) -> Profile {
    Profile {
        name: name.to_string(),
        active_scripts: scripts.iter().map(|s| s.to_string()).collect(),
        parameters: Vec::new(),
    }
}

fn scheduler_with(scripts: &[&str]) -> Scheduler {
    let paths: Vec<String> = scripts.iter().map(|s| s.to_string()).collect();
    Scheduler::new("/scripts".to_string(), profile("default", scripts), &paths)
}

fn solid(r: u8, g: u8, b: u8, a: u8) -> BlendResponse {
    BlendResponse::Blended(LayerBuffer::solid(Pixel { r, g, b, a }))
}

#[test]
fn single_solid_layer_frame() {
    // One VM paints every cell opaque red; after one tick the composed
    // canvas pushed to the device holds 144 such pixels.
    let mut sched = scheduler_with(&["solid.lua"]);
    let reg = ObserverRegistry::new();
    let out = sched.run_tick(
        &reg,
        &Vec::new(),
        false,
        &Vec::new(),
        false,
        16,
        &vec![solid(255, 0, 0, 255)],
        false,
    );
    assert!(out.send_frame);
    assert!(!out.exit);
    assert_eq!(out.blended, 1);
    assert_eq!(sched.canvas.pixels.len(), NUM_KEYS);
    for i in 0..NUM_KEYS {
        assert_eq!(sched.canvas.pixels[i], Pixel { r: 255, g: 0, b: 0, a: 255 });
    }
    assert_eq!(sched.frames_sent, 1);
    // The channel saw the tick, then the composition order.
    let sent = &sched.vms[0].sent;
    assert_eq!(sent.len(), 2);
    assert!(matches!(sent[0], Command::Tick(16)));
    assert!(matches!(sent[1], Command::RealizeColorMap));
}

#[test]
fn two_layer_blend_through_scheduler() {
    let mut sched = scheduler_with(&["a.lua", "b.lua"]);
    let reg = ObserverRegistry::new();
    let out = sched.run_tick(
        &reg,
        &Vec::new(),
        false,
        &Vec::new(),
        false,
        16,
        &vec![solid(0, 0, 255, 255), solid(255, 0, 0, 128)],
        false,
    );
    assert!(out.send_frame);
    for i in 0..NUM_KEYS {
        assert_eq!(sched.canvas.pixels[i], Pixel { r: 128, g: 0, b: 127, a: 255 });
    }
}

#[test]
fn key_event_fan_out() {
    // With two VMs and two observers, injecting (7, true) reaches every VM
    // channel as KeyDown(7) before the tick, and every observer exactly
    // once, in registration order.
    let mut sched = scheduler_with(&["a.lua", "b.lua"]);
    let mut reg = ObserverRegistry::new();
    register_observer(&mut reg, EventClass::Keyboard, 101);
    register_observer(&mut reg, EventClass::Keyboard, 202);
    let out = sched.run_tick(
        &reg,
        &Vec::new(),
        false,
        &vec![Some((7u8, true))],
        false,
        16,
        &vec![solid(0, 0, 0, 0), solid(0, 0, 0, 0)],
        false,
    );
    assert_eq!(out.calls.len(), 2);
    assert_eq!(out.calls[0].observer, 101);
    assert_eq!(out.calls[0].event, Event::KeyDown(7));
    assert_eq!(out.calls[1].observer, 202);
    assert_eq!(out.calls[1].event, Event::KeyDown(7));
    for vm in &sched.vms {
        assert_eq!(vm.sent.len(), 3);
        assert!(matches!(vm.sent[0], Command::KeyDown(7)));
        assert!(matches!(vm.sent[1], Command::Tick(16)));
        assert!(matches!(vm.sent[2], Command::RealizeColorMap));
    }
}

#[test]
fn spurious_input_event_is_ignored() {
    let mut sched = scheduler_with(&["a.lua"]);
    let mut reg = ObserverRegistry::new();
    register_observer(&mut reg, EventClass::Keyboard, 1);
    let out = sched.run_tick(
        &reg,
        &Vec::new(),
        false,
        &vec![None],
        false,
        16,
        &vec![solid(0, 0, 0, 0)],
        false,
    );
    assert_eq!(out.calls.len(), 0);
    assert_eq!(sched.vms[0].sent.len(), 2);
    assert!(matches!(sched.vms[0].sent[0], Command::Tick(16)));
}

#[test]
fn blend_timeout_drops_frame_and_recovers() {
    // The second VM misses the blend deadline: the frame is dropped and
    // nothing is pushed; the next tick with a prompt VM proceeds normally.
    let mut sched = scheduler_with(&["a.lua", "b.lua"]);
    let reg = ObserverRegistry::new();
    let out = sched.run_tick(
        &reg,
        &Vec::new(),
        false,
        &Vec::new(),
        false,
        16,
        &vec![solid(9, 9, 9, 255), BlendResponse::TimedOut],
        false,
    );
    assert!(!out.send_frame);
    assert_eq!(out.blended, 1);
    assert!(sched.drop_frame);
    assert_eq!(sched.frames_sent, 0);
    let out2 = sched.run_tick(
        &reg,
        &Vec::new(),
        false,
        &Vec::new(),
        false,
        32,
        &vec![solid(0, 0, 255, 255), solid(255, 0, 0, 128)],
        false,
    );
    assert!(out2.send_frame);
    assert_eq!(sched.frames_sent, 1);
    // No stale contents: the frame comes only from this tick's blends.
    for i in 0..NUM_KEYS {
        assert_eq!(sched.canvas.pixels[i], Pixel { r: 128, g: 0, b: 127, a: 255 });
    }
}

#[test]
fn tick_argument_is_non_decreasing() {
    let mut sched = scheduler_with(&["a.lua"]);
    let reg = ObserverRegistry::new();
    for (step, now) in [(1u64, 16u64), (2, 32), (3, 48)] {
        let out = sched.run_tick(
            &reg,
            &Vec::new(),
            false,
            &Vec::new(),
            false,
            now,
            &vec![solid(0, 0, 0, 0)],
            false,
        );
        assert!(out.send_frame);
        assert_eq!(sched.ticks, step);
    }
    let ticks: Vec<u64> = sched.vms[0]
        .sent
        .iter()
        .filter_map(|c| match c {
            Command::Tick(ms) => Some(*ms),
            _ => None,
        })
        .collect();
    assert_eq!(ticks, vec![16, 32, 48]);
}

#[test]
fn profile_switch_routes_first_script_to_vm_zero() {
    let mut sched = scheduler_with(&["x.lua"]);
    let reg = ObserverRegistry::new();
    let req = ControlRequest::SwitchProfile {
        profile: profile("B", &["y.lua"]),
        script_ok: true,
        manifest_ok: true,
    };
    let out = sched.run_tick(
        &reg,
        &vec![req],
        false,
        &Vec::new(),
        false,
        16,
        &vec![solid(0, 0, 0, 0)],
        false,
    );
    assert!(out.send_frame);
    assert_eq!(sched.active_profile.name, "B");
    assert_eq!(sched.active_profile.active_scripts, vec!["y.lua".to_string()]);
    let sent = &sched.vms[0].sent;
    assert_eq!(sent.len(), 3);
    match &sent[0] {
        Command::LoadScript(path) => assert_eq!(path, "/scripts/y.lua"),
        other => panic!("unexpected command: {:?}", other),
    }
    assert!(matches!(sent[1], Command::Tick(16)));
    assert!(matches!(sent[2], Command::RealizeColorMap));
}

#[test]
fn inaccessible_script_is_rejected_without_vm_change() {
    // A LoadScript naming an unreadable file is refused: no VM command is
    // issued and frames keep flowing.
    let mut sched = scheduler_with(&["x.lua"]);
    let reg = ObserverRegistry::new();
    let req = ControlRequest::LoadScript {
        path: "/nonexistent".to_string(),
        script_ok: false,
        manifest_ok: false,
    };
    let out = sched.run_tick(
        &reg,
        &vec![req],
        false,
        &Vec::new(),
        false,
        16,
        &vec![solid(1, 2, 3, 255)],
        false,
    );
    assert!(out.send_frame);
    assert!(!out.exit);
    let sent = &sched.vms[0].sent;
    assert_eq!(sent.len(), 2);
    assert!(matches!(sent[0], Command::Tick(16)));
    assert!(matches!(sent[1], Command::RealizeColorMap));
}

#[test]
fn accessible_load_script_reaches_vm_zero_only() {
    let mut sched = scheduler_with(&["x.lua", "z.lua"]);
    let reg = ObserverRegistry::new();
    let req = ControlRequest::LoadScript {
        path: "/scripts/new.lua".to_string(),
        script_ok: true,
        manifest_ok: true,
    };
    sched.run_tick(
        &reg,
        &vec![req],
        false,
        &Vec::new(),
        false,
        16,
        &vec![solid(0, 0, 0, 0), solid(0, 0, 0, 0)],
        false,
    );
    match &sched.vms[0].sent[0] {
        Command::LoadScript(path) => assert_eq!(path, "/scripts/new.lua"),
        other => panic!("unexpected command: {:?}", other),
    }
    assert!(matches!(sched.vms[1].sent[0], Command::Tick(16)));
}

#[test]
fn quit_flag_exits_after_tick_and_shutdown_quits_every_vm_once() {
    let mut sched = scheduler_with(&["a.lua", "b.lua"]);
    let reg = ObserverRegistry::new();
    let out = sched.run_tick(
        &reg,
        &Vec::new(),
        false,
        &Vec::new(),
        false,
        16,
        &vec![solid(0, 0, 0, 0), solid(0, 0, 0, 0)],
        true,
    );
    assert!(out.exit);
    let frames_before = sched.frames_sent;
    sched.shutdown();
    assert!(sched.terminated);
    assert_eq!(sched.frames_sent, frames_before);
    for vm in &sched.vms {
        let quits = vm
            .sent
            .iter()
            .filter(|c| matches!(c, Command::Quit(0)))
            .count();
        assert_eq!(quits, 1);
        assert!(matches!(vm.sent[vm.sent.len() - 1], Command::Quit(0)));
    }
}

#[test]
fn control_channel_error_is_fatal() {
    let mut sched = scheduler_with(&["a.lua"]);
    let reg = ObserverRegistry::new();
    let out = sched.run_tick(
        &reg,
        &Vec::new(),
        true,
        &Vec::new(),
        false,
        16,
        &vec![solid(0, 0, 0, 0)],
        false,
    );
    assert!(out.exit);
    assert!(!out.send_frame);
    assert_eq!(sched.frames_sent, 0);
    assert_eq!(sched.vms[0].sent.len(), 0);
}
