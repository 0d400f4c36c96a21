use eruption::canvas::{Canvas, LayerBuffer};
use eruption::pixel::Pixel;
use eruption::vm::{Command, VmAction, VmCore, VmState};
use eruption::NUM_KEYS;

#[test]
fn tick_advances_clock() {
    let mut vm = VmCore::new("a.lua".to_string());
    let action = vm.handle(&Command::Tick(123));
    assert!(matches!(action, VmAction::Continue));
    assert_eq!(vm.time_ms, 123);
    assert_eq!(vm.state, VmState::Idle);
}

#[test]
fn key_events_mirror_key_state() {
    let mut vm = VmCore::new("a.lua".to_string());
    vm.handle(&Command::KeyDown(7));
    assert!(vm.keys[7]);
    vm.handle(&Command::KeyUp(7));
    assert!(!vm.keys[7]);
}

#[test]
fn realize_blends_layer_onto_canvas_and_returns_to_idle() {
    let mut vm = VmCore::new("a.lua".to_string());
    vm.write_layer(LayerBuffer::solid(Pixel { r: 1, g: 2, b: 3, a: 255 }));
    let action = vm.handle(&Command::RealizeColorMap);
    assert!(matches!(action, VmAction::Blend));
    assert_eq!(vm.state, VmState::Blending);
    let mut canvas = Canvas::new();
    vm.blend_onto(&mut canvas);
    assert_eq!(vm.state, VmState::Idle);
    for i in 0..NUM_KEYS {
        assert_eq!(canvas.pixels[i], Pixel { r: 1, g: 2, b: 3, a: 255 });
    }
}

#[test]
fn quit_terminates_and_releases_layer() {
    let mut vm = VmCore::new("a.lua".to_string());
    let action = vm.handle(&Command::Quit(0));
    assert!(matches!(action, VmAction::Exit(0)));
    assert_eq!(vm.state, VmState::Terminated);
    assert_eq!(vm.layer.pixels.len(), 0);
}

#[test]
fn reload_with_current_script_is_observational_noop() {
    // Loading the script a VM is already running keeps the same VM going:
    // after the reload completes, every observable part is unchanged.
    let mut vm = VmCore::new("same.lua".to_string());
    vm.handle(&Command::Tick(50));
    vm.handle(&Command::KeyDown(3));
    let before_time = vm.time_ms;
    let before_keys: Vec<bool> = vm.keys.clone();
    let action = vm.handle(&Command::LoadScript("same.lua".to_string()));
    let path = match action {
        VmAction::Reload(p) => p,
        other => panic!("unexpected action: {:?}", other),
    };
    assert_eq!(vm.state, VmState::Reloading);
    vm.finish_reload(path, true);
    assert_eq!(vm.state, VmState::Idle);
    assert_eq!(vm.script_path, "same.lua");
    assert_eq!(vm.time_ms, before_time);
    assert_eq!(vm.keys, before_keys);
}

#[test]
fn failed_reload_is_fatal_to_the_vm() {
    let mut vm = VmCore::new("a.lua".to_string());
    let action = vm.handle(&Command::LoadScript("broken.lua".to_string()));
    let path = match action {
        VmAction::Reload(p) => p,
        other => panic!("unexpected action: {:?}", other),
    };
    vm.finish_reload(path, false);
    assert_eq!(vm.state, VmState::Terminated);
}
