use systemd_lock_handler::coordinator::dispatch;
use systemd_lock_handler::coordinator::target_for;
use systemd_lock_handler::coordinator::Payload;
use systemd_lock_handler::coordinator::State;
use systemd_lock_handler::devices::mute_plan;
use systemd_lock_handler::devices::AudioCall;
use systemd_lock_handler::devices::Device;
use systemd_lock_handler::multiplexer::handle_signal;
use systemd_lock_handler::multiplexer::signal_member;
use systemd_lock_handler::multiplexer::watched_sources;
use systemd_lock_handler::multiplexer::Signal;
use systemd_lock_handler::units::activation_timeout_secs;
use systemd_lock_handler::units::manager_destination;
use systemd_lock_handler::units::manager_interface;
use systemd_lock_handler::units::manager_path;
use systemd_lock_handler::units::start_unit_method;
use systemd_lock_handler::units::start_unit_mode;
use systemd_lock_handler::units::unit_name;
use systemd_lock_handler::units::Target;

#[test]
fn mute_plan_skips_already_muted() {
    let devices = vec![
        Device { index: 4, mute: true },
        Device { index: 7, mute: false },
        Device { index: 9, mute: true },
        Device { index: 11, mute: false },
    ];
    let plan = mute_plan(&devices);
    assert_eq!(plan, vec![7, 11]);
    for d in &devices {
        if d.mute {
            assert!(!plan.contains(&d.index));
        } else {
            assert!(plan.contains(&d.index));
        }
    }
}

#[test]
fn mute_plan_keeps_enumeration_order() {
    let devices = vec![
        Device { index: 3, mute: false },
        Device { index: 1, mute: false },
        Device { index: 2, mute: false },
    ];
    assert_eq!(mute_plan(&devices), vec![3, 1, 2]);
}

#[test]
fn mute_plan_of_empty_enumeration_is_empty() {
    let devices: Vec<Device> = Vec::new();
    assert_eq!(mute_plan(&devices), Vec::<u32>::new());
}

#[test]
fn lock_event_mutes_unmuted_devices_and_remembers_them() {
    let devices = vec![
        Device { index: 1, mute: false },
        Device { index: 2, mute: true },
        Device { index: 3, mute: false },
    ];
    let mut state = State::new();
    let audio = dispatch(&mut state, &devices, &Payload::Event(true), true);
    assert_eq!(audio, vec![AudioCall::Mute(1), AudioCall::Mute(3)]);
    assert_eq!(state.muted_devices, vec![1, 3]);
}

#[test]
fn unlock_event_unmutes_exactly_the_remembered_devices() {
    let devices = vec![
        Device { index: 1, mute: true },
        Device { index: 2, mute: true },
        Device { index: 3, mute: true },
    ];
    let mut state = State::new();
    state.muted_devices = vec![1, 3];
    let audio = dispatch(&mut state, &devices, &Payload::Event(false), true);
    assert_eq!(audio, vec![AudioCall::Unmute(1), AudioCall::Unmute(3)]);
    assert_eq!(state.muted_devices, vec![1, 3]);
}

#[test]
fn second_consecutive_lock_claims_no_device() {
    let mut devices = vec![
        Device { index: 1, mute: false },
        Device { index: 2, mute: true },
        Device { index: 3, mute: false },
    ];
    let mut state = State::new();
    let first = dispatch(&mut state, &devices, &Payload::Event(true), true);
    for call in &first {
        if let AudioCall::Mute(i) = call {
            for d in devices.iter_mut() {
                if d.index == *i {
                    d.mute = true;
                }
            }
        }
    }
    let second = dispatch(&mut state, &devices, &Payload::Event(true), true);
    assert_eq!(second, Vec::<AudioCall>::new());
    assert_eq!(state.muted_devices, Vec::<u32>::new());
}

#[test]
fn malformed_payload_issues_nothing_and_keeps_state() {
    let devices = vec![Device { index: 1, mute: false }];
    let mut state = State::new();
    state.muted_devices = vec![5, 6];
    let audio = dispatch(&mut state, &devices, &Payload::Malformed, true);
    assert_eq!(audio, Vec::<AudioCall>::new());
    assert_eq!(state.muted_devices, vec![5, 6]);
}

#[test]
fn stream_continues_after_malformed_payload() {
    let devices = vec![
        Device { index: 1, mute: false },
        Device { index: 2, mute: false },
    ];
    let mut state = State::new();
    let skipped = dispatch(&mut state, &devices, &Payload::Malformed, true);
    assert_eq!(skipped, Vec::<AudioCall>::new());
    let audio = dispatch(&mut state, &devices, &Payload::Event(true), true);
    assert_eq!(audio, vec![AudioCall::Mute(1), AudioCall::Mute(2)]);
    assert_eq!(state.muted_devices, vec![1, 2]);
}

#[test]
fn failed_activation_does_not_block_the_audio_step() {
    let devices = vec![
        Device { index: 1, mute: false },
        Device { index: 2, mute: false },
    ];
    let mut state_ok = State::new();
    let audio_ok = dispatch(&mut state_ok, &devices, &Payload::Event(true), true);
    let mut state_failed = State::new();
    let audio_failed = dispatch(&mut state_failed, &devices, &Payload::Event(true), false);
    assert_eq!(audio_ok, audio_failed);
    assert_eq!(state_ok.muted_devices, state_failed.muted_devices);
    assert_eq!(audio_failed, vec![AudioCall::Mute(1), AudioCall::Mute(2)]);
}

#[test]
fn scenario_lock_from_first_source() {
    let devices = vec![
        Device { index: 1, mute: false },
        Device { index: 2, mute: false },
        Device { index: 3, mute: false },
    ];
    let mut state = State::new();
    let signal = Signal { source: 0, payload: Payload::Event(true) };
    assert_eq!(target_for(&signal.payload), Some(Target::Lock));
    assert_eq!(unit_name(Target::Lock), "lock-activated.target");
    let audio = handle_signal(&mut state, &devices, &signal, true);
    assert_eq!(
        audio,
        vec![AudioCall::Mute(1), AudioCall::Mute(2), AudioCall::Mute(3)]
    );
    assert_eq!(state.muted_devices, vec![1, 2, 3]);
}

#[test]
fn scenario_unlock_restores_the_claimed_devices() {
    let mut devices = vec![
        Device { index: 1, mute: false },
        Device { index: 2, mute: false },
        Device { index: 3, mute: false },
    ];
    let mut state = State::new();
    let lock = Signal { source: 0, payload: Payload::Event(true) };
    let audio = handle_signal(&mut state, &devices, &lock, true);
    for call in &audio {
        if let AudioCall::Mute(i) = call {
            for d in devices.iter_mut() {
                if d.index == *i {
                    d.mute = true;
                }
            }
        }
    }
    let unlock = Signal { source: 0, payload: Payload::Event(false) };
    assert_eq!(target_for(&unlock.payload), Some(Target::Unlock));
    assert_eq!(unit_name(Target::Unlock), "unlock-activated.target");
    let audio = handle_signal(&mut state, &devices, &unlock, true);
    assert_eq!(
        audio,
        vec![
            AudioCall::Unmute(1),
            AudioCall::Unmute(2),
            AudioCall::Unmute(3)
        ]
    );
}

#[test]
fn scenario_lock_from_second_source_behaves_identically() {
    let devices = vec![
        Device { index: 1, mute: false },
        Device { index: 2, mute: false },
        Device { index: 3, mute: false },
    ];
    let mut state_first = State::new();
    let from_first = Signal { source: 0, payload: Payload::Event(true) };
    let audio_first = handle_signal(&mut state_first, &devices, &from_first, true);
    let mut state_second = State::new();
    let from_second = Signal { source: 1, payload: Payload::Event(true) };
    let audio_second = handle_signal(&mut state_second, &devices, &from_second, true);
    assert_eq!(audio_first, audio_second);
    assert_eq!(state_first.muted_devices, state_second.muted_devices);
    assert_eq!(state_second.muted_devices, vec![1, 2, 3]);
}

#[test]
fn scenario_no_devices_means_empty_claim_and_silent_unlock() {
    let devices: Vec<Device> = Vec::new();
    let mut state = State::new();
    let lock_audio = dispatch(&mut state, &devices, &Payload::Event(true), true);
    assert_eq!(lock_audio, Vec::<AudioCall>::new());
    assert_eq!(state.muted_devices, Vec::<u32>::new());
    let unlock_audio = dispatch(&mut state, &devices, &Payload::Event(false), true);
    assert_eq!(unlock_audio, Vec::<AudioCall>::new());
}

#[test]
fn malformed_payload_activates_no_target() {
    assert_eq!(target_for(&Payload::Malformed), None);
}

#[test]
fn watched_sources_are_the_two_screensaver_identities() {
    let sources = watched_sources();
    assert_eq!(
        sources,
        vec!["org.cinnamon.ScreenSaver", "org.gnome.ScreenSaver"]
    );
    assert_eq!(signal_member(), "ActiveChanged");
}

#[test]
fn activation_call_contract_literals() {
    assert_eq!(manager_destination(), "org.freedesktop.systemd1");
    assert_eq!(manager_path(), "/org/freedesktop/systemd1");
    assert_eq!(manager_interface(), "org.freedesktop.systemd1.Manager");
    assert_eq!(start_unit_method(), "StartUnit");
    assert_eq!(start_unit_mode(), "replace");
    assert_eq!(activation_timeout_secs(), 2);
}
