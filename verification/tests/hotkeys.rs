use encore::hotkeys::{
    register_all, register_startup, swap_registration, HotkeyId, HotkeyRegistrar, Hotkeys, LoggedRegistrar,
};
use encore::replay::model::{registration_snapshot, ShortcutRegistrationState};
use encore::replay::state::ReplayServiceState;

/// Records every register/unregister call and can be told to fail one
/// specific hotkey's next `register` call.
#[derive(Default)]
struct FakeRegistrar {
    fail_next_register_for: Option<HotkeyId>,
    registered: Vec<(HotkeyId, String)>,
    unregistered: Vec<String>,
}

impl FakeRegistrar {
    fn failing(id: HotkeyId) -> Self {
        Self {
            fail_next_register_for: Some(id),
            ..Self::default()
        }
    }
}

impl HotkeyRegistrar for FakeRegistrar {
    fn register(&mut self, id: HotkeyId, accelerator: &str) -> Result<(), String> {
        self.registered.push((id, accelerator.to_string()));
        if self.fail_next_register_for == Some(id) {
            self.fail_next_register_for = None;
            return Err("hotkey_registration_failed".into());
        }
        Ok(())
    }

    fn unregister(&mut self, accelerator: &str) -> Result<(), String> {
        self.unregistered.push(accelerator.to_string());
        Ok(())
    }
}

fn hotkeys() -> Hotkeys {
    Hotkeys {
        save_replay: "Cmd+Alt+R".into(),
        pause_capture: "Cmd+Alt+P".into(),
        open_library: "Cmd+Alt+L".into(),
    }
}

#[test]
fn register_startup_attempts_all_three_hotkeys() {
    let mut registrar = LoggedRegistrar::new(FakeRegistrar::default());

    let outcomes = register_startup(&mut registrar, &hotkeys());

    assert!(outcomes.iter().all(|(_, outcome)| outcome.is_ok()));
    let registered = &registrar.inner.registered;
    assert_eq!(registered.len(), 3);
    assert!(registered.contains(&(HotkeyId::SaveReplay, "Cmd+Alt+R".to_string())));
    assert!(registered.contains(&(HotkeyId::PauseCapture, "Cmd+Alt+P".to_string())));
    assert!(registered.contains(&(HotkeyId::OpenLibrary, "Cmd+Alt+L".to_string())));
}

#[test]
fn register_startup_reports_one_failure_without_blocking_the_others() {
    let mut registrar = LoggedRegistrar::new(FakeRegistrar::failing(HotkeyId::PauseCapture));

    let outcomes = register_startup(&mut registrar, &hotkeys());

    let by_id = |id: HotkeyId| {
        outcomes
            .iter()
            .find(|(candidate, _)| *candidate == id)
            .unwrap()
    };
    assert!(by_id(HotkeyId::SaveReplay).1.is_ok());
    assert!(by_id(HotkeyId::PauseCapture).1.is_err());
    assert!(by_id(HotkeyId::OpenLibrary).1.is_ok());
}

#[test]
fn swap_registration_unregisters_previous_and_registers_next_on_success() {
    let mut registrar = LoggedRegistrar::new(FakeRegistrar::default());

    let result = swap_registration(&mut registrar, HotkeyId::SaveReplay, "Cmd+Alt+R", "Cmd+Alt+T");

    assert!(result.is_ok());
    assert_eq!(registrar.inner.unregistered, vec!["Cmd+Alt+R".to_string()]);
    assert_eq!(
        registrar.inner.registered,
        vec![(HotkeyId::SaveReplay, "Cmd+Alt+T".to_string())]
    );
}

#[test]
fn swap_registration_rolls_back_to_the_previous_accelerator_on_failure() {
    let mut registrar = LoggedRegistrar::new(FakeRegistrar::failing(HotkeyId::SaveReplay));

    let result = swap_registration(&mut registrar, HotkeyId::SaveReplay, "Cmd+Alt+R", "Cmd+Alt+T");

    assert_eq!(result, Err("hotkey_registration_failed".to_string()));
    // First attempt (the failing "next" chord), then the rollback attempt
    // re-registering the previous chord.
    assert_eq!(
        registrar.inner.registered,
        vec![
            (HotkeyId::SaveReplay, "Cmd+Alt+T".to_string()),
            (HotkeyId::SaveReplay, "Cmd+Alt+R".to_string()),
        ]
    );
}

#[test]
fn registration_snapshot_reflects_success_and_failure() {
    let ok = registration_snapshot(&Ok(()));
    assert_eq!(ok.state, ShortcutRegistrationState::Registered);
    assert_eq!(ok.error_code, None);

    let err = registration_snapshot(&Err("hotkey_registration_failed".to_string()));
    assert_eq!(err.state, ShortcutRegistrationState::Unavailable);
    assert_eq!(
        err.error_code,
        Some("hotkey_registration_failed".to_string())
    );
}

#[test]
fn register_all_mirrors_only_the_save_replay_outcome_onto_the_replay_state() {
    let mut registrar = LoggedRegistrar::new(FakeRegistrar::failing(HotkeyId::SaveReplay));
    let mut replay = ReplayServiceState::new();

    register_all(&mut registrar, &hotkeys(), &mut replay);

    assert_eq!(replay.shortcut.state, ShortcutRegistrationState::Unavailable);
    assert_eq!(
        replay.shortcut.error_code.as_deref(),
        Some("hotkey_registration_failed")
    );
    assert_eq!(replay.next_id, 1);

    let mut registrar = LoggedRegistrar::new(FakeRegistrar::failing(HotkeyId::OpenLibrary));
    let mut replay = ReplayServiceState::new();
    register_all(&mut registrar, &hotkeys(), &mut replay);
    assert_eq!(replay.shortcut.state, ShortcutRegistrationState::Registered);
}
