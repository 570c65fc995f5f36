//! Registering the three global hotkeys, independently of one another, and
//! rebinding one without ever leaving its action unbound.
use vstd::prelude::*;
use crate::replay::model::{registration_outcome, registration_snapshot};
use crate::replay::state::ReplayServiceState;

verus! {

/// The actions a global hotkey can drive.
#[derive(Debug, Clone, Copy, PartialEq, Eq, Hash, Structural)]
pub enum HotkeyId {
    SaveReplay,
    PauseCapture,
    OpenLibrary,
}

/// The accelerator bound to each hotkey.
#[derive(Debug, Clone, PartialEq, Eq)]
pub struct Hotkeys {
    pub save_replay: String,
    pub pause_capture: String,
    pub open_library: String,
}

/// One call a registrar received, with what it answered.
pub enum RegistrarCall {
    Register { id: HotkeyId, accelerator: Seq<char>, outcome: Result<(), Seq<char>> },
    Unregister { accelerator: Seq<char>, outcome: Result<(), Seq<char>> },
}

/// A registration outcome, by the view of its error code.
pub open spec fn outcome_of(r: Result<(), String>) -> Result<(), Seq<char>> {
    match r {
        Ok(()) => Ok(()),
        Err(c) => Err(c@),
    }
}

/// Where global hotkeys get bound: the desktop shell's shortcut plugin, or
/// a stand-in; driven through [`LoggedRegistrar`].
pub trait HotkeyRegistrar {
    /// Binds `accelerator` to hotkey `id`.
    fn register(&mut self, id: HotkeyId, accelerator: &str) -> Result<(), String>;

    /// Unbinds `accelerator`.
    fn unregister(&mut self, accelerator: &str) -> Result<(), String>;
}

/// A registrar and the history of the calls made through this handle,
/// each with what it answered, in order.
pub struct LoggedRegistrar<H> {
    pub inner: H,
    history: Ghost<Seq<RegistrarCall>>,
}

impl<H: HotkeyRegistrar> LoggedRegistrar<H> {
    /// The calls made so far through this handle, in order.
    pub closed spec fn calls(&self) -> Seq<RegistrarCall> {
        self.history@
    }

    /// A handle on `inner` with no call made yet.
    pub fn new(inner: H) -> (r: Self)
        ensures
            r.calls() == Seq::<RegistrarCall>::empty(),
    {
        LoggedRegistrar { inner, history: Ghost(Seq::empty()) }
    }

    /// Binds `accelerator` to hotkey `id` (see [`HotkeyRegistrar::register`]).
    pub fn register(&mut self, id: HotkeyId, accelerator: &str) -> (r: Result<(), String>)
        ensures
            final(self).calls() == old(self).calls().push(
                RegistrarCall::Register { id, accelerator: accelerator@, outcome: outcome_of(r) },
            ),
    {
        let r = self.inner.register(id, accelerator);
        self.history = Ghost(self.history@.push(RegistrarCall::Register { id, accelerator: accelerator@, outcome: outcome_of(r) }));
        r
    }

    /// Unbinds `accelerator` (see [`HotkeyRegistrar::unregister`]).
    pub fn unregister(&mut self, accelerator: &str) -> (r: Result<(), String>)
        ensures
            final(self).calls() == old(self).calls().push(
                RegistrarCall::Unregister { accelerator: accelerator@, outcome: outcome_of(r) },
            ),
    {
        let r = self.inner.unregister(accelerator);
        self.history = Ghost(self.history@.push(RegistrarCall::Unregister { accelerator: accelerator@, outcome: outcome_of(r) }));
        r
    }
}

/// Whether `call` registered `accelerator` for `id` and answered `outcome`.
pub open spec fn registered(
    call: RegistrarCall,
    id: HotkeyId,
    accelerator: Seq<char>,
    outcome: Result<(), Seq<char>>,
) -> bool {
    call == RegistrarCall::Register { id, accelerator, outcome }
}

/// Registers all three hotkeys from `hotkeys`, each attempted whatever the
/// others answered, and returns each hotkey's outcome.
pub fn register_startup<R: HotkeyRegistrar>(registrar: &mut LoggedRegistrar<R>, hotkeys: &Hotkeys) -> (r: [(
    HotkeyId,
    Result<(), String>,
); 3])
    ensures
        final(registrar).calls().len() == old(registrar).calls().len() + 3,
        final(registrar).calls().take(old(registrar).calls().len() as int) == old(
            registrar,
        ).calls(),
        r[0].0 == HotkeyId::SaveReplay,
        r[1].0 == HotkeyId::PauseCapture,
        r[2].0 == HotkeyId::OpenLibrary,
        registered(
            final(registrar).calls()[old(registrar).calls().len() as int],
            HotkeyId::SaveReplay,
            hotkeys.save_replay@,
            outcome_of(r[0].1),
        ),
        registered(
            final(registrar).calls()[old(registrar).calls().len() + 1int],
            HotkeyId::PauseCapture,
            hotkeys.pause_capture@,
            outcome_of(r[1].1),
        ),
        registered(
            final(registrar).calls()[old(registrar).calls().len() + 2int],
            HotkeyId::OpenLibrary,
            hotkeys.open_library@,
            outcome_of(r[2].1),
        ),
{
    let ghost c0 = registrar.calls();
    let save = registrar.register(HotkeyId::SaveReplay, hotkeys.save_replay.as_str());
    let pause = registrar.register(HotkeyId::PauseCapture, hotkeys.pause_capture.as_str());
    let open = registrar.register(HotkeyId::OpenLibrary, hotkeys.open_library.as_str());
    proof {
        assert(registrar.calls().take(c0.len() as int) =~= c0);
    }
    [(HotkeyId::SaveReplay, save), (HotkeyId::PauseCapture, pause), (HotkeyId::OpenLibrary, open)]
}

/// Rebinds hotkey `id` from `previous` to `next`: unbinds `previous`, binds
/// `next`, and when that fails binds `previous` again and answers the
/// failure, so the action is never left unbound by a failed rebind.
pub fn swap_registration<R: HotkeyRegistrar>(
    registrar: &mut LoggedRegistrar<R>,
    id: HotkeyId,
    previous: &str,
    next: &str,
) -> (r: Result<(), String>)
    ensures
        ({
            let c = old(registrar).calls();
            let n = final(registrar).calls();
            &&& n.take(c.len() as int) == c
            &&& n[c.len() as int] matches RegistrarCall::Unregister { accelerator, .. }
                && accelerator == previous@
            &&& match r {
                Ok(()) => n.len() == c.len() + 2 && registered(
                    n[c.len() + 1int],
                    id,
                    next@,
                    Ok(()),
                ),
                Err(code) => n.len() == c.len() + 3 && registered(
                    n[c.len() + 1int],
                    id,
                    next@,
                    Err(code@),
                ) && (n[c.len() + 2int] matches RegistrarCall::Register { id: i, accelerator, .. }
                    && i == id && accelerator == previous@),
            }
        }),
{
    let ghost c0 = registrar.calls();
    let _ = registrar.unregister(previous);
    let attempt = registrar.register(id, next);
    match attempt {
        Err(code) => {
            let _ = registrar.register(id, previous);
            proof {
                assert(registrar.calls().take(c0.len() as int) =~= c0);
            }
            Err(code)
        },
        Ok(()) => {
            proof {
                assert(registrar.calls().take(c0.len() as int) =~= c0);
            }
            Ok(())
        },
    }
}

/// Registers all three hotkeys at startup and mirrors the save-replay
/// hotkey's outcome onto the replay snapshot's shortcut registration;
/// nothing else of the replay state changes.
pub fn register_all<R: HotkeyRegistrar>(
    registrar: &mut LoggedRegistrar<R>,
    hotkeys: &Hotkeys,
    replay: &mut ReplayServiceState,
)
    ensures
        final(registrar).calls().len() == old(registrar).calls().len() + 3,
        final(registrar).calls()[old(registrar).calls().len() as int] matches
            RegistrarCall::Register { id, accelerator, outcome } && id == HotkeyId::SaveReplay
            && accelerator == hotkeys.save_replay@ && registration_outcome(
            final(replay).shortcut,
            outcome,
        ),
        *final(replay) == (ReplayServiceState { shortcut: final(replay).shortcut, ..*old(replay) }),
{
    let outcomes = register_startup(registrar, hotkeys);
    let snapshot = registration_snapshot(&outcomes[0].1);
    replay.set_shortcut_registration(snapshot);
}

} // verus!
