use vstd::prelude::*;
use crate::handle::{HookHandle, SurfaceHandle};
use crate::registry::ForwardingRegistry;

verus! {

/// What the operating system must be asked to do for a forwarding request.
#[derive(Clone, Copy, Debug, PartialEq, Eq, Structural)]
pub enum HookAction {
    /// Install the global mouse hook.
    Install,
    /// Remove the given global mouse hook.
    Uninstall(HookHandle),
    /// Leave the hook as it is.
    Keep,
}

/// What came of the action, as reported by the caller that performed it.
#[derive(Clone, Copy, Debug, PartialEq, Eq, Structural)]
pub enum HookOutcome {
    Installed(HookHandle),
    InstallFailed,
    Uninstalled,
    UninstallFailed,
    /// No hook call was made.
    NotAttempted,
}

/// Failures that leave a forwarding request undone.
#[derive(Clone, Copy, Debug, PartialEq, Eq, Structural)]
pub enum ForwardingError {
    HookInstallFailed,
    HookUninstallFailed,
}

/// Forwarding is only meaningful while the window ignores cursor events.
pub open spec fn spec_effective_forwarding(ignore: bool, forward: bool) -> bool {
    ignore && forward
}

pub fn effective_forwarding(ignore: bool, forward: bool) -> (r: bool)
    ensures
        r == spec_effective_forwarding(ignore, forward),
{
    ignore && forward
}

/// The hook is present exactly while some surface is subscribed.
pub open spec fn hook_matches(surfaces: Set<SurfaceHandle>, hook: Option<HookHandle>) -> bool {
    hook is Some <==> !surfaces.is_empty()
}

/// The hook call that a request needs: an install for the first
/// subscription, a removal when the last subscription goes.
pub open spec fn required_action(
    surfaces: Set<SurfaceHandle>,
    hook: Option<HookHandle>,
    surface: SurfaceHandle,
    enabled: bool,
) -> HookAction {
    if enabled {
        if hook is None {
            HookAction::Install
        } else {
            HookAction::Keep
        }
    } else {
        match hook {
            Some(h) => if surfaces.remove(surface).is_empty() {
                HookAction::Uninstall(h)
            } else {
                HookAction::Keep
            },
            None => HookAction::Keep,
        }
    }
}

/// The subscriptions, the hook and the result after a request whose hook
/// call ended in `outcome`. A failed hook call leaves both unchanged.
pub open spec fn request_result(
    surfaces: Set<SurfaceHandle>,
    hook: Option<HookHandle>,
    surface: SurfaceHandle,
    enabled: bool,
    outcome: HookOutcome,
) -> (Set<SurfaceHandle>, Option<HookHandle>, Result<(), ForwardingError>) {
    match required_action(surfaces, hook, surface, enabled) {
        HookAction::Install => match outcome {
            HookOutcome::Installed(h) => (surfaces.insert(surface), Some(h), Ok(())),
            _ => (surfaces, hook, Err(ForwardingError::HookInstallFailed)),
        },
        HookAction::Uninstall(_) => match outcome {
            HookOutcome::Uninstalled => (surfaces.remove(surface), None, Ok(())),
            _ => (surfaces, hook, Err(ForwardingError::HookUninstallFailed)),
        },
        HookAction::Keep => (
            if enabled {
                surfaces.insert(surface)
            } else {
                surfaces.remove(surface)
            },
            hook,
            Ok(()),
        ),
    }
}

/// The forwarding engine: the subscribed surfaces and the global hook that
/// serves them.
pub struct ForwardingEngine {
    registry: ForwardingRegistry,
    hook: Option<HookHandle>,
}

impl View for ForwardingEngine {
    type V = Set<SurfaceHandle>;

    closed spec fn view(&self) -> Set<SurfaceHandle> {
        self.registry@
    }
}

impl ForwardingEngine {
    /// The installed hook, if any.
    pub closed spec fn spec_hook(&self) -> Option<HookHandle> {
        self.hook
    }

    pub closed spec fn wf(&self) -> bool {
        &&& self.registry.wf()
        &&& hook_matches(self.registry@, self.hook)
    }

    /// An engine with no subscription and no hook.
    pub fn new() -> (r: ForwardingEngine)
        ensures
            r.wf(),
            r@ == Set::<SurfaceHandle>::empty(),
            r.spec_hook() is None,
    {
        ForwardingEngine { registry: ForwardingRegistry::new(), hook: None }
    }

    pub fn installed_hook(&self) -> (r: Option<HookHandle>)
        ensures
            r == self.spec_hook(),
    {
        self.hook
    }

    pub fn is_forwarding(&self, surface: SurfaceHandle) -> (r: bool)
        ensures
            r == self@.contains(surface),
    {
        self.registry.contains(surface)
    }

    pub fn is_empty(&self) -> (r: bool)
        ensures
            r == self@.is_empty(),
    {
        self.registry.is_empty()
    }

    /// The subscribed surfaces, each once, for one pass of the hook callback.
    pub fn snapshot(&self) -> (r: Vec<SurfaceHandle>)
        requires
            self.wf(),
        ensures
            r@.no_duplicates(),
            r@.to_set() == self@,
    {
        self.registry.snapshot()
    }

    /// The hook call that turning forwarding on or off for `surface` needs.
    pub fn required_action(&self, surface: SurfaceHandle, enabled: bool) -> (r: HookAction)
        requires
            self.wf(),
        ensures
            r == required_action(self@, self.spec_hook(), surface, enabled),
    {
        if enabled {
            if self.hook.is_none() {
                HookAction::Install
            } else {
                HookAction::Keep
            }
        } else {
            match self.hook {
                Some(h) => {
                    if self.registry.is_empty() {
                        assert(self@.remove(surface) =~= Set::<SurfaceHandle>::empty());
                        HookAction::Uninstall(h)
                    } else if self.registry.holds_only(surface) {
                        HookAction::Uninstall(h)
                    } else {
                        proof {
                            if !self@.contains(surface) {
                                let x = self@.choose();
                                assert(self@.remove(surface).contains(x));
                            }
                        }
                        HookAction::Keep
                    }
                },
                None => HookAction::Keep,
            }
        }
    }

    /// Completes a request to turn forwarding on or off for `surface`, once
    /// the hook call that `required_action` named has been made and ended in
    /// `outcome`. A failed install or removal is reported and changes nothing.
    pub fn complete_request(
        &mut self,
        surface: SurfaceHandle,
        enabled: bool,
        outcome: HookOutcome,
    ) -> (r: Result<(), ForwardingError>)
        requires
            old(self).wf(),
        ensures
            final(self).wf(),
            (final(self)@, final(self).spec_hook(), r) == request_result(
                old(self)@,
                old(self).spec_hook(),
                surface,
                enabled,
                outcome,
            ),
    {
        let action = self.required_action(surface, enabled);
        match action {
            HookAction::Install => match outcome {
                HookOutcome::Installed(h) => {
                    self.registry.subscribe(surface);
                    self.hook = Some(h);
                    Ok(())
                },
                _ => Err(ForwardingError::HookInstallFailed),
            },
            HookAction::Uninstall(_) => match outcome {
                HookOutcome::Uninstalled => {
                    self.registry.unsubscribe(surface);
                    self.hook = None;
                    Ok(())
                },
                _ => Err(ForwardingError::HookUninstallFailed),
            },
            HookAction::Keep => {
                if enabled {
                    self.registry.subscribe(surface);
                } else {
                    self.registry.unsubscribe(surface);
                }
                Ok(())
            },
        }
    }
}

/// Every engine has its hook installed exactly while some surface is
/// subscribed.
pub proof fn lemma_hook_iff_subscribed(e: &ForwardingEngine)
    requires
        e.wf(),
    ensures
        e.spec_hook() is Some <==> !e@.is_empty(),
{
}

/// Whatever a request asks and however its hook call ends, a state in which
/// the hook is present exactly while some surface is subscribed is followed
/// by another such state; so it holds after every sequence of requests.
pub proof fn lemma_request_keeps_hook_matching(
    surfaces: Set<SurfaceHandle>,
    hook: Option<HookHandle>,
    surface: SurfaceHandle,
    enabled: bool,
    outcome: HookOutcome,
)
    requires
        hook_matches(surfaces, hook),
    ensures
        hook_matches(
            request_result(surfaces, hook, surface, enabled, outcome).0,
            request_result(surfaces, hook, surface, enabled, outcome).1,
        ),
{
    if enabled {
        assert(surfaces.insert(surface).contains(surface));
    } else if hook is None {
        assert(surfaces.remove(surface) =~= Set::<SurfaceHandle>::empty());
    }
}

/// Subscribing a subscribed surface, or unsubscribing one that is not
/// subscribed, needs no hook call and changes neither the subscriptions nor
/// the hook.
pub proof fn lemma_repeated_request_changes_nothing(
    surfaces: Set<SurfaceHandle>,
    hook: Option<HookHandle>,
    surface: SurfaceHandle,
    enabled: bool,
    outcome: HookOutcome,
)
    requires
        hook_matches(surfaces, hook),
        surfaces.contains(surface) == enabled,
    ensures
        required_action(surfaces, hook, surface, enabled) == HookAction::Keep,
        request_result(surfaces, hook, surface, enabled, outcome) == (surfaces, hook, Ok::<(), ForwardingError>(())),
{
    if enabled {
        assert(surfaces.insert(surface) =~= surfaces);
    } else {
        assert(surfaces.remove(surface) =~= surfaces);
    }
}

} // verus!
