//! One active overlay and one return-focus target per native window. What
//! is focused is whatever handle the window uses; the host only decides.
use vstd::prelude::*;

verus! {

#[derive(Clone, Copy, Debug, PartialEq, Eq, Structural)]
pub enum Overlay {
    Search,
    Notifications,
    AddTask,
    DeleteTask(i64),
    TaskMenu(i64),
    RenameConversation(i64),
    DeleteConversation(i64),
    ConversationMenu(i64),
}

impl Overlay {
    /// A dialog: adding or deleting a task, renaming or deleting a conversation.
    pub open spec fn dialog(self) -> bool {
        match self {
            Overlay::AddTask | Overlay::DeleteTask(_) | Overlay::RenameConversation(_)
            | Overlay::DeleteConversation(_) => true,
            _ => false,
        }
    }

    /// A menu: a task's or a conversation's.
    pub open spec fn menu(self) -> bool {
        match self {
            Overlay::TaskMenu(_) | Overlay::ConversationMenu(_) => true,
            _ => false,
        }
    }

    pub fn is_dialog(self) -> (r: bool)
        ensures
            r == self.dialog(),
    {
        match self {
            Overlay::AddTask | Overlay::DeleteTask(_) | Overlay::RenameConversation(_)
            | Overlay::DeleteConversation(_) => true,
            _ => false,
        }
    }

    pub fn is_menu(self) -> (r: bool)
        ensures
            r == self.menu(),
    {
        match self {
            Overlay::TaskMenu(_) | Overlay::ConversationMenu(_) => true,
            _ => false,
        }
    }
}

/// The active overlay, the focus to return to when it goes, and a return
/// not yet made.
pub struct OverlayHost<F> {
    active: Option<Overlay>,
    return_focus: Option<F>,
    pending_focus: Option<F>,
}

impl<F> OverlayHost<F> {
    pub closed spec fn shown(&self) -> Option<Overlay> {
        self.active
    }

    /// Where focus goes back to once the overlay closes.
    pub closed spec fn returns_to(&self) -> Option<F> {
        self.return_focus
    }

    /// A return of focus still to be made.
    pub closed spec fn pending(&self) -> Option<F> {
        self.pending_focus
    }

    /// The host once `overlay` is shown, `focused` being what had focus.
    pub closed spec fn after_open(self, overlay: Overlay, focused: Option<F>) -> Self {
        OverlayHost {
            active: Some(overlay),
            return_focus: if self.active is None {
                focused
            } else {
                self.return_focus
            },
            ..self
        }
    }

    /// The host once its overlay is closed.
    pub closed spec fn after_close(self) -> Self {
        if self.active is Some {
            OverlayHost { active: None, pending_focus: self.return_focus, return_focus: None }
        } else {
            self
        }
    }

    /// No overlay.
    pub fn new() -> (r: Self)
        ensures
            r.shown() is None,
            r.returns_to() is None,
            r.pending() is None,
    {
        OverlayHost { active: None, return_focus: None, pending_focus: None }
    }

    pub fn active(&self) -> (r: Option<Overlay>)
        ensures
            r == self.shown(),
    {
        self.active
    }

    /// Show `overlay`, replacing any other. Opening over nothing remembers
    /// what was focused (`focused`); over another overlay the first return
    /// target stays. The answer is what to focus now.
    pub fn open(&mut self, overlay: Overlay, focused: Option<F>, initial: Option<F>) -> (r: Option<F>)
        ensures
            *final(self) == old(self).after_open(overlay, focused),
            final(self).shown() == Some(overlay),
            final(self).returns_to() == (if old(self).shown() is None {
                focused
            } else {
                old(self).returns_to()
            }),
            final(self).pending() == old(self).pending(),
            r == initial,
    {
        if self.active.is_none() {
            self.return_focus = focused;
        }
        self.active = Some(overlay);
        initial
    }

    /// Close the overlay, if any: its return target becomes the pending return.
    pub fn close(&mut self)
        ensures
            *final(self) == old(self).after_close(),
            final(self).shown() is None,
            old(self).shown() is Some ==> final(self).pending() == old(self).returns_to()
                && final(self).returns_to() is None,
            old(self).shown() is None ==> final(self).pending() == old(self).pending()
                && final(self).returns_to() == old(self).returns_to(),
    {
        if self.active.is_some() {
            self.active = None;
            let mut target: Option<F> = None;
            std::mem::swap(&mut target, &mut self.return_focus);
            self.pending_focus = target;
        }
    }

    /// Escape or Cancel: close, and hand back whether something was open and
    /// what to focus now.
    pub fn dismiss(&mut self) -> (r: (bool, Option<F>))
        ensures
            r.0 == old(self).shown() is Some,
            r.1 == (if old(self).shown() is Some {
                old(self).returns_to()
            } else {
                old(self).pending()
            }),
            final(self).shown() is None,
            final(self).pending() is None,
            old(self).shown() is Some ==> final(self).returns_to() is None,
            old(self).shown() is None ==> final(self).returns_to() == old(self).returns_to(),
    {
        let was_open = self.active.is_some();
        self.close();
        (was_open, self.take_pending_focus())
    }

    /// The return of focus still to be made, taken once.
    pub fn take_pending_focus(&mut self) -> (r: Option<F>)
        ensures
            r == old(self).pending(),
            final(self).pending() is None,
            final(self).shown() == old(self).shown(),
            final(self).returns_to() == old(self).returns_to(),
    {
        let mut target: Option<F> = None;
        std::mem::swap(&mut target, &mut self.pending_focus);
        target
    }
}

/// Which of `count` focusable handles Tab reaches from `current`: the next
/// one round, or the previous one backwards; from none, the first or last.
pub open spec fn spec_cycle(count: nat, current: Option<nat>, backwards: bool) -> Option<nat> {
    if count == 0 {
        None
    } else {
        match current {
            Some(i) => Some(
                if backwards {
                    ((i + count - 1) as int % (count as int)) as nat
                } else {
                    ((i + 1) as int % (count as int)) as nat
                },
            ),
            None => Some(
                if backwards {
                    (count - 1) as nat
                } else {
                    0
                },
            ),
        }
    }
}

/// Which of `count` focusable handles Tab moves focus to.
pub fn cycle_focus(count: usize, current: Option<usize>, backwards: bool) -> (r: Option<usize>)
    requires
        current matches Some(i) ==> i < count,
    ensures
        r == (match spec_cycle(count as nat, match current {
            Some(i) => Some(i as nat),
            None => None,
        }, backwards) {
            Some(n) => Some(n as usize),
            None => None,
        }),
        r matches Some(n) ==> n < count,
{
    if count == 0 {
        return None;
    }
    match current {
        Some(index) => {
            if backwards {
                proof {
                    vstd::arithmetic::div_mod::lemma_mod_add_multiples_vanish(
                        index - 1,
                        count as int,
                    );
                    if index > 0 {
                        vstd::arithmetic::div_mod::lemma_small_mod(
                            (index - 1) as nat,
                            count as nat,
                        );
                    } else {
                        vstd::arithmetic::div_mod::lemma_small_mod(
                            (count - 1) as nat,
                            count as nat,
                        );
                    }
                }
                Some(
                    if index == 0 {
                        count - 1
                    } else {
                        index - 1
                    },
                )
            } else {
                Some((index + 1) % count)
            }
        },
        None => {
            if backwards {
                Some(count - 1)
            } else {
                Some(0)
            }
        },
    }
}

/// Opening overlays one over another and then closing returns focus to
/// what was focused before the first one opened.
pub proof fn law_focus_returns_to_before_the_first_overlay<F>(
    host: OverlayHost<F>,
    focused: Option<F>,
    later: Option<F>,
    first: Overlay,
    second: Overlay,
)
    requires
        host.shown() is None,
    ensures
        host.after_open(first, focused).after_open(second, later).after_close().pending()
            == focused,
        host.after_open(first, focused).after_open(second, later).after_close().shown() is None,
{
}

} // verus!
