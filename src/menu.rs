use vstd::prelude::*;
use vstd::string::*;
use crate::extract::{display_lines, display_lines_of, string_views};
use crate::shutdown::{raise_spec, ShutdownReason, ShutdownSignal};

verus! {

/// The label of the menu item that shows a test notification.
pub const TEST_NOTIFICATION_LABEL: &'static str = "Test Notification";

/// The label of the menu item that ends the process.
pub const EXIT_LABEL: &'static str = "Exit";

/// The text of the test notification.
pub const TEST_NOTIFICATION_TEXT: &'static str = "Test Notification\nThis is a test message.";

/// The identifiers of the two menu items, fixed when the menu is built.
#[derive(Debug, Clone, PartialEq, Eq)]
pub struct MenuIds {
    pub test_notification: String,
    pub exit: String,
}

/// What a menu event asks for.
#[derive(Debug, Clone, PartialEq, Eq)]
pub enum MenuAction {
    RunTestNotification,
    RequestExit,
    /// An identifier that no item of the menu has.
    Unrecognized(String),
}

impl MenuIds {
    /// The identifiers of the test item and of the exit item.
    pub fn new(test_notification: String, exit: String) -> (ids: MenuIds)
        ensures
            ids.test_notification@ == test_notification@,
            ids.exit@ == exit@,
    {
        MenuIds { test_notification, exit }
    }

    /// Classifies the identifier of a menu event.
    pub fn classify(&self, id: &String) -> (a: MenuAction)
        ensures
            a is RunTestNotification <==> id@ == self.test_notification@,
            a is RequestExit <==> (id@ != self.test_notification@ && id@ == self.exit@),
            a matches MenuAction::Unrecognized(unknown) ==> unknown@ == id@,
            a is Unrecognized <==> (id@ != self.test_notification@ && id@ != self.exit@),
    {
        if *id == self.test_notification {
            MenuAction::RunTestNotification
        } else if *id == self.exit {
            MenuAction::RequestExit
        } else {
            MenuAction::Unrecognized(id.clone())
        }
    }
}

/// One wake-up of the user-interface loop: whether the native event was the
/// request to quit, and the menu event that was pending, if any.
#[derive(Debug, Clone, PartialEq, Eq)]
pub struct UiInput {
    pub quit: bool,
    pub menu_event: Option<String>,
}

/// What the user-interface loop does next. Every step but `Exit` and `Fail`
/// dispatches the native event and waits for the next one.
#[derive(Debug, Clone, PartialEq, Eq)]
pub enum UiStep {
    /// Leave the loop: the quit request arrived.
    Exit,
    /// Nothing to do but dispatch.
    Continue,
    /// Show these lines as the test notification.
    ShowTest(Vec<String>),
    /// Post a quit request into the native queue.
    PostQuit,
    /// Leave the loop with an error: the menu sent an identifier it does
    /// not have.
    Fail(String),
}

/// The inputs on which the user-interface loop ends.
pub open spec fn ends_ui_loop(ids: MenuIds, input: UiInput) -> bool {
    input.quit || (input.menu_event matches Some(id) && id@ != ids.test_notification@ && id@
        != ids.exit@)
}

/// The inputs that select the exit item.
pub open spec fn requests_exit(ids: MenuIds, input: UiInput) -> bool {
    !input.quit && (input.menu_event matches Some(id) && id@ != ids.test_notification@ && id@
        == ids.exit@)
}

/// What the user-interface loop does on `input`. The quit request ends the
/// loop; otherwise a pending menu event is classified: the test item shows
/// the test notification, the exit item raises the shutdown signal and posts
/// a quit request, and an unknown identifier is an error.
pub fn ui_step(ids: &MenuIds, signal: &mut ShutdownSignal, input: UiInput) -> (r: UiStep)
    ensures
        (r is Exit || r is Fail) == ends_ui_loop(*ids, input),
        input.quit ==> r is Exit,
        !input.quit ==> match input.menu_event {
            None => r is Continue,
            Some(id) => if id@ == ids.test_notification@ {
                r matches UiStep::ShowTest(lines) && string_views(lines@) == display_lines(
                    TEST_NOTIFICATION_TEXT@,
                )
            } else if id@ == ids.exit@ {
                r is PostQuit
            } else {
                r matches UiStep::Fail(unknown) && unknown@ == id@
            },
        },
        final(signal)@ == if requests_exit(*ids, input) {
            raise_spec(old(signal)@, ShutdownReason::UserRequestedExit)
        } else {
            old(signal)@
        },
{
    if input.quit {
        return UiStep::Exit;
    }
    match input.menu_event {
        None => UiStep::Continue,
        Some(id) => match ids.classify(&id) {
            MenuAction::RunTestNotification => UiStep::ShowTest(
                display_lines_of(TEST_NOTIFICATION_TEXT),
            ),
            MenuAction::RequestExit => {
                signal.raise(ShutdownReason::UserRequestedExit);
                UiStep::PostQuit
            },
            MenuAction::Unrecognized(unknown) => UiStep::Fail(unknown),
        },
    }
}

/// The number of wake-ups the user-interface loop handles on `inputs` before
/// the one that ends it (the length of `inputs` where none does).
pub open spec fn ui_steps_before_end(ids: MenuIds, inputs: Seq<UiInput>) -> nat
    decreases inputs.len(),
{
    if inputs.len() == 0 || ends_ui_loop(ids, inputs[0]) {
        0
    } else {
        1 + ui_steps_before_end(ids, inputs.drop_first())
    }
}

/// Once a quit request is in the native queue, the user-interface loop ends
/// at that wake-up at the latest: the posted request bounds how long the
/// other context waits.
pub proof fn lemma_ui_stops_at_quit(ids: MenuIds, inputs: Seq<UiInput>, j: int)
    requires
        0 <= j < inputs.len(),
        inputs[j].quit,
    ensures
        ui_steps_before_end(ids, inputs) <= j,
        ends_ui_loop(ids, inputs[ui_steps_before_end(ids, inputs) as int]),
        forall|k: int| 0 <= k < ui_steps_before_end(ids, inputs) ==> !ends_ui_loop(ids, inputs[k]),
    decreases j,
{
    if !ends_ui_loop(ids, inputs[0]) {
        let rest = inputs.drop_first();
        lemma_ui_stops_at_quit(ids, rest, j - 1);
        assert forall|k: int| 0 <= k < ui_steps_before_end(ids, inputs) implies !ends_ui_loop(
            ids,
            inputs[k],
        ) by {
            if k > 0 {
                assert(inputs[k] == rest[k - 1]);
            }
        }
    }
}

} // verus!
