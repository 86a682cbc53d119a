use vstd::prelude::*;
use crate::config::{Config, ConfigView};
use crate::document::opt_str_view;

verus! {

/// The deep link that opens a new note in the note-taking application.
pub open spec fn note_link() -> Seq<char> {
    "obsidian://new"@
}

/// What one tick asks of the outside world: a desktop notification with this
/// title and message, then the opening of this link.
#[derive(Debug, Clone)]
pub struct Dispatch {
    pub title: String,
    pub message: String,
    pub link: String,
}

pub struct DispatchView {
    pub title: Seq<char>,
    pub message: Seq<char>,
    pub link: Seq<char>,
}

impl View for Dispatch {
    type V = DispatchView;

    open spec fn view(&self) -> DispatchView {
        DispatchView { title: self.title@, message: self.message@, link: self.link@ }
    }
}

pub open spec fn dispatch_view(d: Option<Dispatch>) -> Option<DispatchView> {
    match d {
        Some(d) => Some(d@),
        None => None,
    }
}

/// The dispatch owed on a tick where `detected` is the foreground
/// application: one exactly when it is a listed meeting app, none otherwise.
pub open spec fn tick_plan(c: ConfigView, detected: Option<Seq<char>>) -> Option<DispatchView> {
    match detected {
        Some(app) => if c.meeting_apps.contains(app) {
            Some(
                DispatchView {
                    title: c.notification_title,
                    message: c.notification_message,
                    link: note_link(),
                },
            )
        } else {
            None
        },
        None => None,
    }
}

/// How many dispatches a run of ticks makes, one tick per detection.
pub open spec fn dispatch_count(c: ConfigView, ticks: Seq<Option<Seq<char>>>) -> nat
    decreases ticks.len(),
{
    if ticks.len() == 0 {
        0
    } else {
        dispatch_count(c, ticks.drop_last()) + if tick_plan(c, ticks.last()) is Some {
            1nat
        } else {
            0nat
        }
    }
}

/// The foreground application as the detector reports it. No platform query
/// stands behind it yet: it always names the same application.
pub fn detect_active_app() -> (r: Option<String>)
    ensures
        r is Some && r->0@ == "Zoom"@,
{
    Some("Zoom".to_owned())
}

/// Whether `app` is one of the configured meeting apps.
pub fn is_meeting_app(config: &Config, app: &String) -> (r: bool)
    ensures
        r == config@.meeting_apps.contains(app@),
{
    let mut i: usize = 0;
    while i < config.meeting_apps.len()
        invariant
            i <= config.meeting_apps@.len(),
            forall|k: int| 0 <= k < i ==> #[trigger] config@.meeting_apps[k] != app@,
        decreases config.meeting_apps.len() - i,
    {
        if config.meeting_apps[i] == *app {
            assert(config@.meeting_apps[i as int] == app@);
            return true;
        }
        i = i + 1;
    }
    false
}

/// Decides one tick of the monitor: the dispatch to make, if any, for the
/// application detected in the foreground.
pub fn plan_tick(config: &Config, detected: &Option<String>) -> (r: Option<Dispatch>)
    ensures
        dispatch_view(r) == tick_plan(config@, opt_str_view(*detected)),
{
    match detected {
        Some(app) => if is_meeting_app(config, app) {
            Some(
                Dispatch {
                    title: config.notification_title.clone(),
                    message: config.notification_message.clone(),
                    link: "obsidian://new".to_owned(),
                },
            )
        } else {
            None
        },
        None => None,
    }
}

/// An application that is not in the list never causes a dispatch, over any
/// run of ticks.
pub proof fn lemma_unlisted_never_dispatches(c: ConfigView, ticks: Seq<Option<Seq<char>>>)
    requires
        forall|i: int|
            0 <= i < ticks.len() && #[trigger] ticks[i] is Some ==> !c.meeting_apps.contains(
                ticks[i]->0,
            ),
    ensures
        dispatch_count(c, ticks) == 0,
    decreases ticks.len(),
{
    if ticks.len() > 0 {
        let rest = ticks.drop_last();
        assert forall|i: int| 0 <= i < rest.len() && #[trigger] rest[i] is Some implies !c.meeting_apps.contains(
            rest[i]->0,
        ) by {
            assert(rest[i] == ticks[i]);
        }
        lemma_unlisted_never_dispatches(c, rest);
        assert(ticks.last() == ticks[ticks.len() - 1]);
    }
}

/// Ticks are not debounced: while a listed application stays in the
/// foreground, every one of `n` ticks makes one dispatch.
pub proof fn lemma_dispatch_every_matching_tick(c: ConfigView, app: Seq<char>, n: nat)
    requires
        c.meeting_apps.contains(app),
    ensures
        dispatch_count(c, Seq::new(n, |i: int| Some(app))) == n,
    decreases n,
{
    if n > 0 {
        let ticks = Seq::new(n, |i: int| Some(app));
        assert(ticks.drop_last() =~= Seq::new((n - 1) as nat, |i: int| Some(app)));
        lemma_dispatch_every_matching_tick(c, app, (n - 1) as nat);
    }
}

} // verus!
