//! Event relay: the one-directional, host-addressed channel through which
//! pane-originated signals reach the controlling UI. Delivery is best-effort
//! and fire-and-forget — an emission failure must never propagate into the
//! operation that triggered it — so the relay records what was handed to the
//! platform for delivery, in order, and the lifecycle manager proves that a
//! `Navigated` record is always preceded by the `NavigationStarted` record of
//! the same pane.

use vstd::prelude::*;

verus! {

/// A pane-originated event addressed to the host UI.
pub enum HostEvent {
    /// Navigation began in the pane.
    NavigationStarted { label: String, url: String },
    /// The pane finished loading a page.
    Navigated { label: String, url: String },
    /// The pane's document title changed.
    TitleChanged { label: String, title: String },
}

/// The three shapes a relayed event takes.
#[derive(Clone, Copy, PartialEq, Eq, Structural, Debug)]
pub enum EventKind {
    NavigationStarted,
    Navigated,
    TitleChanged,
}

/// Ghost image of one relayed event: its kind, the originating pane's label,
/// and the payload text (the URL of a navigation event, the title of a
/// title-changed event).
#[verifier::ext_equal]
pub ghost struct EventView {
    pub kind: EventKind,
    pub label: Seq<char>,
    pub text: Seq<char>,
}

impl View for HostEvent {
    type V = EventView;

    open spec fn view(&self) -> EventView {
        match self {
            HostEvent::NavigationStarted { label, url } => EventView {
                kind: EventKind::NavigationStarted,
                label: label@,
                text: url@,
            },
            HostEvent::Navigated { label, url } => EventView {
                kind: EventKind::Navigated,
                label: label@,
                text: url@,
            },
            HostEvent::TitleChanged { label, title } => EventView {
                kind: EventKind::TitleChanged,
                label: label@,
                text: title@,
            },
        }
    }
}

/// The event channel the host UI subscribes to for each event kind.
pub open spec fn channel_view(kind: EventKind) -> Seq<char> {
    match kind {
        EventKind::NavigationStarted => "webview-navigation-started"@,
        EventKind::Navigated => "webview-navigated"@,
        EventKind::TitleChanged => "webview-title-changed"@,
    }
}

impl HostEvent {
    /// The event channel name on the wire.
    pub fn channel(&self) -> (s: &'static str)
        ensures
            s@ == channel_view(self@.kind),
    {
        match self {
            HostEvent::NavigationStarted { .. } => "webview-navigation-started",
            HostEvent::Navigated { .. } => "webview-navigated",
            HostEvent::TitleChanged { .. } => "webview-title-changed",
        }
    }
}

/// A `NavigationStarted` record for pane `label` stands somewhere in the log.
pub open spec fn started_in_log(log: Seq<EventView>, label: Seq<char>) -> bool {
    exists|j: int|
        0 <= j < log.len() && (#[trigger] log[j]).kind is NavigationStarted && log[j].label
            == label
}

/// Per-pane navigation ordering: every `Navigated` record is preceded by a
/// `NavigationStarted` record of the same pane.
pub open spec fn nav_ordered(log: Seq<EventView>) -> bool {
    forall|i: int|
        0 <= i < log.len() && (#[trigger] log[i]).kind is Navigated ==> started_in_log(
            log.subrange(0, i),
            log[i].label,
        )
}

/// Growing the log cannot lose a started record.
pub proof fn lemma_started_in_log_push(log: Seq<EventView>, label: Seq<char>, e: EventView)
    requires
        started_in_log(log, label),
    ensures
        started_in_log(log.push(e), label),
{
    let j = choose|j: int|
        0 <= j < log.len() && (#[trigger] log[j]).kind is NavigationStarted && log[j].label
            == label;
    assert(log.push(e)[j] == log[j]);
}

/// Recording anything but a `Navigated` event preserves navigation ordering.
pub proof fn lemma_nav_ordered_push_other(log: Seq<EventView>, e: EventView)
    requires
        nav_ordered(log),
        !(e.kind is Navigated),
    ensures
        nav_ordered(log.push(e)),
{
    let log2 = log.push(e);
    assert forall|i: int| 0 <= i < log2.len() && (#[trigger] log2[i]).kind is Navigated implies
        started_in_log(log2.subrange(0, i), log2[i].label) by {
        assert(i < log.len());
        assert(log2[i] == log[i]);
        assert(log2.subrange(0, i) =~= log.subrange(0, i));
    }
}

/// Recording a `Navigated` event preserves navigation ordering when the same
/// pane's `NavigationStarted` record already stands in the log.
pub proof fn lemma_nav_ordered_push_navigated(log: Seq<EventView>, e: EventView)
    requires
        nav_ordered(log),
        e.kind is Navigated,
        started_in_log(log, e.label),
    ensures
        nav_ordered(log.push(e)),
{
    let log2 = log.push(e);
    assert forall|i: int| 0 <= i < log2.len() && (#[trigger] log2[i]).kind is Navigated implies
        started_in_log(log2.subrange(0, i), log2[i].label) by {
        if i < log.len() {
            assert(log2[i] == log[i]);
            assert(log2.subrange(0, i) =~= log.subrange(0, i));
        } else {
            assert(log2[i] == e);
            assert(log2.subrange(0, i) =~= log);
        }
    }
}

/// The relay proper: one fixed destination window, supplied at construction,
/// and the ordered record of what was handed to the platform for delivery.
pub struct EventRelay {
    dest: String,
    sent: Vec<HostEvent>,
}

impl EventRelay {
    /// The fixed destination window's label.
    pub closed spec fn dest_view(&self) -> Seq<char> {
        self.dest@
    }

    /// Everything handed over for delivery so far, in order.
    pub closed spec fn sent_view(&self) -> Seq<EventView> {
        Seq::new(self.sent@.len(), |i: int| self.sent@[i]@)
    }

    /// A relay addressed to one destination window; nothing sent yet.
    pub fn new(dest: String) -> (r: EventRelay)
        ensures
            r.dest_view() == dest@,
            r.sent_view() == Seq::<EventView>::empty(),
    {
        let r = EventRelay { dest, sent: Vec::new() };
        proof {
            assert(r.sent_view() =~= Seq::<EventView>::empty());
        }
        r
    }

    /// The destination window's label on the wire.
    pub fn dest(&self) -> (d: &str)
        ensures
            d@ == self.dest_view(),
    {
        self.dest.as_str()
    }

    /// Records one event as handed over for delivery.
    pub fn record(&mut self, e: HostEvent)
        ensures
            final(self).sent_view() == old(self).sent_view().push(e@),
            final(self).dest_view() == old(self).dest_view(),
    {
        let ghost ev = e@;
        self.sent.push(e);
        proof {
            assert(self.sent_view() =~= old(self).sent_view().push(ev));
        }
    }

    /// The record of handed-over events, oldest first.
    pub fn events(&self) -> (r: &Vec<HostEvent>)
        ensures
            r@.len() == self.sent_view().len(),
            forall|i: int| 0 <= i < r@.len() ==> (#[trigger] r@[i])@ == self.sent_view()[i],
    {
        &self.sent
    }
}

} // verus!
