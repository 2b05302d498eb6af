//! Pane lifecycle manager: create, show, hide, close, reposition, navigate,
//! reload, back, forward and query-navigation-state over the host window's
//! label-keyed pane registry, together with the native navigation callbacks
//! that feed the event relay.
//!
//! The host window owns every native surface; [`PaneHost`] is the library's
//! model of that registry — one entry per label, resolved fresh by label on
//! every operation — plus the relay. Each operation decides and records the
//! state change here and hands the caller the exact native action to perform
//! (an attach request, a script to evaluate, a position-then-size update), so
//! the decisions are verified and the platform calls stay at the edge.
//!
//! Missing-label handling is deliberately asymmetric, as the frontend needs:
//! operations that drive interactive navigation (create, navigate, reload,
//! back, forward, query-navigation-state) report a missing label as an error;
//! cosmetic operations (show, hide, reposition, close), which may legitimately
//! race against a close that already happened, degrade to a no-op.

use vstd::prelude::*;

use crate::events::EventKind;
use crate::events::EventRelay;
use crate::events::EventView;
use crate::events::HostEvent;
use crate::events::lemma_nav_ordered_push_navigated;
use crate::events::lemma_nav_ordered_push_other;
use crate::events::lemma_started_in_log_push;
use crate::events::nav_ordered;
use crate::events::started_in_log;
use crate::geometry::Policy;
use crate::geometry::Rect;
use crate::geometry::Scale;
use crate::geometry::is_logical_of;
use crate::geometry::to_logical;
use crate::geometry::transform_defined;
use crate::script::ScriptVariant;
use crate::script::build_init_script;
use crate::script::build_navigate_script;
use crate::script::init_script_view;
use crate::script::navigate_script_view;
use crate::script::BACK_SCRIPT;
use crate::script::FORWARD_SCRIPT;
use crate::script::RELOAD_SCRIPT;
use crate::urls::parse_url;
use crate::urls::url_accepted;
use crate::urls::url_normalized;

verus! {

/// Where a pane stands in its current navigation.
#[derive(Clone, Copy, PartialEq, Eq, Structural, Debug)]
pub enum NavPhase {
    /// No navigation observed yet.
    Idle,
    /// Navigation began; the page has not finished loading.
    Started,
    /// The last begun navigation finished loading.
    Loaded,
}

/// One embedded browsing surface as the host window knows it.
pub struct Pane {
    pub(crate) label: String,
    pub(crate) bounds: Rect,
    pub(crate) visible: bool,
    pub(crate) phase: NavPhase,
}

/// Ghost image of one pane: its logical-unit bounds, visibility, and
/// navigation phase. The label is the key it is filed under.
#[verifier::ext_equal]
pub ghost struct PaneView {
    pub bounds: Rect,
    pub visible: bool,
    pub phase: NavPhase,
}

impl View for Pane {
    type V = PaneView;

    closed spec fn view(&self) -> PaneView {
        PaneView { bounds: self.bounds, visible: self.visible, phase: self.phase }
    }
}

/// Some pane in `s` carries label `l`.
pub(crate) open spec fn has_label(s: Seq<Pane>, l: Seq<char>) -> bool {
    exists|i: int| 0 <= i < s.len() && (#[trigger] s[i]).label@ == l
}

/// The position of the pane carrying label `l`.
pub(crate) open spec fn label_index(s: Seq<Pane>, l: Seq<char>) -> int {
    choose|i: int| 0 <= i < s.len() && (#[trigger] s[i]).label@ == l
}

/// No two panes carry the same label.
pub(crate) open spec fn unique_labels(s: Seq<Pane>) -> bool {
    forall|i: int, j: int|
        0 <= i < j < s.len() ==> (#[trigger] s[i]).label@ != (#[trigger] s[j]).label@
}

/// The registry a pane sequence stands for: label to pane image.
pub(crate) open spec fn panes_map(s: Seq<Pane>) -> Map<Seq<char>, PaneView> {
    Map::new(|l: Seq<char>| has_label(s, l), |l: Seq<char>| s[label_index(s, l)]@)
}

/// With unique labels, `label_index` is the one position of the label.
proof fn lemma_label_index(s: Seq<Pane>, l: Seq<char>)
    requires
        unique_labels(s),
        has_label(s, l),
    ensures
        0 <= label_index(s, l) < s.len(),
        s[label_index(s, l)].label@ == l,
        forall|i: int| 0 <= i < s.len() && (#[trigger] s[i]).label@ == l ==> i == label_index(s, l),
{
    let k = label_index(s, l);
    assert(0 <= k < s.len() && s[k].label@ == l);
    assert forall|i: int| 0 <= i < s.len() && (#[trigger] s[i]).label@ == l implies i == k by {
        if i < k {
            assert(s[i].label@ != s[k].label@);
        } else if k < i {
            assert(s[k].label@ != s[i].label@);
        }
    }
}

/// Appending a pane with a fresh label inserts it into the registry map.
proof fn lemma_map_push(s: Seq<Pane>, p: Pane)
    requires
        unique_labels(s),
        !has_label(s, p.label@),
    ensures
        unique_labels(s.push(p)),
        panes_map(s.push(p)) =~= panes_map(s).insert(p.label@, p@),
{
    let s2 = s.push(p);
    assert forall|i: int, j: int| 0 <= i < j < s2.len() implies (#[trigger] s2[i]).label@ != (
    #[trigger] s2[j]).label@ by {
        if j < s.len() {
            assert(s2[i] == s[i] && s2[j] == s[j]);
        } else {
            assert(s2[j] == p);
            assert(s2[i] == s[i]);
        }
    }
    assert forall|l: Seq<char>| true implies #[trigger] has_label(s2, l) == (has_label(s, l) || l
        == p.label@) by {
        if has_label(s2, l) {
            let i = choose|i: int| 0 <= i < s2.len() && (#[trigger] s2[i]).label@ == l;
            if i < s.len() {
                assert(s[i].label@ == l);
            } else {
                assert(s2[i] == p);
            }
        }
        if has_label(s, l) {
            let i = choose|i: int| 0 <= i < s.len() && (#[trigger] s[i]).label@ == l;
            assert(s2[i] == s[i]);
            assert(has_label(s2, l));
        }
        if l == p.label@ {
            assert(s2[s.len() as int] == p);
            assert(has_label(s2, l));
        }
    }
    assert forall|l: Seq<char>| has_label(s2, l) implies panes_map(s2)[l] == panes_map(s).insert(
        p.label@,
        p@,
    )[l] by {
        lemma_label_index(s2, l);
        let k = label_index(s2, l);
        if l == p.label@ {
            assert(s2[s.len() as int] == p);
            assert(k == s.len());
            assert(s2[k]@ == p@);
        } else {
            assert(has_label(s, l));
            lemma_label_index(s, l);
            let k1 = label_index(s, l);
            assert(s2[k1] == s[k1]);
            assert(k == k1);
        }
    }
}

/// Replacing the pane at a position with one of the same label updates the
/// registry map at that label.
proof fn lemma_map_update(s: Seq<Pane>, i: int, p: Pane)
    requires
        unique_labels(s),
        0 <= i < s.len(),
        p.label@ == s[i].label@,
    ensures
        unique_labels(s.update(i, p)),
        panes_map(s.update(i, p)) =~= panes_map(s).insert(p.label@, p@),
{
    let s2 = s.update(i, p);
    assert(s2.len() == s.len());
    assert forall|a: int, b: int| 0 <= a < b < s2.len() implies (#[trigger] s2[a]).label@ != (
    #[trigger] s2[b]).label@ by {
        assert(s2[a].label@ == s[a].label@);
        assert(s2[b].label@ == s[b].label@);
    }
    assert forall|l: Seq<char>| true implies #[trigger] has_label(s2, l) == has_label(s, l) by {
        if has_label(s2, l) {
            let a = choose|a: int| 0 <= a < s2.len() && (#[trigger] s2[a]).label@ == l;
            assert(s[a].label@ == l);
        }
        if has_label(s, l) {
            let a = choose|a: int| 0 <= a < s.len() && (#[trigger] s[a]).label@ == l;
            assert(s2[a].label@ == l);
        }
    }
    assert forall|l: Seq<char>| has_label(s2, l) implies panes_map(s2)[l] == panes_map(s).insert(
        p.label@,
        p@,
    )[l] by {
        lemma_label_index(s2, l);
        lemma_label_index(s, l);
        let k2 = label_index(s2, l);
        let k1 = label_index(s, l);
        assert(s2[k1].label@ == s[k1].label@);
        assert(k2 == k1);
        if l == p.label@ {
            assert(k1 == i);
            assert(s2[k2]@ == p@);
        } else {
            assert(k1 != i);
            assert(s2[k2] == s[k1]);
        }
    }
}

/// Removing the pane at a position removes its label from the registry map.
proof fn lemma_map_remove(s: Seq<Pane>, i: int)
    requires
        unique_labels(s),
        0 <= i < s.len(),
    ensures
        unique_labels(s.remove(i)),
        panes_map(s.remove(i)) =~= panes_map(s).remove(s[i].label@),
{
    let s2 = s.remove(i);
    assert(s2.len() == s.len() - 1);
    assert forall|a: int, b: int| 0 <= a < b < s2.len() implies (#[trigger] s2[a]).label@ != (
    #[trigger] s2[b]).label@ by {
        let a0 = if a < i {
            a
        } else {
            a + 1
        };
        let b0 = if b < i {
            b
        } else {
            b + 1
        };
        assert(s2[a] == s[a0]);
        assert(s2[b] == s[b0]);
        assert(s[a0].label@ != s[b0].label@);
    }
    assert forall|l: Seq<char>| true implies #[trigger] has_label(s2, l) == (has_label(s, l) && l
        != s[i].label@) by {
        if has_label(s2, l) {
            let a = choose|a: int| 0 <= a < s2.len() && (#[trigger] s2[a]).label@ == l;
            let a0 = if a < i {
                a
            } else {
                a + 1
            };
            assert(s2[a] == s[a0]);
            assert(s[a0].label@ == l);
            assert(a0 != i);
            lemma_label_index(s, l);
            assert(l != s[i].label@);
        }
        if has_label(s, l) && l != s[i].label@ {
            let a = choose|a: int| 0 <= a < s.len() && (#[trigger] s[a]).label@ == l;
            assert(a != i);
            let a2 = if a < i {
                a
            } else {
                a - 1
            };
            assert(s2[a2] == s[a]);
            assert(has_label(s2, l));
        }
    }
    assert forall|l: Seq<char>| has_label(s2, l) implies panes_map(s2)[l] == panes_map(s).remove(
        s[i].label@,
    )[l] by {
        lemma_label_index(s2, l);
        lemma_label_index(s, l);
        let k2 = label_index(s2, l);
        let k1 = label_index(s, l);
        let k0 = if k2 < i {
            k2
        } else {
            k2 + 1
        };
        assert(s2[k2] == s[k0]);
        assert(s[k0].label@ == l);
        assert(k0 == k1);
    }
}

/// Ghost image of the whole host: the label-keyed registry, the relay's
/// record, and the fixed configuration (geometry policy, script variant,
/// relay destination).
#[verifier::ext_equal]
pub ghost struct HostView {
    pub panes: Map<Seq<char>, PaneView>,
    pub sent: Seq<EventView>,
    pub policy: Policy,
    pub variant: ScriptVariant,
    pub dest: Seq<char>,
}

/// A fresh pane enters the registry shown, idle, at its attach bounds.
pub open spec fn create_t(h: HostView, label: Seq<char>, bounds: Rect) -> HostView {
    HostView {
        panes: h.panes.insert(label, PaneView { bounds, visible: true, phase: NavPhase::Idle }),
        ..h
    }
}

/// Closing removes the label; closing an absent label changes nothing.
pub open spec fn close_t(h: HostView, label: Seq<char>) -> HostView {
    HostView { panes: h.panes.remove(label), ..h }
}

/// Show and hide toggle only the pane's visibility.
pub open spec fn set_visible_t(h: HostView, label: Seq<char>, visible: bool) -> HostView {
    HostView { panes: h.panes.insert(label, PaneView { visible, ..h.panes[label] }), ..h }
}

/// Reposition replaces only the pane's bounds.
pub open spec fn reposition_t(h: HostView, label: Seq<char>, bounds: Rect) -> HostView {
    HostView { panes: h.panes.insert(label, PaneView { bounds, ..h.panes[label] }), ..h }
}

/// A navigation-started callback marks the pane's navigation as begun and
/// records the started event.
pub open spec fn started_t(h: HostView, label: Seq<char>, url: Seq<char>) -> HostView {
    HostView {
        panes: h.panes.insert(label, PaneView { phase: NavPhase::Started, ..h.panes[label] }),
        sent: h.sent.push(EventView { kind: EventKind::NavigationStarted, label, text: url }),
        ..h
    }
}

/// A page-load callback marks the begun navigation as finished and records
/// the navigated event.
pub open spec fn loaded_t(h: HostView, label: Seq<char>, url: Seq<char>) -> HostView {
    HostView {
        panes: h.panes.insert(label, PaneView { phase: NavPhase::Loaded, ..h.panes[label] }),
        sent: h.sent.push(EventView { kind: EventKind::Navigated, label, text: url }),
        ..h
    }
}

/// A title-changed callback only records the title event.
pub open spec fn title_t(h: HostView, label: Seq<char>, title: Seq<char>) -> HostView {
    HostView {
        sent: h.sent.push(EventView { kind: EventKind::TitleChanged, label, text: title }),
        ..h
    }
}

/// Why a lifecycle operation reported failure.
#[derive(Debug)]
pub enum PaneError {
    /// The target URL failed to parse; carries the parser's message.
    InvalidUrl(String),
    /// The host window's display scale factor could not be read.
    ScaleUnavailable,
    /// A live pane already holds the label; create rejects deterministically
    /// rather than replacing or duplicating.
    DuplicateLabel(String),
    /// The label resolves to no pane; carries the label.
    NotFound(String),
}

impl PaneError {
    /// The message the frontend is shown for this failure.
    pub open spec fn message_view(self) -> Seq<char> {
        match self {
            PaneError::InvalidUrl(detail) => "Failed to parse URL: "@ + detail@,
            PaneError::ScaleUnavailable => "Failed to read the window scale factor"@,
            PaneError::DuplicateLabel(label) => "Webview '"@ + label@ + "' already exists"@,
            PaneError::NotFound(label) => "Webview '"@ + label@ + "' not found"@,
        }
    }

    /// Renders the failure for the frontend; a not-found or duplicate message
    /// names the label it is about.
    pub fn message(&self) -> (m: String)
        ensures
            m@ == self.message_view(),
    {
        match self {
            PaneError::InvalidUrl(detail) => {
                let mut m = String::from_str("Failed to parse URL: ");
                m.append(detail.as_str());
                proof {
                    assert(m@ =~= self.message_view());
                }
                m
            },
            PaneError::ScaleUnavailable => String::from_str(
                "Failed to read the window scale factor",
            ),
            PaneError::DuplicateLabel(label) => {
                let mut m = String::from_str("Webview '");
                m.append(label.as_str());
                m.append("' already exists");
                proof {
                    assert(m@ =~= self.message_view());
                }
                m
            },
            PaneError::NotFound(label) => {
                let mut m = String::from_str("Webview '");
                m.append(label.as_str());
                m.append("' not found");
                proof {
                    assert(m@ =~= self.message_view());
                }
                m
            },
        }
    }
}

/// Everything the host needs to attach one new pane surface: the label, the
/// normalized URL to load, the transformed bounds, and the initialization
/// script to install.
pub struct AttachRequest {
    pub label: String,
    pub url: String,
    pub bounds: Rect,
    pub script: String,
}

/// A script for the host to evaluate in one pane.
pub struct EvalRequest {
    pub label: String,
    pub script: String,
}

/// One native-surface mutation for the host to perform.
#[derive(Clone, Copy, PartialEq, Eq, Structural, Debug)]
pub enum SurfaceOp {
    /// Move the surface to this logical position.
    SetPosition(i64, i64),
    /// Resize the surface to this logical size.
    SetSize(i64, i64),
}

/// The host window's pane registry and relay, as the lifecycle manager sees
/// them. Operations resolve the label, decide, record the state change, and
/// return the exact native action for the caller to perform.
pub struct PaneHost {
    policy: Policy,
    variant: ScriptVariant,
    relay: EventRelay,
    panes: Vec<Pane>,
}

impl View for PaneHost {
    type V = HostView;

    closed spec fn view(&self) -> HostView {
        HostView {
            panes: panes_map(self.panes@),
            sent: self.relay.sent_view(),
            policy: self.policy,
            variant: self.variant,
            dest: self.relay.dest_view(),
        }
    }
}

impl PaneHost {
    /// Labels are unique; the relay's record is navigation-ordered; and a
    /// pane in a started navigation has its started event on record.
    pub closed spec fn wf(&self) -> bool {
        &&& unique_labels(self.panes@)
        &&& nav_ordered(self.relay.sent_view())
        &&& phase_link(self.panes@, self.relay.sent_view())
    }

    /// An empty host: one geometry policy and one script variant for every
    /// operation of this build, and one fixed relay destination.
    pub fn new(policy: Policy, variant: ScriptVariant, dest: String) -> (h: PaneHost)
        ensures
            h.wf(),
            h@.panes == Map::<Seq<char>, PaneView>::empty(),
            h@.sent == Seq::<EventView>::empty(),
            h@.policy == policy,
            h@.variant == variant,
            h@.dest == dest@,
    {
        let h = PaneHost { policy, variant, relay: EventRelay::new(dest), panes: Vec::new() };
        proof {
            assert(h@.panes =~= Map::<Seq<char>, PaneView>::empty());
        }
        h
    }

    /// The position of the pane carrying the label, if any: every operation
    /// opens with this resolution, fresh on each call.
    fn find(&self, label: &str) -> (r: Option<usize>)
        ensures
            r matches Some(i) ==> i < self.panes@.len() && self.panes@[i as int].label@ == label@,
            r is Some <==> has_label(self.panes@, label@),
    {
        let key = String::from_str(label);
        let n = self.panes.len();
        let mut i: usize = 0;
        while i < n
            invariant
                i <= n,
                n == self.panes@.len(),
                key@ == label@,
                forall|j: int| 0 <= j < i ==> (#[trigger] self.panes@[j]).label@ != label@,
            decreases n - i,
        {
            if self.panes[i].label.eq(&key) {
                return Some(i);
            }
            i = i + 1;
        }
        None
    }

    /// Whether a pane currently holds the label.
    pub fn has_pane(&self, label: &str) -> (b: bool)
        ensures
            b == self@.panes.contains_key(label@),
    {
        self.find(label).is_some()
    }

    /// The pane's current visibility, when the label resolves.
    pub fn is_visible(&self, label: &str) -> (r: Option<bool>)
        requires
            self.wf(),
        ensures
            r is Some <==> self@.panes.contains_key(label@),
            r matches Some(v) ==> v == self@.panes[label@].visible,
    {
        match self.find(label) {
            Some(i) => {
                proof {
                    lemma_label_index_of_found(self.panes@, label@, i as int);
                }
                Some(self.panes[i].visible)
            },
            None => None,
        }
    }

    /// The pane's current logical bounds, when the label resolves.
    pub fn pane_bounds(&self, label: &str) -> (r: Option<Rect>)
        requires
            self.wf(),
        ensures
            r is Some <==> self@.panes.contains_key(label@),
            r matches Some(b) ==> b == self@.panes[label@].bounds,
    {
        match self.find(label) {
            Some(i) => {
                proof {
                    lemma_label_index_of_found(self.panes@, label@, i as int);
                }
                Some(self.panes[i].bounds)
            },
            None => None,
        }
    }

    /// The relay's record of events handed over for delivery, oldest first.
    pub fn events(&self) -> (r: &Vec<HostEvent>)
        ensures
            r@.len() == self@.sent.len(),
            forall|i: int| 0 <= i < r@.len() ==> (#[trigger] r@[i])@ == self@.sent[i],
    {
        self.relay.events()
    }
}

/// Every pane in a started navigation has its started event on record.
pub(crate) open spec fn phase_link(s: Seq<Pane>, log: Seq<EventView>) -> bool {
    forall|i: int|
        0 <= i < s.len() && (#[trigger] s[i]).phase is Started ==> started_in_log(
            log,
            s[i].label@,
        )
}

/// Replacing one pane keeps the phase link, provided the replacement's own
/// started event is on record whenever it is in a started navigation.
proof fn lemma_phase_link_update(s: Seq<Pane>, i: int, p: Pane, log: Seq<EventView>)
    requires
        phase_link(s, log),
        0 <= i < s.len(),
        p.phase is Started ==> started_in_log(log, p.label@),
    ensures
        phase_link(s.update(i, p), log),
{
    let s2 = s.update(i, p);
    assert forall|j: int| 0 <= j < s2.len() && (#[trigger] s2[j]).phase is Started implies
        started_in_log(log, s2[j].label@) by {
        if j != i {
            assert(s2[j] == s[j]);
        }
    }
}

/// Appending a pane keeps the phase link under the same proviso.
proof fn lemma_phase_link_push(s: Seq<Pane>, p: Pane, log: Seq<EventView>)
    requires
        phase_link(s, log),
        p.phase is Started ==> started_in_log(log, p.label@),
    ensures
        phase_link(s.push(p), log),
{
    let s2 = s.push(p);
    assert forall|j: int| 0 <= j < s2.len() && (#[trigger] s2[j]).phase is Started implies
        started_in_log(log, s2[j].label@) by {
        if j < s.len() {
            assert(s2[j] == s[j]);
        } else {
            assert(s2[j] == p);
        }
    }
}

/// Removing a pane keeps the phase link.
proof fn lemma_phase_link_remove(s: Seq<Pane>, i: int, log: Seq<EventView>)
    requires
        phase_link(s, log),
        0 <= i < s.len(),
    ensures
        phase_link(s.remove(i), log),
{
    let s2 = s.remove(i);
    assert forall|j: int| 0 <= j < s2.len() && (#[trigger] s2[j]).phase is Started implies
        started_in_log(log, s2[j].label@) by {
        let j0 = if j < i {
            j
        } else {
            j + 1
        };
        assert(s2[j] == s[j0]);
    }
}

/// Growing the log keeps the phase link.
proof fn lemma_phase_link_grow(s: Seq<Pane>, log: Seq<EventView>, e: EventView)
    requires
        phase_link(s, log),
    ensures
        phase_link(s, log.push(e)),
{
    assert forall|j: int| 0 <= j < s.len() && (#[trigger] s[j]).phase is Started implies
        started_in_log(log.push(e), s[j].label@) by {
        lemma_started_in_log_push(log, s[j].label@, e);
    }
}

/// Resolution and the registry map agree: the pane found at a position is the
/// map's entry for its label.
proof fn lemma_label_index_of_found(s: Seq<Pane>, l: Seq<char>, i: int)
    requires
        0 <= i < s.len(),
        s[i].label@ == l,
    ensures
        panes_map(s).contains_key(l),
        unique_labels(s) ==> panes_map(s)[l] == s[i]@,
{
    assert(has_label(s, l));
    if unique_labels(s) {
        lemma_label_index(s, l);
    }
}

impl PaneHost {
    /// Creates a pane: validates the target URL, transforms the rectangle,
    /// builds the label-bound initialization script, registers the pane, and
    /// returns the attach request for the host to perform. A label that is
    /// already live is rejected deterministically; a malformed URL or an
    /// unreadable scale factor aborts before any surface work. Should the
    /// host then fail to attach the surface, `close` on the label restores
    /// the registry, so no partial state is retained.
    pub fn create(&mut self, label: &str, url: &str, rect: Rect, scale: Option<Scale>) -> (out:
        Result<AttachRequest, PaneError>)
        requires
            old(self).wf(),
            rect.in_range(),
        ensures
            final(self).wf(),
            out is Ok <==> {
                &&& !old(self)@.panes.contains_key(label@)
                &&& url_accepted(url@)
                &&& transform_defined(old(self)@.policy, scale)
            },
            out matches Ok(req) ==> {
                &&& req.label@ == label@
                &&& req.url@ == url_normalized(url@)
                &&& is_logical_of(req.bounds, rect, old(self)@.policy, scale)
                &&& req.script@ == init_script_view(old(self)@.variant, label@, old(self)@.dest)
                &&& final(self)@ == create_t(old(self)@, label@, req.bounds)
            },
            out matches Err(e) ==> final(self)@ == old(self)@ && match e {
                PaneError::DuplicateLabel(l) => l@ == label@ && old(self)@.panes.contains_key(
                    label@,
                ),
                PaneError::InvalidUrl(_) => !old(self)@.panes.contains_key(label@)
                    && !url_accepted(url@),
                PaneError::ScaleUnavailable => !old(self)@.panes.contains_key(label@)
                    && url_accepted(url@) && !transform_defined(old(self)@.policy, scale),
                PaneError::NotFound(_) => false,
            },
    {
        if self.find(label).is_some() {
            return Err(PaneError::DuplicateLabel(String::from_str(label)));
        }
        let normalized = match parse_url(url) {
            Ok(n) => n,
            Err(detail) => {
                return Err(PaneError::InvalidUrl(detail));
            },
        };
        let bounds = match to_logical(rect, self.policy, scale) {
            Ok(b) => b,
            Err(_) => {
                return Err(PaneError::ScaleUnavailable);
            },
        };
        let script = build_init_script(self.variant, label, self.relay.dest());
        let pane = Pane {
            label: String::from_str(label),
            bounds,
            visible: true,
            phase: NavPhase::Idle,
        };
        proof {
            lemma_map_push(self.panes@, pane);
            lemma_phase_link_push(self.panes@, pane, self.relay.sent_view());
            assert(pane@ == (PaneView { bounds, visible: true, phase: NavPhase::Idle }));
        }
        self.panes.push(pane);
        proof {
            assert(self@ =~= create_t(old(self)@, label@, bounds));
        }
        Ok(AttachRequest { label: String::from_str(label), url: normalized, bounds, script })
    }

    /// Toggles the pane's visibility; a missing label degrades to a no-op.
    fn set_visible(&mut self, label: &str, visible: bool) -> (found: bool)
        requires
            old(self).wf(),
        ensures
            final(self).wf(),
            found <==> old(self)@.panes.contains_key(label@),
            found ==> final(self)@ == set_visible_t(old(self)@, label@, visible),
            !found ==> final(self)@ == old(self)@,
    {
        match self.find(label) {
            Some(i) => {
                proof {
                    lemma_label_index_of_found(self.panes@, label@, i as int);
                }
                self.panes[i].visible = visible;
                proof {
                    lemma_map_update(old(self).panes@, i as int, self.panes@[i as int]);
                    lemma_phase_link_update(
                        old(self).panes@,
                        i as int,
                        self.panes@[i as int],
                        self.relay.sent_view(),
                    );
                    assert(self@ =~= set_visible_t(old(self)@, label@, visible));
                }
                true
            },
            None => false,
        }
    }

    /// Shows the pane. The host performs the native show when `true` comes
    /// back; a missing label — say, a show racing a close that already won —
    /// degrades to a no-op rather than an error.
    pub fn show_pane(&mut self, label: &str) -> (found: bool)
        requires
            old(self).wf(),
        ensures
            final(self).wf(),
            found <==> old(self)@.panes.contains_key(label@),
            found ==> final(self)@ == set_visible_t(old(self)@, label@, true),
            !found ==> final(self)@ == old(self)@,
    {
        self.set_visible(label, true)
    }

    /// Hides the pane; the pane keeps its native handle and state. A missing
    /// label degrades to a no-op rather than an error.
    pub fn hide_pane(&mut self, label: &str) -> (found: bool)
        requires
            old(self).wf(),
        ensures
            final(self).wf(),
            found <==> old(self)@.panes.contains_key(label@),
            found ==> final(self)@ == set_visible_t(old(self)@, label@, false),
            !found ==> final(self)@ == old(self)@,
    {
        self.set_visible(label, false)
    }

    /// Closes the pane: the label leaves the registry and the host destroys
    /// the native surface when `true` comes back. Close is idempotent: a
    /// missing label is a silent no-op.
    pub fn close(&mut self, label: &str) -> (found: bool)
        requires
            old(self).wf(),
        ensures
            final(self).wf(),
            found <==> old(self)@.panes.contains_key(label@),
            final(self)@ == close_t(old(self)@, label@),
            !found ==> final(self)@ == old(self)@,
    {
        match self.find(label) {
            Some(i) => {
                proof {
                    lemma_map_remove(self.panes@, i as int);
                    lemma_phase_link_remove(self.panes@, i as int, self.relay.sent_view());
                }
                self.panes.remove(i);
                proof {
                    assert(self@ =~= close_t(old(self)@, label@));
                }
                true
            },
            None => {
                proof {
                    assert(old(self)@.panes.remove(label@) =~= old(self)@.panes);
                    assert(self@ =~= close_t(old(self)@, label@));
                }
                false
            },
        }
    }

    /// Repositions the pane: transforms the rectangle and returns the two
    /// surface operations in the order the platform needs — position first,
    /// then size — to avoid transient layout flicker against the platform's
    /// own resize handling. A missing label degrades to a no-op; only a
    /// needed-but-unreadable scale factor is an error.
    pub fn reposition(&mut self, label: &str, rect: Rect, scale: Option<Scale>) -> (out: Result<
        Option<BoundsPlan>,
        PaneError,
    >)
        requires
            old(self).wf(),
            rect.in_range(),
        ensures
            final(self).wf(),
            out matches Ok(None) <==> !old(self)@.panes.contains_key(label@),
            out is Err <==> old(self)@.panes.contains_key(label@) && !transform_defined(
                old(self)@.policy,
                scale,
            ),
            out matches Err(e) ==> e is ScaleUnavailable && final(self)@ == old(self)@,
            out matches Ok(None) ==> final(self)@ == old(self)@,
            out matches Ok(Some(plan)) ==> {
                &&& is_logical_of(plan.bounds, rect, old(self)@.policy, scale)
                &&& plan.ops@.len() == 2
                &&& plan.ops@[0] == SurfaceOp::SetPosition(plan.bounds.x, plan.bounds.y)
                &&& plan.ops@[1] == SurfaceOp::SetSize(plan.bounds.width, plan.bounds.height)
                &&& final(self)@ == reposition_t(old(self)@, label@, plan.bounds)
            },
    {
        match self.find(label) {
            Some(i) => {
                proof {
                    lemma_label_index_of_found(self.panes@, label@, i as int);
                }
                let bounds = match to_logical(rect, self.policy, scale) {
                    Ok(b) => b,
                    Err(_) => {
                        return Err(PaneError::ScaleUnavailable);
                    },
                };
                self.panes[i].bounds = bounds;
                proof {
                    lemma_map_update(old(self).panes@, i as int, self.panes@[i as int]);
                    lemma_phase_link_update(
                        old(self).panes@,
                        i as int,
                        self.panes@[i as int],
                        self.relay.sent_view(),
                    );
                    assert(self@ =~= reposition_t(old(self)@, label@, bounds));
                }
                let mut ops: Vec<SurfaceOp> = Vec::new();
                ops.push(SurfaceOp::SetPosition(bounds.x, bounds.y));
                ops.push(SurfaceOp::SetSize(bounds.width, bounds.height));
                Ok(Some(BoundsPlan { bounds, ops }))
            },
            None => Ok(None),
        }
    }

    /// Navigates the pane by assigning the target URL through the pane's own
    /// script execution; success means the script was dispatched, not that
    /// navigation completed. The URL is spliced in as the caller supplied it.
    /// A missing label is a reported error: the caller needs to know
    /// navigation did not happen.
    pub fn navigate(&self, label: &str, url: &str) -> (out: Result<EvalRequest, PaneError>)
        ensures
            out is Ok <==> self@.panes.contains_key(label@),
            out matches Ok(req) ==> req.label@ == label@ && req.script@ == navigate_script_view(
                url@,
            ),
            out matches Err(e) ==> e matches PaneError::NotFound(l) && l@ == label@,
    {
        match self.find(label) {
            Some(_) => Ok(
                EvalRequest { label: String::from_str(label), script: build_navigate_script(url) },
            ),
            None => Err(PaneError::NotFound(String::from_str(label))),
        }
    }

    /// Triggers a full reload of the pane via script execution. A missing
    /// label is a reported error.
    pub fn reload(&self, label: &str) -> (out: Result<EvalRequest, PaneError>)
        ensures
            out is Ok <==> self@.panes.contains_key(label@),
            out matches Ok(req) ==> req.label@ == label@ && req.script@ == RELOAD_SCRIPT@,
            out matches Err(e) ==> e matches PaneError::NotFound(l) && l@ == label@,
    {
        match self.find(label) {
            Some(_) => Ok(
                EvalRequest {
                    label: String::from_str(label),
                    script: String::from_str(RELOAD_SCRIPT),
                },
            ),
            None => Err(PaneError::NotFound(String::from_str(label))),
        }
    }

    /// Steps the pane one history entry back via the browsing-history script
    /// primitive. A missing label is a reported error.
    pub fn back(&self, label: &str) -> (out: Result<EvalRequest, PaneError>)
        ensures
            out is Ok <==> self@.panes.contains_key(label@),
            out matches Ok(req) ==> req.label@ == label@ && req.script@ == BACK_SCRIPT@,
            out matches Err(e) ==> e matches PaneError::NotFound(l) && l@ == label@,
    {
        match self.find(label) {
            Some(_) => Ok(
                EvalRequest {
                    label: String::from_str(label),
                    script: String::from_str(BACK_SCRIPT),
                },
            ),
            None => Err(PaneError::NotFound(String::from_str(label))),
        }
    }

    /// Steps the pane one history entry forward via the browsing-history
    /// script primitive. A missing label is a reported error.
    pub fn forward(&self, label: &str) -> (out: Result<EvalRequest, PaneError>)
        ensures
            out is Ok <==> self@.panes.contains_key(label@),
            out matches Ok(req) ==> req.label@ == label@ && req.script@ == FORWARD_SCRIPT@,
            out matches Err(e) ==> e matches PaneError::NotFound(l) && l@ == label@,
    {
        match self.find(label) {
            Some(_) => Ok(
                EvalRequest {
                    label: String::from_str(label),
                    script: String::from_str(FORWARD_SCRIPT),
                },
            ),
            None => Err(PaneError::NotFound(String::from_str(label))),
        }
    }

    /// Returns `(canGoBack, canGoForward)`. The embedding platform exposes no
    /// reliable history introspection for externally loaded content, so this
    /// is a deliberate, documented approximation: back is always reported
    /// reachable once the pane exists — the in-page history primitive itself
    /// no-ops at the boundary — and forward is never reported, for want of a
    /// reliable forward-state signal.
    pub fn query_navigation_state(&self, label: &str) -> (out: Result<(bool, bool), PaneError>)
        ensures
            out is Ok <==> self@.panes.contains_key(label@),
            out matches Ok(state) ==> state == (true, false),
            out matches Err(e) ==> e matches PaneError::NotFound(l) && l@ == label@,
    {
        match self.find(label) {
            Some(_) => Ok((true, false)),
            None => Err(PaneError::NotFound(String::from_str(label))),
        }
    }

    /// The navigation-start callback: marks the pane's navigation begun and
    /// hands back the started event, recorded for delivery. A label the host
    /// no longer knows produces nothing — an event from a pane closed
    /// meanwhile is dropped at the source.
    pub fn navigation_started(&mut self, label: &str, url: &str) -> (out: Option<HostEvent>)
        requires
            old(self).wf(),
        ensures
            final(self).wf(),
            out is Some <==> old(self)@.panes.contains_key(label@),
            out matches Some(e) ==> e@ == (EventView {
                kind: EventKind::NavigationStarted,
                label: label@,
                text: url@,
            }) && final(self)@ == started_t(old(self)@, label@, url@),
            out is None ==> final(self)@ == old(self)@,
    {
        match self.find(label) {
            Some(i) => {
                proof {
                    lemma_label_index_of_found(self.panes@, label@, i as int);
                }
                self.panes[i].phase = NavPhase::Started;
                proof {
                    lemma_map_update(old(self).panes@, i as int, self.panes@[i as int]);
                }
                let e_log = HostEvent::NavigationStarted {
                    label: String::from_str(label),
                    url: String::from_str(url),
                };
                let ghost ev = EventView {
                    kind: EventKind::NavigationStarted,
                    label: label@,
                    text: url@,
                };
                self.relay.record(e_log);
                proof {
                    let log0 = old(self).relay.sent_view();
                    let log1 = self.relay.sent_view();
                    lemma_nav_ordered_push_other(log0, ev);
                    lemma_phase_link_grow(old(self).panes@, log0, ev);
                    assert(log1[log1.len() - 1] == ev);
                    assert(started_in_log(log1, label@));
                    lemma_phase_link_update(old(self).panes@, i as int, self.panes@[i as int], log1);
                    assert(self@ =~= started_t(old(self)@, label@, url@));
                }
                Some(
                    HostEvent::NavigationStarted {
                        label: String::from_str(label),
                        url: String::from_str(url),
                    },
                )
            },
            None => None,
        }
    }

    /// The page-load callback: marks the begun navigation finished and hands
    /// back the navigated event, recorded for delivery. A pane without a
    /// begun navigation, or a label the host no longer knows, produces
    /// nothing.
    pub fn page_loaded(&mut self, label: &str, url: &str) -> (out: Option<HostEvent>)
        requires
            old(self).wf(),
        ensures
            final(self).wf(),
            out is Some <==> old(self)@.panes.contains_key(label@)
                && old(self)@.panes[label@].phase is Started,
            out matches Some(e) ==> e@ == (EventView {
                kind: EventKind::Navigated,
                label: label@,
                text: url@,
            }) && final(self)@ == loaded_t(old(self)@, label@, url@),
            out is None ==> final(self)@ == old(self)@,
    {
        match self.find(label) {
            Some(i) => {
                proof {
                    lemma_label_index_of_found(self.panes@, label@, i as int);
                }
                let phase = self.panes[i].phase;
                match phase {
                    NavPhase::Started => {
                        self.panes[i].phase = NavPhase::Loaded;
                        proof {
                            lemma_map_update(old(self).panes@, i as int, self.panes@[i as int]);
                        }
                        let e_log = HostEvent::Navigated {
                            label: String::from_str(label),
                            url: String::from_str(url),
                        };
                        let ghost ev = EventView {
                            kind: EventKind::Navigated,
                            label: label@,
                            text: url@,
                        };
                        self.relay.record(e_log);
                        proof {
                            let log0 = old(self).relay.sent_view();
                            let log1 = self.relay.sent_view();
                            assert(old(self).panes@[i as int].phase is Started);
                            assert(started_in_log(log0, label@));
                            lemma_nav_ordered_push_navigated(log0, ev);
                            lemma_phase_link_grow(old(self).panes@, log0, ev);
                            lemma_phase_link_update(
                                old(self).panes@,
                                i as int,
                                self.panes@[i as int],
                                log1,
                            );
                            assert(self@ =~= loaded_t(old(self)@, label@, url@));
                        }
                        Some(
                            HostEvent::Navigated {
                                label: String::from_str(label),
                                url: String::from_str(url),
                            },
                        )
                    },
                    _ => None,
                }
            },
            None => None,
        }
    }

    /// The title-changed callback: hands back the title event, recorded for
    /// delivery. A label the host no longer knows produces nothing.
    pub fn title_changed(&mut self, label: &str, title: &str) -> (out: Option<HostEvent>)
        requires
            old(self).wf(),
        ensures
            final(self).wf(),
            out is Some <==> old(self)@.panes.contains_key(label@),
            out matches Some(e) ==> e@ == (EventView {
                kind: EventKind::TitleChanged,
                label: label@,
                text: title@,
            }) && final(self)@ == title_t(old(self)@, label@, title@),
            out is None ==> final(self)@ == old(self)@,
    {
        match self.find(label) {
            Some(_) => {
                let e_log = HostEvent::TitleChanged {
                    label: String::from_str(label),
                    title: String::from_str(title),
                };
                let ghost ev = EventView {
                    kind: EventKind::TitleChanged,
                    label: label@,
                    text: title@,
                };
                self.relay.record(e_log);
                proof {
                    lemma_nav_ordered_push_other(old(self).relay.sent_view(), ev);
                    lemma_phase_link_grow(old(self).panes@, old(self).relay.sent_view(), ev);
                    assert(self@ =~= title_t(old(self)@, label@, title@));
                }
                Some(
                    HostEvent::TitleChanged {
                        label: String::from_str(label),
                        title: String::from_str(title),
                    },
                )
            },
            None => None,
        }
    }
}

/// The native update for one reposition: the transformed bounds and the two
/// surface operations in the order the platform needs them applied.
pub struct BoundsPlan {
    pub bounds: Rect,
    pub ops: Vec<SurfaceOp>,
}

/// Law: creating a pane and then closing it leaves the registry without that
/// label, and a second close of the same label changes nothing further —
/// close is idempotent.
pub proof fn lemma_create_close(h: HostView, label: Seq<char>, bounds: Rect)
    ensures
        !close_t(create_t(h, label, bounds), label).panes.contains_key(label),
        close_t(close_t(create_t(h, label, bounds), label), label) == close_t(
            create_t(h, label, bounds),
            label,
        ),
{
    let h1 = close_t(create_t(h, label, bounds), label);
    assert(h1.panes.remove(label) =~= h1.panes);
    assert(close_t(h1, label) =~= h1);
}

/// Law: under the logical-input policy, repositioning a pane twice with the
/// same rectangle is the same as repositioning it once — the transform is the
/// identity, so both applications carry the same bounds, and the second
/// replaces them with themselves.
pub proof fn lemma_reposition_idempotent(
    h: HostView,
    label: Seq<char>,
    rect: Rect,
    b1: Rect,
    b2: Rect,
    s1: Option<Scale>,
    s2: Option<Scale>,
)
    requires
        h.panes.contains_key(label),
        is_logical_of(b1, rect, Policy::Logical, s1),
        is_logical_of(b2, rect, Policy::Logical, s2),
    ensures
        reposition_t(reposition_t(h, label, b1), label, b2) == reposition_t(h, label, b1),
{
    let h1 = reposition_t(h, label, b1);
    assert(h1.panes[label] == (PaneView { bounds: b1, ..h.panes[label] }));
    assert(reposition_t(h1, label, b2).panes =~= h1.panes);
    assert(reposition_t(h1, label, b2) =~= h1);
}

/// Law: in a well-formed host, every navigated record in the relay's log is
/// preceded by the started record of the same pane — for one navigation in
/// one pane, navigation-started is observable before navigated.
pub proof fn lemma_navigation_ordering(h: &PaneHost)
    requires
        h.wf(),
    ensures
        nav_ordered(h@.sent),
{
}

} // verus!
