//! Derived calendar events.
//!
//! An event is a read-only value combining a start instant with its
//! provenance: a concrete session, an assignment/submission pair, or an
//! assignment/presentation pair matched to a session of the requested
//! kind.  Events own copies of the records they were derived from, so they
//! are self-contained and their display fields (title, location,
//! presenters, description, link) are total functions of the event alone.

use vstd::prelude::*;

use crate::model::{
    Assignment, AssignmentV, Course, CourseV, Presentation, PresentationV, Session, SessionV,
    Submission, SubmissionV, WeekV, assignment_wf, clone_assignment, clone_presentation,
    clone_session, clone_submission, course_wf, session_wf, submission_wf, view_opt_str, week_wf,
};
use crate::order::{
    Cmp3, chain, cmp_assignment, cmp_int, cmp_presentation, cmp_session, compare_assignment,
    compare_i64, compare_presentation, compare_session, flip, lemma_flip_assignment,
    lemma_flip_presentation, lemma_flip_session,
};

verus! {

/// Provenance of a derived event.
pub enum EventBase {
    /// Directly from a concrete session.
    Session(Session),
    /// A submission deadline of an assignment.
    Submission(Assignment, Submission),
    /// A presentation of an assignment, matched to a session of its kind.
    Presentation(Assignment, Presentation, Session),
}

/// A derived, displayable occurrence.
pub struct Event {
    start: i64,
    base: EventBase,
}

#[verifier::ext_equal]
pub ghost enum EventBaseV {
    Session(SessionV),
    Submission(AssignmentV, SubmissionV),
    Presentation(AssignmentV, PresentationV, SessionV),
}

#[verifier::ext_equal]
pub ghost struct EventV {
    pub start: int,
    pub base: EventBaseV,
}

impl View for EventBase {
    type V = EventBaseV;

    closed spec fn view(&self) -> EventBaseV {
        match self {
            EventBase::Session(s) => EventBaseV::Session(s@),
            EventBase::Submission(a, s) => EventBaseV::Submission(a@, s@),
            EventBase::Presentation(a, p, s) => EventBaseV::Presentation(a@, p@, s@),
        }
    }
}

impl View for Event {
    type V = EventV;

    closed spec fn view(&self) -> EventV {
        EventV { start: self.start as int, base: self.base@ }
    }
}

/// Duration of a submission-deadline event: a five-minute marker.
pub const SUBMISSION_EVENT_SECONDS: i64 = 300;

/// The event's start is its provenance's start, and the underlying record
/// is bounded, so that the end instant cannot overflow.
pub open spec fn event_wf(e: EventV) -> bool {
    match e.base {
        EventBaseV::Session(s) => e.start == s.time && session_wf(s),
        EventBaseV::Submission(_, sub) => e.start == sub.time && submission_wf(sub),
        EventBaseV::Presentation(_, _, s) => e.start == s.time && session_wf(s),
    }
}

pub open spec fn events_wf(s: Seq<EventV>) -> bool {
    forall|i: int| 0 <= i < s.len() ==> event_wf(#[trigger] s[i])
}

// ----------------------------------------------------------------------
// Ordering of events: start time first, provenance kind next (session,
// then submission, then presentation), then the records' field order.
// ----------------------------------------------------------------------

pub open spec fn cmp_base(a: EventBaseV, b: EventBaseV) -> Cmp3 {
    match (a, b) {
        (EventBaseV::Session(x), EventBaseV::Session(y)) => cmp_session(x, y),
        (EventBaseV::Session(_), _) => Cmp3::Lt,
        (_, EventBaseV::Session(_)) => Cmp3::Gt,
        (EventBaseV::Submission(ax, sx), EventBaseV::Submission(ay, sy)) => chain(
            cmp_assignment(ax, ay),
            crate::order::cmp_submission(sx, sy),
        ),
        (EventBaseV::Submission(_, _), _) => Cmp3::Lt,
        (_, EventBaseV::Submission(_, _)) => Cmp3::Gt,
        (EventBaseV::Presentation(ax, px, sx), EventBaseV::Presentation(ay, py, sy)) => chain(
            cmp_assignment(ax, ay),
            chain(cmp_presentation(px, py), cmp_session(sx, sy)),
        ),
    }
}

pub open spec fn cmp_event(a: EventV, b: EventV) -> Cmp3 {
    chain(cmp_int(a.start, b.start), cmp_base(a.base, b.base))
}

/// `a` may stand before `b` in the ordered timeline.
pub open spec fn event_le(a: EventV, b: EventV) -> bool {
    cmp_event(a, b) != Cmp3::Gt
}

pub proof fn lemma_flip_base(a: EventBaseV, b: EventBaseV)
    ensures
        cmp_base(b, a) == flip(cmp_base(a, b)),
{
    match (a, b) {
        (EventBaseV::Session(x), EventBaseV::Session(y)) => lemma_flip_session(x, y),
        (EventBaseV::Submission(ax, sx), EventBaseV::Submission(ay, sy)) => {
            lemma_flip_assignment(ax, ay);
            crate::order::lemma_flip_submission(sx, sy);
        },
        (EventBaseV::Presentation(ax, px, sx), EventBaseV::Presentation(ay, py, sy)) => {
            lemma_flip_assignment(ax, ay);
            lemma_flip_presentation(px, py);
            lemma_flip_session(sx, sy);
        },
        _ => {},
    }
}

pub proof fn lemma_flip_event(a: EventV, b: EventV)
    ensures
        cmp_event(b, a) == flip(cmp_event(a, b)),
{
    lemma_flip_base(a.base, b.base);
}

pub proof fn lemma_eq_base(a: EventBaseV, b: EventBaseV)
    requires
        cmp_base(a, b) == Cmp3::Eq,
    ensures
        a == b,
{
    match (a, b) {
        (EventBaseV::Session(x), EventBaseV::Session(y)) => {
            crate::order::lemma_eq_session(x, y);
        },
        (EventBaseV::Submission(ax, sx), EventBaseV::Submission(ay, sy)) => {
            crate::order::lemma_eq_assignment(ax, ay);
            crate::order::lemma_eq_submission(sx, sy);
        },
        (EventBaseV::Presentation(ax, px, sx), EventBaseV::Presentation(ay, py, sy)) => {
            crate::order::lemma_eq_assignment(ax, ay);
            crate::order::lemma_eq_presentation(px, py);
            crate::order::lemma_eq_session(sx, sy);
        },
        _ => {},
    }
}

pub proof fn lemma_eq_event(a: EventV, b: EventV)
    requires
        cmp_event(a, b) == Cmp3::Eq,
    ensures
        a == b,
{
    lemma_eq_base(a.base, b.base);
    assert(a =~= b);
}

pub proof fn lemma_lt_trans_base(a: EventBaseV, b: EventBaseV, c: EventBaseV)
    requires
        cmp_base(a, b) == Cmp3::Lt,
        cmp_base(b, c) == Cmp3::Lt,
    ensures
        cmp_base(a, c) == Cmp3::Lt,
{
    match (a, b, c) {
        (EventBaseV::Session(x), EventBaseV::Session(y), EventBaseV::Session(z)) => {
            crate::order::lemma_lt_trans_session(x, y, z);
        },
        (
            EventBaseV::Submission(ax, sx),
            EventBaseV::Submission(ay, sy),
            EventBaseV::Submission(az, sz),
        ) => {
            if cmp_assignment(ax, ay) == Cmp3::Eq {
                crate::order::lemma_eq_assignment(ax, ay);
            }
            if cmp_assignment(ay, az) == Cmp3::Eq {
                crate::order::lemma_eq_assignment(ay, az);
            }
            if cmp_assignment(ax, ay) == Cmp3::Lt && cmp_assignment(ay, az) == Cmp3::Lt {
                crate::order::lemma_lt_trans_assignment(ax, ay, az);
            }
            if crate::order::cmp_submission(sx, sy) == Cmp3::Lt && crate::order::cmp_submission(
                sy,
                sz,
            ) == Cmp3::Lt {
                crate::order::lemma_lt_trans_submission(sx, sy, sz);
            }
        },
        (
            EventBaseV::Presentation(ax, px, sx),
            EventBaseV::Presentation(ay, py, sy),
            EventBaseV::Presentation(az, pz, sz),
        ) => {
            if cmp_assignment(ax, ay) == Cmp3::Eq {
                crate::order::lemma_eq_assignment(ax, ay);
            }
            if cmp_assignment(ay, az) == Cmp3::Eq {
                crate::order::lemma_eq_assignment(ay, az);
            }
            if cmp_assignment(ax, ay) == Cmp3::Lt && cmp_assignment(ay, az) == Cmp3::Lt {
                crate::order::lemma_lt_trans_assignment(ax, ay, az);
            }
            if cmp_presentation(px, py) == Cmp3::Eq {
                crate::order::lemma_eq_presentation(px, py);
            }
            if cmp_presentation(py, pz) == Cmp3::Eq {
                crate::order::lemma_eq_presentation(py, pz);
            }
            if cmp_presentation(px, py) == Cmp3::Lt && cmp_presentation(py, pz) == Cmp3::Lt {
                crate::order::lemma_lt_trans_presentation(px, py, pz);
            }
            if cmp_session(sx, sy) == Cmp3::Lt && cmp_session(sy, sz) == Cmp3::Lt {
                crate::order::lemma_lt_trans_session(sx, sy, sz);
            }
        },
        _ => {},
    }
}

pub proof fn lemma_lt_trans_event(a: EventV, b: EventV, c: EventV)
    requires
        cmp_event(a, b) == Cmp3::Lt,
        cmp_event(b, c) == Cmp3::Lt,
    ensures
        cmp_event(a, c) == Cmp3::Lt,
{
    if cmp_base(a.base, b.base) == Cmp3::Eq {
        lemma_eq_base(a.base, b.base);
    }
    if cmp_base(b.base, c.base) == Cmp3::Eq {
        lemma_eq_base(b.base, c.base);
    }
    if cmp_base(a.base, b.base) == Cmp3::Lt && cmp_base(b.base, c.base) == Cmp3::Lt {
        lemma_lt_trans_base(a.base, b.base, c.base);
    }
}

pub proof fn lemma_event_le_refl(a: EventV)
    ensures
        event_le(a, a),
{
    lemma_flip_event(a, a);
}

/// The timeline order is transitive: it is a total preorder on events.
pub proof fn lemma_event_le_trans(a: EventV, b: EventV, c: EventV)
    requires
        event_le(a, b),
        event_le(b, c),
    ensures
        event_le(a, c),
{
    if cmp_event(a, b) == Cmp3::Eq {
        lemma_eq_event(a, b);
    } else if cmp_event(b, c) == Cmp3::Eq {
        lemma_eq_event(b, c);
    } else {
        lemma_lt_trans_event(a, b, c);
    }
}

pub fn compare_base(a: &EventBase, b: &EventBase) -> (r: Cmp3)
    ensures
        r == cmp_base(a@, b@),
{
    match (a, b) {
        (EventBase::Session(x), EventBase::Session(y)) => compare_session(x, y),
        (EventBase::Session(_), _) => Cmp3::Lt,
        (_, EventBase::Session(_)) => Cmp3::Gt,
        (EventBase::Submission(ax, sx), EventBase::Submission(ay, sy)) => {
            match compare_assignment(ax, ay) {
                Cmp3::Eq => crate::order::compare_submission(sx, sy),
                c => c,
            }
        },
        (EventBase::Submission(_, _), _) => Cmp3::Lt,
        (_, EventBase::Submission(_, _)) => Cmp3::Gt,
        (EventBase::Presentation(ax, px, sx), EventBase::Presentation(ay, py, sy)) => {
            match compare_assignment(ax, ay) {
                Cmp3::Eq => match compare_presentation(px, py) {
                    Cmp3::Eq => compare_session(sx, sy),
                    c => c,
                },
                c => c,
            }
        },
    }
}

pub fn compare_event(a: &Event, b: &Event) -> (r: Cmp3)
    ensures
        r == cmp_event(a@, b@),
{
    match compare_i64(a.start, b.start) {
        Cmp3::Eq => compare_base(&a.base, &b.base),
        c => c,
    }
}

fn event_lt(a: &Event, b: &Event) -> (r: bool)
    ensures
        r == (cmp_event(a@, b@) == Cmp3::Lt),
{
    match compare_event(a, b) {
        Cmp3::Lt => true,
        _ => false,
    }
}

// ----------------------------------------------------------------------
// Display fields per provenance
// ----------------------------------------------------------------------

pub open spec fn event_duration(e: EventV) -> int {
    match e.base {
        EventBaseV::Session(s) => s.duration,
        EventBaseV::Submission(_, _) => SUBMISSION_EVENT_SECONDS as int,
        EventBaseV::Presentation(_, _, s) => s.duration,
    }
}

pub open spec fn event_title(e: EventV) -> Seq<char> {
    match e.base {
        EventBaseV::Session(s) => match s.title {
            Some(t) => t + " ("@ + s.kind + ")"@,
            None => "("@ + s.kind + ")"@,
        },
        EventBaseV::Submission(a, sub) => a.name + ": "@ + sub.name + " (submission)"@,
        EventBaseV::Presentation(a, p, _) => a.name + ": "@ + p.name + " (presentation)"@,
    }
}

pub open spec fn event_location(e: EventV) -> Option<Seq<char>> {
    match e.base {
        EventBaseV::Session(s) => s.location,
        EventBaseV::Submission(_, _) => None,
        EventBaseV::Presentation(_, _, s) => s.location,
    }
}

pub open spec fn event_presenters(e: EventV) -> Seq<Seq<char>> {
    match e.base {
        EventBaseV::Session(s) => s.presenters,
        EventBaseV::Submission(_, _) => Seq::empty(),
        EventBaseV::Presentation(_, _, s) => s.presenters,
    }
}

/// A submission's or presentation's own description overrides the
/// assignment's; session events carry none.
pub open spec fn event_description(e: EventV) -> Option<Seq<char>> {
    match e.base {
        EventBaseV::Session(_) => None,
        EventBaseV::Submission(a, sub) => if sub.description is Some {
            sub.description
        } else {
            a.description
        },
        EventBaseV::Presentation(a, p, _) => if p.description is Some {
            p.description
        } else {
            a.description
        },
    }
}

pub open spec fn event_link(e: EventV) -> Option<Seq<char>> {
    match e.base {
        EventBaseV::Session(_) => None,
        EventBaseV::Submission(a, _) => Some(a.link),
        EventBaseV::Presentation(a, _, _) => Some(a.link),
    }
}

impl Event {
    /// Start instant, seconds.
    pub fn start(&self) -> (r: i64)
        ensures
            r as int == self@.start,
    {
        self.start
    }

    /// Length in seconds: the session's length, or a five-minute marker
    /// for a submission deadline.
    pub fn duration(&self) -> (r: i64)
        ensures
            r as int == event_duration(self@),
    {
        match &self.base {
            EventBase::Session(s) => s.duration,
            EventBase::Submission(_, _) => SUBMISSION_EVENT_SECONDS,
            EventBase::Presentation(_, _, s) => s.duration,
        }
    }

    /// End instant: start plus duration.
    pub fn end(&self) -> (r: i64)
        requires
            event_wf(self@),
        ensures
            r as int == self@.start + event_duration(self@),
    {
        self.start + self.duration()
    }

    /// Display title: the session's title and kind, or the assignment and
    /// submission/presentation names with the provenance spelled out.
    pub fn title(&self) -> (r: String)
        ensures
            r@ == event_title(self@),
    {
        match &self.base {
            EventBase::Session(s) => {
                match &s.title {
                    Some(t) => {
                        let mut out = t.clone();
                        out.append(" (");
                        out.append(s.kind.as_str());
                        out.append(")");
                        out
                    },
                    None => {
                        let mut out = String::new();
                        out.append("(");
                        out.append(s.kind.as_str());
                        out.append(")");
                        out
                    },
                }
            },
            EventBase::Submission(a, sub) => {
                let mut out = a.name.clone();
                out.append(": ");
                out.append(sub.name.as_str());
                out.append(" (submission)");
                out
            },
            EventBase::Presentation(a, p, _) => {
                let mut out = a.name.clone();
                out.append(": ");
                out.append(p.name.as_str());
                out.append(" (presentation)");
                out
            },
        }
    }

    /// Where the event takes place, if its provenance has a location.
    pub fn location(&self) -> (r: Option<&str>)
        ensures
            view_opt_str(r) == event_location(self@),
    {
        match &self.base {
            EventBase::Session(s) => s.location(),
            EventBase::Submission(_, _) => None,
            EventBase::Presentation(_, _, s) => s.location(),
        }
    }

    /// Who presents, if the provenance is a session-backed event.
    pub fn presenters(&self) -> (r: Vec<&str>)
        ensures
            r@.map_values(|s: &str| s@) == event_presenters(self@),
    {
        match &self.base {
            EventBase::Session(s) => s.presenters(),
            EventBase::Submission(_, _) => {
                let out: Vec<&str> = Vec::new();
                proof {
                    assert(out@.map_values(|s: &str| s@) =~= Seq::<Seq<char>>::empty());
                }
                out
            },
            EventBase::Presentation(_, _, s) => s.presenters(),
        }
    }

    /// The event's description, with the assignment's as fallback.
    pub fn description(&self) -> (r: Option<&str>)
        ensures
            view_opt_str(r) == event_description(self@),
    {
        match &self.base {
            EventBase::Session(_) => None,
            EventBase::Submission(a, sub) => {
                match &sub.description {
                    Some(_) => sub.description(),
                    None => a.description(),
                }
            },
            EventBase::Presentation(a, p, _) => {
                match &p.description {
                    Some(_) => p.description(),
                    None => a.description(),
                }
            },
        }
    }

    /// The assignment's link, for assignment-derived events.
    pub fn link(&self) -> (r: Option<&str>)
        ensures
            view_opt_str(r) == event_link(self@),
    {
        match &self.base {
            EventBase::Session(_) => None,
            EventBase::Submission(a, _) => Some(a.link.as_str()),
            EventBase::Presentation(a, _, _) => Some(a.link.as_str()),
        }
    }
}

// ----------------------------------------------------------------------
// Projection: the flattened event sequence of a finalized course
// ----------------------------------------------------------------------

pub open spec fn session_event(s: SessionV) -> EventV {
    EventV { start: s.time, base: EventBaseV::Session(s) }
}

/// Events of the first `j` sessions of one week.
pub open spec fn week_events_upto(w: WeekV, j: int) -> Seq<EventV>
    decreases j,
{
    if j <= 0 {
        Seq::empty()
    } else {
        week_events_upto(w, j - 1).push(session_event(w.sessions[j - 1]))
    }
}

pub open spec fn week_events(w: WeekV) -> Seq<EventV> {
    week_events_upto(w, w.sessions.len() as int)
}

/// Session events of the first `i` weeks, in declaration order.
pub open spec fn weeks_events_upto(weeks: Seq<WeekV>, i: int) -> Seq<EventV>
    decreases i,
{
    if i <= 0 {
        Seq::empty()
    } else {
        weeks_events_upto(weeks, i - 1) + week_events(weeks[i - 1])
    }
}

/// One event per concrete session, across all weeks.
pub open spec fn session_events(weeks: Seq<WeekV>) -> Seq<EventV> {
    weeks_events_upto(weeks, weeks.len() as int)
}

pub open spec fn submission_event(a: AssignmentV, s: SubmissionV) -> EventV {
    EventV { start: s.time, base: EventBaseV::Submission(a, s) }
}

/// Events of the first `j` submissions of one assignment.
pub open spec fn submission_events_upto(a: AssignmentV, j: int) -> Seq<EventV>
    decreases j,
{
    if j <= 0 {
        Seq::empty()
    } else {
        submission_events_upto(a, j - 1).push(submission_event(a, a.submissions[j - 1]))
    }
}

pub open spec fn pres_event(a: AssignmentV, p: PresentationV, s: SessionV) -> EventV {
    EventV { start: s.time, base: EventBaseV::Presentation(a, p, s) }
}

/// Events of one presentation against the first `m` sessions of one week:
/// only sessions whose kind equals the presentation's label match.
pub open spec fn pres_session_events_upto(
    a: AssignmentV,
    p: PresentationV,
    w: WeekV,
    m: int,
) -> Seq<EventV>
    decreases m,
{
    if m <= 0 {
        Seq::empty()
    } else {
        let prefix = pres_session_events_upto(a, p, w, m - 1);
        if w.sessions[m - 1].kind == p.session {
            prefix.push(pres_event(a, p, w.sessions[m - 1]))
        } else {
            prefix
        }
    }
}

/// Events of one presentation in one referenced week; an out-of-range week
/// reference contributes nothing (deliberately permissive, unlike
/// expansion).
pub open spec fn pres_week_events(
    a: AssignmentV,
    p: PresentationV,
    weeks: Seq<WeekV>,
    wi: int,
) -> Seq<EventV> {
    if 0 <= wi < weeks.len() {
        pres_session_events_upto(a, p, weeks[wi], weeks[wi].sessions.len() as int)
    } else {
        Seq::empty()
    }
}

/// Events of one presentation over the first `k` entries of its week list.
pub open spec fn pres_events_upto(
    a: AssignmentV,
    p: PresentationV,
    weeks: Seq<WeekV>,
    k: int,
) -> Seq<EventV>
    decreases k,
{
    if k <= 0 {
        Seq::empty()
    } else {
        pres_events_upto(a, p, weeks, k - 1) + pres_week_events(a, p, weeks, p.weeks[k - 1])
    }
}

/// Events of the first `n` presentations of one assignment.
pub open spec fn pres_list_events_upto(a: AssignmentV, weeks: Seq<WeekV>, n: int) -> Seq<EventV>
    decreases n,
{
    if n <= 0 {
        Seq::empty()
    } else {
        pres_list_events_upto(a, weeks, n - 1) + pres_events_upto(
            a,
            a.presentations[n - 1],
            weeks,
            a.presentations[n - 1].weeks.len() as int,
        )
    }
}

/// All events of one assignment: its submissions, then its presentations.
pub open spec fn assignment_events(a: AssignmentV, weeks: Seq<WeekV>) -> Seq<EventV> {
    submission_events_upto(a, a.submissions.len() as int) + pres_list_events_upto(
        a,
        weeks,
        a.presentations.len() as int,
    )
}

/// Events of the first `n` assignments.
pub open spec fn assignments_events_upto(
    assigns: Seq<AssignmentV>,
    weeks: Seq<WeekV>,
    n: int,
) -> Seq<EventV>
    decreases n,
{
    if n <= 0 {
        Seq::empty()
    } else {
        assignments_events_upto(assigns, weeks, n - 1) + assignment_events(
            assigns[n - 1],
            weeks,
        )
    }
}

/// The flattened, unsorted event sequence of a course: every session, then
/// every assignment's submissions and matched presentations.
pub open spec fn course_events_unsorted(c: CourseV) -> Seq<EventV> {
    session_events(c.weeks) + assignments_events_upto(
        c.assignments,
        c.weeks,
        c.assignments.len() as int,
    )
}

// ----------------------------------------------------------------------
// Sorting
// ----------------------------------------------------------------------

/// `e` inserted before the first element it strictly precedes.
pub open spec fn insert_sorted(s: Seq<EventV>, e: EventV) -> Seq<EventV>
    decreases s.len(),
{
    if s.len() == 0 {
        seq![e]
    } else if cmp_event(e, s[0]) == Cmp3::Lt {
        seq![e] + s
    } else {
        seq![s[0]] + insert_sorted(s.drop_first(), e)
    }
}

/// Insertion sort of the event sequence, element by element in order.
pub open spec fn sort_events(s: Seq<EventV>) -> Seq<EventV>
    decreases s.len(),
{
    if s.len() == 0 {
        Seq::empty()
    } else {
        insert_sorted(sort_events(s.drop_last()), s.last())
    }
}

/// The chronologically ordered event sequence of a finalized course.
pub open spec fn course_events(c: CourseV) -> Seq<EventV> {
    sort_events(course_events_unsorted(c))
}

/// Adjacent elements stand in the timeline order.
pub open spec fn sorted_events(s: Seq<EventV>) -> bool {
    forall|i: int| 0 <= i && i + 1 < s.len() ==> event_le(#[trigger] s[i], s[i + 1])
}

pub proof fn lemma_insert_sorted_len(s: Seq<EventV>, e: EventV)
    ensures
        insert_sorted(s, e).len() == s.len() + 1,
    decreases s.len(),
{
    if s.len() > 0 && cmp_event(e, s[0]) != Cmp3::Lt {
        lemma_insert_sorted_len(s.drop_first(), e);
    }
}

pub proof fn lemma_sort_events_len(s: Seq<EventV>)
    ensures
        sort_events(s).len() == s.len(),
    decreases s.len(),
{
    if s.len() > 0 {
        lemma_sort_events_len(s.drop_last());
        lemma_insert_sorted_len(sort_events(s.drop_last()), s.last());
    }
}

proof fn lemma_insert_sorted_multiset(s: Seq<EventV>, e: EventV)
    ensures
        insert_sorted(s, e).to_multiset() == s.to_multiset().insert(e),
    decreases s.len(),
{
    broadcast use vstd::seq_lib::to_multiset_build;
    broadcast use vstd::seq_lib::to_multiset_insert;
    broadcast use vstd::multiset::group_multiset_axioms;

    if s.len() == 0 {
        assert(s =~= Seq::<EventV>::empty());
        assert(seq![e] =~= Seq::<EventV>::empty().push(e));
    } else if cmp_event(e, s[0]) == Cmp3::Lt {
        assert(seq![e] + s =~= s.insert(0, e));
    } else {
        let d = s.drop_first();
        lemma_insert_sorted_multiset(d, e);
        assert(seq![s[0]] + insert_sorted(d, e) =~= insert_sorted(d, e).insert(0, s[0]));
        assert(s =~= d.insert(0, s[0]));
        assert(d.to_multiset().insert(e).insert(s[0]) =~= d.to_multiset().insert(s[0]).insert(
            e,
        ));
    }
}

/// Sorting permutes the events: nothing is lost and nothing is added.
pub proof fn lemma_sort_events_multiset(s: Seq<EventV>)
    ensures
        sort_events(s).to_multiset() == s.to_multiset(),
    decreases s.len(),
{
    broadcast use vstd::seq_lib::to_multiset_build;

    if s.len() > 0 {
        lemma_sort_events_multiset(s.drop_last());
        lemma_insert_sorted_multiset(sort_events(s.drop_last()), s.last());
        assert(s =~= s.drop_last().push(s.last()));
        assert(s.drop_last().push(s.last()).to_multiset() == s.drop_last().to_multiset().insert(
            s.last(),
        ));
    } else {
        assert(s =~= Seq::<EventV>::empty());
    }
}

proof fn lemma_insert_sorted_sorted(s: Seq<EventV>, e: EventV)
    requires
        sorted_events(s),
    ensures
        sorted_events(insert_sorted(s, e)),
    decreases s.len(),
{
    if s.len() == 0 {
    } else if cmp_event(e, s[0]) == Cmp3::Lt {
        let r = seq![e] + s;
        assert forall|i: int| 0 <= i && i + 1 < r.len() implies event_le(#[trigger] r[i], r[i + 1]) by {
            if i == 0 {
                assert(r[0] == e && r[1] == s[0]);
            } else {
                assert(r[i] == s[i - 1] && r[i + 1] == s[i]);
            }
        }
    } else {
        let t = insert_sorted(s.drop_first(), e);
        assert(sorted_events(s.drop_first())) by {
            assert forall|i: int|
                0 <= i && i + 1 < s.drop_first().len() implies event_le(
                #[trigger] s.drop_first()[i],
                s.drop_first()[i + 1],
            ) by {
                assert(s.drop_first()[i] == s[i + 1] && s.drop_first()[i + 1] == s[i + 2]);
            }
        }
        lemma_insert_sorted_sorted(s.drop_first(), e);
        lemma_flip_event(e, s[0]);
        let r = seq![s[0]] + t;
        assert forall|i: int| 0 <= i && i + 1 < r.len() implies event_le(#[trigger] r[i], r[i + 1]) by {
            if i == 0 {
                assert(r[0] == s[0] && r[1] == t[0]);
                if s.drop_first().len() == 0 {
                    assert(t[0] == e);
                } else if cmp_event(e, s.drop_first()[0]) == Cmp3::Lt {
                    assert(t[0] == e);
                } else {
                    assert(t[0] == s.drop_first()[0]);
                    assert(s.drop_first()[0] == s[1]);
                    assert(event_le(s[0], s[1]));
                }
            } else {
                assert(r[i] == t[i - 1] && r[i + 1] == t[i]);
            }
        }
    }
}

proof fn lemma_sort_events_sorted(s: Seq<EventV>)
    ensures
        sorted_events(sort_events(s)),
    decreases s.len(),
{
    if s.len() > 0 {
        lemma_sort_events_sorted(s.drop_last());
        lemma_insert_sorted_sorted(sort_events(s.drop_last()), s.last());
    }
}

proof fn lemma_insert_sorted_wf(s: Seq<EventV>, e: EventV)
    requires
        events_wf(s),
        event_wf(e),
    ensures
        events_wf(insert_sorted(s, e)),
    decreases s.len(),
{
    if s.len() == 0 {
        assert(insert_sorted(s, e)[0] == e);
    } else if cmp_event(e, s[0]) == Cmp3::Lt {
        let r = seq![e] + s;
        assert forall|i: int| 0 <= i < r.len() implies event_wf(#[trigger] r[i]) by {
            if i > 0 {
                assert(r[i] == s[i - 1]);
            }
        }
    } else {
        assert(events_wf(s.drop_first())) by {
            assert forall|i: int| 0 <= i < s.drop_first().len() implies event_wf(
                #[trigger] s.drop_first()[i],
            ) by {
                assert(s.drop_first()[i] == s[i + 1]);
            }
        }
        lemma_insert_sorted_wf(s.drop_first(), e);
        let t = insert_sorted(s.drop_first(), e);
        let r = seq![s[0]] + t;
        assert forall|i: int| 0 <= i < r.len() implies event_wf(#[trigger] r[i]) by {
            if i > 0 {
                assert(r[i] == t[i - 1]);
            }
        }
    }
}

proof fn lemma_sort_events_wf(s: Seq<EventV>)
    requires
        events_wf(s),
    ensures
        events_wf(sort_events(s)),
    decreases s.len(),
{
    if s.len() > 0 {
        assert(events_wf(s.drop_last())) by {
            assert forall|i: int| 0 <= i < s.drop_last().len() implies event_wf(
                #[trigger] s.drop_last()[i],
            ) by {
                assert(s.drop_last()[i] == s[i]);
            }
        }
        lemma_sort_events_wf(s.drop_last());
        lemma_insert_sorted_wf(sort_events(s.drop_last()), s.last());
    }
}

/// Where the executable insertion lands: before the first element that
/// `e` strictly precedes.
proof fn lemma_insert_sorted_at(s: Seq<EventV>, e: EventV, j: int)
    requires
        0 <= j <= s.len(),
        forall|k: int| 0 <= k < j ==> cmp_event(e, #[trigger] s[k]) != Cmp3::Lt,
        j == s.len() || cmp_event(e, s[j]) == Cmp3::Lt,
    ensures
        insert_sorted(s, e) == s.take(j) + seq![e] + s.skip(j),
    decreases j,
{
    if j == 0 {
        if s.len() == 0 {
            assert(insert_sorted(s, e) =~= s.take(0) + seq![e] + s.skip(0));
        } else {
            assert(seq![e] + s =~= s.take(0) + seq![e] + s.skip(0));
        }
    } else {
        let d = s.drop_first();
        assert forall|k: int| 0 <= k < j - 1 implies cmp_event(e, #[trigger] d[k])
            != Cmp3::Lt by {
            assert(d[k] == s[k + 1]);
        }
        if j - 1 < d.len() {
            assert(d[j - 1] == s[j]);
        }
        lemma_insert_sorted_at(d, e, j - 1);
        assert(seq![s[0]] + (d.take(j - 1) + seq![e] + d.skip(j - 1)) =~= s.take(j) + seq![e]
            + s.skip(j));
    }
}

/// Adjacent sortedness extends to every pair: any earlier element stands
/// at or before any later one in the timeline order.
pub proof fn lemma_sorted_pairwise(s: Seq<EventV>, i: int, j: int)
    requires
        sorted_events(s),
        0 <= i <= j < s.len(),
    ensures
        event_le(s[i], s[j]),
        s[i].start <= s[j].start,
    decreases j - i,
{
    if i == j {
        lemma_event_le_refl(s[i]);
    } else {
        lemma_sorted_pairwise(s, i, j - 1);
        assert(event_le(s[j - 1], s[j]));
        lemma_event_le_trans(s[i], s[j - 1], s[j]);
    }
}

// ----------------------------------------------------------------------
// Event counts
// ----------------------------------------------------------------------

/// Number of sessions among the first `m` of one week that match the
/// presentation's kind label.
pub open spec fn week_match_count(p: PresentationV, w: WeekV, m: int) -> int
    decreases m,
{
    if m <= 0 {
        0
    } else {
        week_match_count(p, w, m - 1) + if w.sessions[m - 1].kind == p.session {
            1int
        } else {
            0int
        }
    }
}

/// Matched presentation/session pairs of one presentation over the first
/// `k` entries of its week list.
pub open spec fn pres_match_count(p: PresentationV, weeks: Seq<WeekV>, k: int) -> int
    decreases k,
{
    if k <= 0 {
        0
    } else {
        pres_match_count(p, weeks, k - 1) + if 0 <= p.weeks[k - 1] < weeks.len() {
            week_match_count(
                p,
                weeks[p.weeks[k - 1]],
                weeks[p.weeks[k - 1]].sessions.len() as int,
            )
        } else {
            0int
        }
    }
}

/// Matched presentation/session pairs of the first `n` presentations of
/// one assignment.
pub open spec fn assignment_match_count(a: AssignmentV, weeks: Seq<WeekV>, n: int) -> int
    decreases n,
{
    if n <= 0 {
        0
    } else {
        assignment_match_count(a, weeks, n - 1) + pres_match_count(
            a.presentations[n - 1],
            weeks,
            a.presentations[n - 1].weeks.len() as int,
        )
    }
}

/// Submissions of the first `n` assignments.
pub open spec fn total_submissions(assigns: Seq<AssignmentV>, n: int) -> int
    decreases n,
{
    if n <= 0 {
        0
    } else {
        total_submissions(assigns, n - 1) + assigns[n - 1].submissions.len()
    }
}

/// Matched presentation/session pairs of the first `n` assignments.
pub open spec fn total_matches(assigns: Seq<AssignmentV>, weeks: Seq<WeekV>, n: int) -> int
    decreases n,
{
    if n <= 0 {
        0
    } else {
        total_matches(assigns, weeks, n - 1) + assignment_match_count(
            assigns[n - 1],
            weeks,
            assigns[n - 1].presentations.len() as int,
        )
    }
}

proof fn lemma_week_events_len(w: WeekV, j: int)
    requires
        0 <= j,
    ensures
        week_events_upto(w, j).len() == j,
    decreases j,
{
    if j > 0 {
        lemma_week_events_len(w, j - 1);
    }
}

proof fn lemma_weeks_events_len(weeks: Seq<WeekV>, i: int)
    requires
        0 <= i,
    ensures
        weeks_events_upto(weeks, i).len() == crate::expand::total_sessions_upto(weeks, i),
    decreases i,
{
    if i > 0 {
        lemma_weeks_events_len(weeks, i - 1);
        lemma_week_events_len(weeks[i - 1], weeks[i - 1].sessions.len() as int);
    }
}

proof fn lemma_submission_events_len(a: AssignmentV, j: int)
    requires
        0 <= j,
    ensures
        submission_events_upto(a, j).len() == j,
    decreases j,
{
    if j > 0 {
        lemma_submission_events_len(a, j - 1);
    }
}

proof fn lemma_pres_session_events_len(a: AssignmentV, p: PresentationV, w: WeekV, m: int)
    requires
        0 <= m,
    ensures
        pres_session_events_upto(a, p, w, m).len() == week_match_count(p, w, m),
    decreases m,
{
    if m > 0 {
        lemma_pres_session_events_len(a, p, w, m - 1);
    }
}

proof fn lemma_pres_events_len(a: AssignmentV, p: PresentationV, weeks: Seq<WeekV>, k: int)
    requires
        0 <= k,
    ensures
        pres_events_upto(a, p, weeks, k).len() == pres_match_count(p, weeks, k),
    decreases k,
{
    if k > 0 {
        lemma_pres_events_len(a, p, weeks, k - 1);
        let wi = p.weeks[k - 1];
        if 0 <= wi < weeks.len() {
            lemma_pres_session_events_len(a, p, weeks[wi], weeks[wi].sessions.len() as int);
        }
    }
}

proof fn lemma_pres_list_events_len(a: AssignmentV, weeks: Seq<WeekV>, n: int)
    requires
        0 <= n,
    ensures
        pres_list_events_upto(a, weeks, n).len() == assignment_match_count(a, weeks, n),
    decreases n,
{
    if n > 0 {
        lemma_pres_list_events_len(a, weeks, n - 1);
        lemma_pres_events_len(
            a,
            a.presentations[n - 1],
            weeks,
            a.presentations[n - 1].weeks.len() as int,
        );
    }
}

proof fn lemma_assignments_events_len(assigns: Seq<AssignmentV>, weeks: Seq<WeekV>, n: int)
    requires
        0 <= n,
    ensures
        assignments_events_upto(assigns, weeks, n).len() == total_submissions(assigns, n)
            + total_matches(assigns, weeks, n),
    decreases n,
{
    if n > 0 {
        lemma_assignments_events_len(assigns, weeks, n - 1);
        let a = assigns[n - 1];
        lemma_submission_events_len(a, a.submissions.len() as int);
        lemma_pres_list_events_len(a, weeks, a.presentations.len() as int);
    }
}

// ----------------------------------------------------------------------
// Public laws
// ----------------------------------------------------------------------

/// The derived timeline covers its sources exactly: one event per
/// session, one per submission of every assignment, and one per matched
/// presentation/session pair — no more, no fewer.
pub proof fn lemma_course_events_count(c: CourseV)
    ensures
        course_events(c).len() == crate::expand::total_sessions(c.weeks) + total_submissions(
            c.assignments,
            c.assignments.len() as int,
        ) + total_matches(c.assignments, c.weeks, c.assignments.len() as int),
        course_events(c).to_multiset() == course_events_unsorted(c).to_multiset(),
{
    lemma_weeks_events_len(c.weeks, c.weeks.len() as int);
    lemma_assignments_events_len(c.assignments, c.weeks, c.assignments.len() as int);
    lemma_sort_events_len(course_events_unsorted(c));
    lemma_sort_events_multiset(course_events_unsorted(c));
}

/// The derived timeline is ordered: start times never decrease, and
/// events sharing a start instant stand in the deterministic field order
/// of their provenance.
pub proof fn lemma_course_events_sorted(c: CourseV)
    ensures
        sorted_events(course_events(c)),
        forall|i: int, j: int|
            #![trigger course_events(c)[i], course_events(c)[j]]
            0 <= i <= j < course_events(c).len() ==> event_le(
                course_events(c)[i],
                course_events(c)[j],
            ) && course_events(c)[i].start <= course_events(c)[j].start,
{
    lemma_sort_events_sorted(course_events_unsorted(c));
    assert forall|i: int, j: int|
        #![trigger course_events(c)[i], course_events(c)[j]]
        0 <= i <= j < course_events(c).len() implies event_le(
        course_events(c)[i],
        course_events(c)[j],
    ) && course_events(c)[i].start <= course_events(c)[j].start by {
        lemma_sorted_pairwise(course_events(c), i, j);
    }
}

// ----------------------------------------------------------------------
// Executable projection
// ----------------------------------------------------------------------

pub open spec fn events_view(s: Seq<Event>) -> Seq<EventV> {
    s.map_values(|e: Event| e@)
}

proof fn lemma_events_view_push(s: Seq<Event>, e: Event)
    ensures
        events_view(s.push(e)) == events_view(s).push(e@),
{
    assert(events_view(s.push(e)) =~= events_view(s).push(e@));
}

proof fn lemma_events_view_concat(s1: Seq<Event>, s2: Seq<Event>)
    ensures
        events_view(s1 + s2) == events_view(s1) + events_view(s2),
{
    assert(events_view(s1 + s2) =~= events_view(s1) + events_view(s2));
}

impl Assignment {
    /// All events of this assignment within the given course: one per
    /// submission, then one per matched presentation/session pair, in
    /// week-list order; out-of-range week references match nothing.
    pub(crate) fn events(&self, course: &Course) -> (r: Vec<Event>)
        requires
            course_wf(course@),
            assignment_wf(self@),
        ensures
            events_view(r@) == assignment_events(self@, course@.weeks),
            events_wf(events_view(r@)),
    {
        let ghost av = self@;
        let ghost weeksv = course@.weeks;
        let mut out: Vec<Event> = Vec::new();
        let mut j: usize = 0;
        proof {
            assert(events_view(out@) =~= submission_events_upto(av, 0));
        }
        while j < self.submissions.len()
            invariant
                course_wf(course@),
                assignment_wf(av),
                av == self@,
                weeksv == course@.weeks,
                j <= self.submissions.len(),
                self.submissions@.len() == av.submissions.len(),
                events_view(out@) == submission_events_upto(av, j as int),
                events_wf(events_view(out@)),
            decreases self.submissions.len() - j,
        {
            let ghost snap = out@;
            let a = clone_assignment(self);
            let sub = clone_submission(&self.submissions[j]);
            let start = self.submissions[j].time;
            out.push(Event { start, base: EventBase::Submission(a, sub) });
            proof {
                lemma_events_view_push(snap, out@.last());
                assert(out@.last()@ == submission_event(av, av.submissions[j as int]));
                assert(submission_wf(av.submissions[j as int]));
            }
            j = j + 1;
        }
        let ghost subs_part = submission_events_upto(av, av.submissions.len() as int);
        let mut pi: usize = 0;
        proof {
            assert(subs_part + pres_list_events_upto(av, weeksv, 0) =~= subs_part);
        }
        while pi < self.presentations.len()
            invariant
                course_wf(course@),
                assignment_wf(av),
                av == self@,
                weeksv == course@.weeks,
                pi <= self.presentations.len(),
                self.presentations@.len() == av.presentations.len(),
                subs_part == submission_events_upto(av, av.submissions.len() as int),
                events_view(out@) == subs_part + pres_list_events_upto(av, weeksv, pi as int),
                events_wf(events_view(out@)),
            decreases self.presentations.len() - pi,
        {
            let p = &self.presentations[pi];
            let ghost pv = av.presentations[pi as int];
            let ghost base1 = events_view(out@);
            proof {
                assert(pv == p@);
                assert(base1 + pres_events_upto(av, pv, weeksv, 0) =~= base1);
            }
            let mut ki: usize = 0;
            while ki < p.weeks.len()
                invariant
                    course_wf(course@),
                    assignment_wf(av),
                    av == self@,
                    weeksv == course@.weeks,
                    course.weeks@.len() == weeksv.len(),
                    pi < av.presentations.len(),
                    pv == av.presentations[pi as int],
                    p@ == pv,
                    ki <= p.weeks.len(),
                    p.weeks@.len() == pv.weeks.len(),
                    base1 == subs_part + pres_list_events_upto(av, weeksv, pi as int),
                    events_view(out@) == base1 + pres_events_upto(av, pv, weeksv, ki as int),
                    events_wf(events_view(out@)),
                decreases p.weeks.len() - ki,
            {
                let wi = p.weeks[ki];
                proof {
                    assert(pv.weeks[ki as int] == wi as int);
                }
                if wi < course.weeks.len() {
                    let week = &course.weeks[wi];
                    let ghost wv = weeksv[wi as int];
                    let ghost base2 = events_view(out@);
                    proof {
                        assert(wv == week@);
                        assert(week_wf(wv));
                        assert(base2 + pres_session_events_upto(av, pv, wv, 0) =~= base2);
                    }
                    let mut m: usize = 0;
                    while m < week.sessions.len()
                        invariant
                            course_wf(course@),
                            assignment_wf(av),
                            av == self@,
                            p@ == pv,
                            week_wf(wv),
                            wv == week@,
                            m <= week.sessions.len(),
                            week.sessions@.len() == wv.sessions.len(),
                            events_view(out@) == base2 + pres_session_events_upto(
                                av,
                                pv,
                                wv,
                                m as int,
                            ),
                            events_wf(events_view(out@)),
                        decreases week.sessions.len() - m,
                    {
                        proof {
                            assert(wv.sessions[m as int] == week.sessions@[m as int]@);
                        }
                        if week.sessions[m].kind == p.session {
                            let ghost snap = out@;
                            let a = clone_assignment(self);
                            let pc = clone_presentation(p);
                            let sc = clone_session(&week.sessions[m]);
                            let start = week.sessions[m].time;
                            out.push(Event { start, base: EventBase::Presentation(a, pc, sc) });
                            proof {
                                lemma_events_view_push(snap, out@.last());
                                assert(out@.last()@ == pres_event(av, pv, wv.sessions[m as int]));
                                assert(session_wf(wv.sessions[m as int]));
                                assert((base2 + pres_session_events_upto(av, pv, wv, m as int))
                                    .push(pres_event(av, pv, wv.sessions[m as int])) =~= base2
                                    + pres_session_events_upto(av, pv, wv, m as int).push(
                                    pres_event(av, pv, wv.sessions[m as int]),
                                ));
                            }
                        }
                        m = m + 1;
                    }
                    proof {
                        assert(pres_week_events(av, pv, weeksv, wi as int)
                            == pres_session_events_upto(av, pv, wv, wv.sessions.len() as int));
                        assert((base1 + pres_events_upto(av, pv, weeksv, ki as int))
                            + pres_week_events(av, pv, weeksv, wi as int) =~= base1 + (
                        pres_events_upto(av, pv, weeksv, ki as int) + pres_week_events(
                            av,
                            pv,
                            weeksv,
                            wi as int,
                        )));
                    }
                } else {
                    proof {
                        assert(pres_week_events(av, pv, weeksv, wi as int) =~= Seq::<
                            EventV,
                        >::empty());
                        assert(events_view(out@) + Seq::<EventV>::empty() =~= events_view(out@));
                        assert((base1 + pres_events_upto(av, pv, weeksv, ki as int))
                            + pres_week_events(av, pv, weeksv, wi as int) =~= base1 + (
                        pres_events_upto(av, pv, weeksv, ki as int) + pres_week_events(
                            av,
                            pv,
                            weeksv,
                            wi as int,
                        )));
                    }
                }
                ki = ki + 1;
            }
            proof {
                assert(pres_events_upto(av, pv, weeksv, pv.weeks.len() as int)
                    == pres_events_upto(av, pv, weeksv, p.weeks@.len() as int));
                assert((subs_part + pres_list_events_upto(av, weeksv, pi as int))
                    + pres_events_upto(av, pv, weeksv, pv.weeks.len() as int) =~= subs_part + (
                pres_list_events_upto(av, weeksv, pi as int) + pres_events_upto(
                    av,
                    pv,
                    weeksv,
                    pv.weeks.len() as int,
                )));
            }
            pi = pi + 1;
        }
        proof {
            assert(events_view(out@) == assignment_events(av, weeksv));
        }
        out
    }
}

impl Course {
    /// The complete, chronologically ordered timeline of the course: one
    /// event per concrete session, per submission, and per matched
    /// presentation/session pair, sorted by start time with deterministic
    /// tie-breaking.  The result is a function of the course alone, so
    /// repeated calls yield identical sequences.
    pub fn events(&self) -> (r: Vec<Event>)
        requires
            course_wf(self@),
        ensures
            events_view(r@) == course_events(self@),
            sorted_events(events_view(r@)),
            events_wf(events_view(r@)),
    {
        let ghost cv = self@;
        let ghost weeksv = cv.weeks;
        let mut unsorted: Vec<Event> = Vec::new();
        let mut wi: usize = 0;
        proof {
            assert(events_view(unsorted@) =~= weeks_events_upto(weeksv, 0));
        }
        while wi < self.weeks.len()
            invariant
                course_wf(cv),
                cv == self@,
                weeksv == cv.weeks,
                wi <= self.weeks.len(),
                self.weeks@.len() == weeksv.len(),
                events_view(unsorted@) == weeks_events_upto(weeksv, wi as int),
                events_wf(events_view(unsorted@)),
            decreases self.weeks.len() - wi,
        {
            let week = &self.weeks[wi];
            let ghost wv = weeksv[wi as int];
            let ghost base = events_view(unsorted@);
            proof {
                assert(wv == week@);
                assert(week_wf(wv));
                assert(base + week_events_upto(wv, 0) =~= base);
            }
            let mut si: usize = 0;
            while si < week.sessions.len()
                invariant
                    week_wf(wv),
                    wv == week@,
                    si <= week.sessions.len(),
                    week.sessions@.len() == wv.sessions.len(),
                    events_view(unsorted@) == base + week_events_upto(wv, si as int),
                    events_wf(events_view(unsorted@)),
                decreases week.sessions.len() - si,
            {
                let ghost snap = unsorted@;
                let sc = clone_session(&week.sessions[si]);
                let start = week.sessions[si].time;
                unsorted.push(Event { start, base: EventBase::Session(sc) });
                proof {
                    lemma_events_view_push(snap, unsorted@.last());
                    assert(wv.sessions[si as int] == week.sessions@[si as int]@);
                    assert(unsorted@.last()@ == session_event(wv.sessions[si as int]));
                    assert(session_wf(wv.sessions[si as int]));
                    assert((base + week_events_upto(wv, si as int)).push(
                        session_event(wv.sessions[si as int]),
                    ) =~= base + week_events_upto(wv, si as int).push(
                        session_event(wv.sessions[si as int]),
                    ));
                }
                si = si + 1;
            }
            wi = wi + 1;
        }
        let ghost sess_part = session_events(weeksv);
        let mut ai: usize = 0;
        proof {
            assert(sess_part + assignments_events_upto(cv.assignments, weeksv, 0) =~= sess_part);
        }
        while ai < self.assignments.len()
            invariant
                course_wf(cv),
                cv == self@,
                weeksv == cv.weeks,
                ai <= self.assignments.len(),
                self.assignments@.len() == cv.assignments.len(),
                sess_part == session_events(weeksv),
                events_view(unsorted@) == sess_part + assignments_events_upto(
                    cv.assignments,
                    weeksv,
                    ai as int,
                ),
                events_wf(events_view(unsorted@)),
            decreases self.assignments.len() - ai,
        {
            let ghost snap = unsorted@;
            let ghost av = cv.assignments[ai as int];
            proof {
                assert(av == self.assignments@[ai as int]@);
                assert(assignment_wf(av));
            }
            let mut evs = self.assignments[ai].events(self);
            let ghost evsv = evs@;
            unsorted.append(&mut evs);
            proof {
                lemma_events_view_concat(snap, evsv);
                assert((sess_part + assignments_events_upto(cv.assignments, weeksv, ai as int))
                    + assignment_events(av, weeksv) =~= sess_part + (assignments_events_upto(
                    cv.assignments,
                    weeksv,
                    ai as int,
                ) + assignment_events(av, weeksv)));
                assert forall|i: int|
                    0 <= i < events_view(unsorted@).len() implies event_wf(
                    #[trigger] events_view(unsorted@)[i],
                ) by {
                    if i < snap.len() {
                        assert(events_view(unsorted@)[i] == events_view(snap)[i]);
                    } else {
                        assert(events_view(unsorted@)[i] == events_view(evsv)[i - snap.len()]);
                    }
                }
            }
            ai = ai + 1;
        }
        let ghost u = events_view(unsorted@);
        proof {
            assert(u == course_events_unsorted(cv));
        }
        let mut out: Vec<Event> = Vec::new();
        let ghost total: int = u.len() as int;
        proof {
            assert(u.take(0) =~= Seq::<EventV>::empty());
        }
        while unsorted.len() > 0
            invariant
                events_wf(u),
                total == u.len(),
                unsorted@.len() <= total,
                events_view(unsorted@) == u.skip(total - unsorted@.len()),
                events_view(out@) == sort_events(u.take(total - unsorted@.len())),
            decreases unsorted@.len(),
        {
            let ghost n = total - unsorted@.len();
            let ghost usnap = unsorted@;
            let e = unsorted.remove(0);
            proof {
                assert(e@ == events_view(usnap)[0]);
                assert(events_view(usnap)[0] == u[n]);
                assert(events_view(unsorted@) =~= u.skip(n + 1)) by {
                    assert forall|i: int|
                        0 <= i < unsorted@.len() implies #[trigger] events_view(unsorted@)[i]
                        == u.skip(n + 1)[i] by {
                        assert(unsorted@[i] == usnap[i + 1]);
                        assert(events_view(usnap)[i + 1] == u.skip(n)[i + 1]);
                    }
                }
            }
            let mut j: usize = 0;
            while j < out.len() && !event_lt(&e, &out[j])
                invariant
                    j <= out.len(),
                    forall|k: int|
                        0 <= k < j ==> cmp_event(e@, #[trigger] events_view(out@)[k])
                            != Cmp3::Lt,
                decreases out.len() - j,
            {
                j = j + 1;
            }
            let ghost osnap = events_view(out@);
            proof {
                lemma_insert_sorted_at(osnap, e@, j as int);
            }
            out.insert(j, e);
            proof {
                assert(events_view(out@) =~= osnap.take(j as int) + seq![e@] + osnap.skip(
                    j as int,
                ));
                assert(events_view(out@) == insert_sorted(osnap, e@));
                assert(u.take(n + 1).drop_last() =~= u.take(n));
                assert(u.take(n + 1).last() == u[n]);
                assert(events_view(out@) == sort_events(u.take(n + 1)));
            }
        }
        proof {
            assert(u.take(total) =~= u);
            assert(events_view(out@) == course_events(cv));
            lemma_sort_events_sorted(u);
            lemma_sort_events_wf(u);
        }
        out
    }
}

} // verus!
