//! In-memory schedule model of a course.
//!
//! Timestamps are absolute instants in whole seconds; durations are whole
//! seconds.  The loader is expected to hand the library already-typed values
//! (it parses textual timestamps, durations and links before the model is
//! built), so the model itself is plain data.
//!
//! Every model type has a mathematical view (`@`): sequences, mathematical
//! integers and character sequences.  All contracts in this crate are stated
//! over these views.

use vstd::prelude::*;

verus! {

/// Bound on loader-supplied timestamps and durations, in seconds.
///
/// Input instants are bounded so that the offset arithmetic of recurrence
/// expansion (`week start + (template first - reference week start)`) and
/// event end times (`start + duration`) stay within `i64`.  The bound is
/// far beyond any representable calendar date.
pub const TIME_BOUND: i64 = 0x1000_0000_0000_0000i64;

/// One concrete scheduled occurrence (lecture, tutorial, lab, ...).
pub struct Session {
    /// Absolute start instant, seconds.
    pub time: i64,
    pub title: Option<String>,
    pub location: Option<String>,
    pub presenters: Vec<String>,
    /// Free-form category label, e.g. "lecture".
    pub kind: String,
    /// Length of the session, seconds.
    pub duration: i64,
}

/// A dated container of concrete sessions.
pub struct Week {
    /// Absolute start instant of the week, seconds.
    pub start: i64,
    pub sessions: Vec<Session>,
}

/// A session pattern that expands into one concrete session per listed week.
pub struct RepeatSession {
    /// Anchor instant; only its distance from the first listed week's start
    /// matters.
    pub first: i64,
    pub title: Option<String>,
    pub location: Option<String>,
    pub presenters: Vec<String>,
    pub kind: String,
    pub duration: i64,
    /// Indices of the target weeks; the first entry designates the
    /// reference week.
    pub weeks: Vec<usize>,
}

/// A submission deadline of an assignment.
pub struct Submission {
    /// Deadline instant, seconds.
    pub time: i64,
    pub name: String,
    /// Overrides the assignment description when present.
    pub description: Option<String>,
}

/// A presentation slot of an assignment, attached to sessions of a given
/// kind in the listed weeks.
pub struct Presentation {
    pub name: String,
    /// Kind label of the sessions this presentation attaches to.
    pub session: String,
    /// Overrides the assignment description when present.
    pub description: Option<String>,
    pub weeks: Vec<usize>,
}

/// A piece of work with deadlines and/or scheduled discussion slots.
pub struct Assignment {
    pub name: String,
    pub description: Option<String>,
    /// Link to the assignment, an already-validated URL kept as text.
    pub link: String,
    pub value: Option<u64>,
    pub submissions: Vec<Submission>,
    pub presentations: Vec<Presentation>,
}

/// All of the scheduled events of one course.
pub struct Course {
    pub code: String,
    pub name: String,
    pub link: String,
    pub weeks: Vec<Week>,
    pub assignments: Vec<Assignment>,
    pub repeat_sessions: Vec<RepeatSession>,
}

// ----------------------------------------------------------------------
// Mathematical views
// ----------------------------------------------------------------------

#[verifier::ext_equal]
pub ghost struct SessionV {
    pub time: int,
    pub title: Option<Seq<char>>,
    pub location: Option<Seq<char>>,
    pub presenters: Seq<Seq<char>>,
    pub kind: Seq<char>,
    pub duration: int,
}

#[verifier::ext_equal]
pub ghost struct WeekV {
    pub start: int,
    pub sessions: Seq<SessionV>,
}

#[verifier::ext_equal]
pub ghost struct RepeatSessionV {
    pub first: int,
    pub title: Option<Seq<char>>,
    pub location: Option<Seq<char>>,
    pub presenters: Seq<Seq<char>>,
    pub kind: Seq<char>,
    pub duration: int,
    pub weeks: Seq<int>,
}

#[verifier::ext_equal]
pub ghost struct SubmissionV {
    pub time: int,
    pub name: Seq<char>,
    pub description: Option<Seq<char>>,
}

#[verifier::ext_equal]
pub ghost struct PresentationV {
    pub name: Seq<char>,
    pub session: Seq<char>,
    pub description: Option<Seq<char>>,
    pub weeks: Seq<int>,
}

#[verifier::ext_equal]
pub ghost struct AssignmentV {
    pub name: Seq<char>,
    pub description: Option<Seq<char>>,
    pub link: Seq<char>,
    pub value: Option<int>,
    pub submissions: Seq<SubmissionV>,
    pub presentations: Seq<PresentationV>,
}

#[verifier::ext_equal]
pub ghost struct CourseV {
    pub code: Seq<char>,
    pub name: Seq<char>,
    pub link: Seq<char>,
    pub weeks: Seq<WeekV>,
    pub assignments: Seq<AssignmentV>,
    pub repeat_sessions: Seq<RepeatSessionV>,
}

pub open spec fn view_opt_string(o: Option<String>) -> Option<Seq<char>> {
    match o {
        Some(s) => Some(s@),
        None => None,
    }
}

pub open spec fn view_strings(v: Seq<String>) -> Seq<Seq<char>> {
    v.map_values(|s: String| s@)
}

pub open spec fn view_indices(v: Seq<usize>) -> Seq<int> {
    v.map_values(|i: usize| i as int)
}

impl View for Session {
    type V = SessionV;

    open spec fn view(&self) -> SessionV {
        SessionV {
            time: self.time as int,
            title: view_opt_string(self.title),
            location: view_opt_string(self.location),
            presenters: view_strings(self.presenters@),
            kind: self.kind@,
            duration: self.duration as int,
        }
    }
}

impl View for Week {
    type V = WeekV;

    open spec fn view(&self) -> WeekV {
        WeekV { start: self.start as int, sessions: self.sessions@.map_values(|s: Session| s@) }
    }
}

impl View for RepeatSession {
    type V = RepeatSessionV;

    open spec fn view(&self) -> RepeatSessionV {
        RepeatSessionV {
            first: self.first as int,
            title: view_opt_string(self.title),
            location: view_opt_string(self.location),
            presenters: view_strings(self.presenters@),
            kind: self.kind@,
            duration: self.duration as int,
            weeks: view_indices(self.weeks@),
        }
    }
}

impl View for Submission {
    type V = SubmissionV;

    open spec fn view(&self) -> SubmissionV {
        SubmissionV {
            time: self.time as int,
            name: self.name@,
            description: view_opt_string(self.description),
        }
    }
}

impl View for Presentation {
    type V = PresentationV;

    open spec fn view(&self) -> PresentationV {
        PresentationV {
            name: self.name@,
            session: self.session@,
            description: view_opt_string(self.description),
            weeks: view_indices(self.weeks@),
        }
    }
}

impl View for Assignment {
    type V = AssignmentV;

    open spec fn view(&self) -> AssignmentV {
        AssignmentV {
            name: self.name@,
            description: view_opt_string(self.description),
            link: self.link@,
            value: match self.value {
                Some(v) => Some(v as int),
                None => None,
            },
            submissions: self.submissions@.map_values(|s: Submission| s@),
            presentations: self.presentations@.map_values(|p: Presentation| p@),
        }
    }
}

impl View for Course {
    type V = CourseV;

    open spec fn view(&self) -> CourseV {
        CourseV {
            code: self.code@,
            name: self.name@,
            link: self.link@,
            weeks: self.weeks@.map_values(|w: Week| w@),
            assignments: self.assignments@.map_values(|a: Assignment| a@),
            repeat_sessions: self.repeat_sessions@.map_values(|r: RepeatSession| r@),
        }
    }
}

// ----------------------------------------------------------------------
// Well-formedness
// ----------------------------------------------------------------------

/// Sessions inside weeks: a natively declared session carries a
/// loader-supplied instant; a session generated by recurrence expansion lies
/// within three times the input bound (`week start + (first - reference
/// start)`), so the session bound is the looser one.
pub open spec fn session_wf(s: SessionV) -> bool {
    &&& -3 * (TIME_BOUND as int) <= s.time <= 3 * (TIME_BOUND as int)
    &&& -(TIME_BOUND as int) <= s.duration <= TIME_BOUND as int
}

pub open spec fn week_wf(w: WeekV) -> bool {
    &&& -(TIME_BOUND as int) <= w.start <= TIME_BOUND as int
    &&& forall|i: int| 0 <= i < w.sessions.len() ==> session_wf(#[trigger] w.sessions[i])
}

pub open spec fn repeat_session_wf(r: RepeatSessionV) -> bool {
    &&& -(TIME_BOUND as int) <= r.first <= TIME_BOUND as int
    &&& -(TIME_BOUND as int) <= r.duration <= TIME_BOUND as int
}

pub open spec fn submission_wf(s: SubmissionV) -> bool {
    -(TIME_BOUND as int) <= s.time <= TIME_BOUND as int
}

pub open spec fn assignment_wf(a: AssignmentV) -> bool {
    forall|i: int| 0 <= i < a.submissions.len() ==> submission_wf(#[trigger] a.submissions[i])
}

/// Well-formedness of a whole course: every instant and duration in it is
/// loader-bounded, so that expansion and event arithmetic cannot overflow.
pub open spec fn course_wf(c: CourseV) -> bool {
    &&& forall|i: int| 0 <= i < c.weeks.len() ==> week_wf(#[trigger] c.weeks[i])
    &&& forall|i: int| 0 <= i < c.assignments.len() ==> assignment_wf(#[trigger] c.assignments[i])
    &&& forall|i: int|
        0 <= i < c.repeat_sessions.len() ==> repeat_session_wf(#[trigger] c.repeat_sessions[i])
}

impl Course {
    /// The course's display name.
    pub fn name(&self) -> (r: &str)
        ensures
            r@ == self@.name,
    {
        self.name.as_str()
    }

    /// The course's code.
    pub fn code(&self) -> (r: &str)
        ensures
            r@ == self@.code,
    {
        self.code.as_str()
    }
}

/// View of an optional borrowed string, for contracts of accessors.
pub open spec fn view_opt_str(o: Option<&str>) -> Option<Seq<char>> {
    match o {
        Some(s) => Some(s@),
        None => None,
    }
}

impl Session {
    pub fn location(&self) -> (r: Option<&str>)
        ensures
            view_opt_str(r) == self@.location,
    {
        match &self.location {
            Some(l) => Some(l.as_str()),
            None => None,
        }
    }

    pub fn presenters(&self) -> (r: Vec<&str>)
        ensures
            r@.map_values(|s: &str| s@) == self@.presenters,
    {
        let mut out: Vec<&str> = Vec::new();
        let ghost all = self@.presenters;
        let mut i: usize = 0;
        while i < self.presenters.len()
            invariant
                i <= self.presenters.len(),
                all == view_strings(self.presenters@),
                out@.len() == i,
                forall|j: int| 0 <= j < i ==> (#[trigger] out@[j])@ == all[j],
            decreases self.presenters.len() - i,
        {
            out.push(self.presenters[i].as_str());
            i = i + 1;
        }
        proof {
            assert(out@.map_values(|s: &str| s@) =~= all);
        }
        out
    }
}

impl Submission {
    pub fn description(&self) -> (r: Option<&str>)
        ensures
            view_opt_str(r) == self@.description,
    {
        match &self.description {
            Some(d) => Some(d.as_str()),
            None => None,
        }
    }
}

impl Presentation {
    pub fn description(&self) -> (r: Option<&str>)
        ensures
            view_opt_str(r) == self@.description,
    {
        match &self.description {
            Some(d) => Some(d.as_str()),
            None => None,
        }
    }
}

// ----------------------------------------------------------------------
// View-preserving copies
//
// Events own their data, and expansion materializes fresh sessions, so the
// library copies records out of the course.  Each copy is proved to keep
// the mathematical view of the original.
// ----------------------------------------------------------------------

pub fn clone_opt_string(o: &Option<String>) -> (r: Option<String>)
    ensures
        view_opt_string(r) == view_opt_string(*o),
{
    match o {
        Some(s) => Some(s.clone()),
        None => None,
    }
}

pub fn clone_string_list(v: &Vec<String>) -> (r: Vec<String>)
    ensures
        view_strings(r@) == view_strings(v@),
{
    let mut out: Vec<String> = Vec::new();
    let mut i: usize = 0;
    while i < v.len()
        invariant
            i <= v.len(),
            out@.len() == i,
            forall|j: int| 0 <= j < i ==> (#[trigger] out@[j])@ == v@[j]@,
        decreases v.len() - i,
    {
        out.push(v[i].clone());
        i = i + 1;
    }
    proof {
        assert(view_strings(out@) =~= view_strings(v@));
    }
    out
}

pub fn clone_usize_list(v: &Vec<usize>) -> (r: Vec<usize>)
    ensures
        r@ == v@,
{
    let mut out: Vec<usize> = Vec::new();
    let mut i: usize = 0;
    while i < v.len()
        invariant
            i <= v.len(),
            out@ == v@.take(i as int),
        decreases v.len() - i,
    {
        out.push(v[i]);
        i = i + 1;
        proof {
            assert(out@ =~= v@.take(i as int));
        }
    }
    proof {
        assert(v@.take(v@.len() as int) =~= v@);
    }
    out
}

pub fn clone_session(s: &Session) -> (r: Session)
    ensures
        r@ == s@,
{
    let r = Session {
        time: s.time,
        title: clone_opt_string(&s.title),
        location: clone_opt_string(&s.location),
        presenters: clone_string_list(&s.presenters),
        kind: s.kind.clone(),
        duration: s.duration,
    };
    proof {
        assert(r@ =~= s@);
    }
    r
}

pub fn clone_submission(s: &Submission) -> (r: Submission)
    ensures
        r@ == s@,
{
    let r = Submission {
        time: s.time,
        name: s.name.clone(),
        description: clone_opt_string(&s.description),
    };
    proof {
        assert(r@ =~= s@);
    }
    r
}

pub fn clone_presentation(p: &Presentation) -> (r: Presentation)
    ensures
        r@ == p@,
{
    let r = Presentation {
        name: p.name.clone(),
        session: p.session.clone(),
        description: clone_opt_string(&p.description),
        weeks: clone_usize_list(&p.weeks),
    };
    proof {
        assert(r@ =~= p@);
    }
    r
}

pub fn clone_submission_list(v: &Vec<Submission>) -> (r: Vec<Submission>)
    ensures
        r@.map_values(|s: Submission| s@) == v@.map_values(|s: Submission| s@),
{
    let mut out: Vec<Submission> = Vec::new();
    let mut i: usize = 0;
    while i < v.len()
        invariant
            i <= v.len(),
            out@.len() == i,
            forall|j: int| 0 <= j < i ==> (#[trigger] out@[j])@ == v@[j]@,
        decreases v.len() - i,
    {
        out.push(clone_submission(&v[i]));
        i = i + 1;
    }
    proof {
        assert(out@.map_values(|s: Submission| s@) =~= v@.map_values(|s: Submission| s@));
    }
    out
}

pub fn clone_presentation_list(v: &Vec<Presentation>) -> (r: Vec<Presentation>)
    ensures
        r@.map_values(|p: Presentation| p@) == v@.map_values(|p: Presentation| p@),
{
    let mut out: Vec<Presentation> = Vec::new();
    let mut i: usize = 0;
    while i < v.len()
        invariant
            i <= v.len(),
            out@.len() == i,
            forall|j: int| 0 <= j < i ==> (#[trigger] out@[j])@ == v@[j]@,
        decreases v.len() - i,
    {
        out.push(clone_presentation(&v[i]));
        i = i + 1;
    }
    proof {
        assert(out@.map_values(|p: Presentation| p@) =~= v@.map_values(
            |p: Presentation| p@,
        ));
    }
    out
}

pub fn clone_assignment(a: &Assignment) -> (r: Assignment)
    ensures
        r@ == a@,
{
    let r = Assignment {
        name: a.name.clone(),
        description: clone_opt_string(&a.description),
        link: a.link.clone(),
        value: match &a.value {
            Some(v) => Some(*v),
            None => None,
        },
        submissions: clone_submission_list(&a.submissions),
        presentations: clone_presentation_list(&a.presentations),
    };
    proof {
        assert(r@ =~= a@);
    }
    r
}

impl Assignment {
    pub fn description(&self) -> (r: Option<&str>)
        ensures
            view_opt_str(r) == self@.description,
    {
        match &self.description {
            Some(d) => Some(d.as_str()),
            None => None,
        }
    }
}

} // verus!
