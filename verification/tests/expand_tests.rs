//! Recurrence expansion behaviour.

use course_events::expand::CourseError;
use course_events::model::{Course, RepeatSession, Session, Week};

const HOUR: i64 = 3600;
const DAY: i64 = 86400;
const T0: i64 = 1_000_000;

fn s(x: &str) -> String {
    x.to_string()
}

fn session(time: i64, kind: &str) -> Session {
    Session {
        time,
        title: None,
        location: None,
        presenters: Vec::new(),
        kind: s(kind),
        duration: HOUR,
    }
}

fn week(start: i64, sessions: Vec<Session>) -> Week {
    Week { start, sessions }
}

fn template(kind: &str, first: i64, weeks: Vec<usize>) -> RepeatSession {
    RepeatSession {
        first,
        title: Some(s("Recurring")),
        location: Some(s("Hall")),
        presenters: vec![s("Alice")],
        kind: s(kind),
        duration: 2 * HOUR,
        weeks,
    }
}

fn course(weeks: Vec<Week>, repeats: Vec<RepeatSession>) -> Course {
    Course {
        code: s("CS100"),
        name: s("Computing"),
        link: s("https://example.org/cs100"),
        weeks,
        assignments: Vec::new(),
        repeat_sessions: repeats,
    }
}

#[test]
fn no_templates_is_a_no_op() {
    let mut c = course(
        vec![week(T0, vec![session(T0 + HOUR, "lecture")]), week(T0 + 7 * DAY, vec![])],
        Vec::new(),
    );
    let r = c.generate_repeats();
    assert!(r.is_ok());
    assert_eq!(c.weeks.len(), 2);
    assert_eq!(c.weeks[0].sessions.len(), 1);
    assert_eq!(c.weeks[0].sessions[0].time, T0 + HOUR);
    assert_eq!(c.weeks[1].sessions.len(), 0);
}

#[test]
fn empty_week_list_contributes_nothing() {
    let mut c = course(
        vec![week(T0, vec![])],
        vec![template("lecture", T0 + HOUR, Vec::new())],
    );
    let r = c.generate_repeats();
    assert!(r.is_ok());
    assert_eq!(c.weeks[0].sessions.len(), 0);
}

#[test]
fn one_session_per_listed_week() {
    let mut c = course(
        vec![week(T0, vec![]), week(T0 + 7 * DAY, vec![])],
        vec![template("tutorial", T0 + 2 * HOUR, vec![0, 1])],
    );
    let r = c.generate_repeats();
    assert!(r.is_ok());
    assert_eq!(c.weeks[0].sessions.len(), 1);
    assert_eq!(c.weeks[1].sessions.len(), 1);
}

#[test]
fn duplicate_week_indices_are_kept() {
    let mut c = course(
        vec![week(T0, vec![]), week(T0 + 7 * DAY, vec![])],
        vec![template("lab", T0 + HOUR, vec![0, 0, 1])],
    );
    let r = c.generate_repeats();
    assert!(r.is_ok());
    assert_eq!(c.weeks[0].sessions.len(), 2);
    assert_eq!(c.weeks[1].sessions.len(), 1);
}

#[test]
fn anchor_offset_is_applied_per_week() {
    // A template one hour past the first week's start, targeting weeks 0
    // and 2 where week 2 starts seven days after week 0.
    let mut c = course(
        vec![week(T0, vec![]), week(T0 + 3 * DAY, vec![]), week(T0 + 7 * DAY, vec![])],
        vec![template("seminar", T0 + HOUR, vec![0, 2])],
    );
    let r = c.generate_repeats();
    assert!(r.is_ok());
    assert_eq!(c.weeks[0].sessions.len(), 1);
    assert_eq!(c.weeks[0].sessions[0].time, T0 + HOUR);
    assert_eq!(c.weeks[1].sessions.len(), 0);
    assert_eq!(c.weeks[2].sessions.len(), 1);
    assert_eq!(c.weeks[2].sessions[0].time, T0 + 7 * DAY + HOUR);
}

#[test]
fn generated_session_copies_template_fields() {
    let mut c = course(vec![week(T0, vec![])], vec![template("lab", T0 + HOUR, vec![0])]);
    c.generate_repeats().unwrap();
    let g = &c.weeks[0].sessions[0];
    assert_eq!(g.kind, "lab");
    assert_eq!(g.title.as_deref(), Some("Recurring"));
    assert_eq!(g.location.as_deref(), Some("Hall"));
    assert_eq!(g.presenters, vec![s("Alice")]);
    assert_eq!(g.duration, 2 * HOUR);
}

#[test]
fn free_floating_anchor_only_distance_matters() {
    // The anchor sits three days before the reference week: the distance
    // is negative and applied verbatim.
    let mut c = course(
        vec![week(T0, vec![]), week(T0 + 7 * DAY, vec![])],
        vec![template("lecture", T0 - 3 * DAY, vec![0, 1])],
    );
    c.generate_repeats().unwrap();
    assert_eq!(c.weeks[0].sessions[0].time, T0 - 3 * DAY);
    assert_eq!(c.weeks[1].sessions[0].time, T0 + 4 * DAY);
}

#[test]
fn out_of_range_target_fails_with_index() {
    // Week 99 in a three-week course.
    let mut c = course(
        vec![week(T0, vec![]), week(T0 + 7 * DAY, vec![]), week(T0 + 14 * DAY, vec![])],
        vec![template("lecture", T0 + HOUR, vec![0, 99])],
    );
    let before = session_counts(&c);
    let r = c.generate_repeats();
    let e = r.unwrap_err();
    assert!(matches!(e, CourseError::OutOfRangeReference { .. }));
    assert_eq!(e.index(), 99);
    assert_eq!(e.kind(), "lecture");
    // No partial application: nothing was appended.
    assert_eq!(before, session_counts(&c));
}

#[test]
fn out_of_range_reference_week_fails() {
    let mut c = course(
        vec![week(T0, vec![]), week(T0 + 7 * DAY, vec![]), week(T0 + 14 * DAY, vec![])],
        vec![template("tutorial", T0 + HOUR, vec![5, 0])],
    );
    let e = c.generate_repeats().unwrap_err();
    assert_eq!(e.index(), 5);
    assert_eq!(e.kind(), "tutorial");
}

#[test]
fn first_offending_index_is_reported() {
    let mut c = course(
        vec![week(T0, vec![]), week(T0 + 7 * DAY, vec![])],
        vec![
            template("lecture", T0 + HOUR, vec![0, 1]),
            template("lab", T0 + HOUR, vec![0, 9, 8]),
        ],
    );
    let e = c.generate_repeats().unwrap_err();
    assert_eq!(e.index(), 9);
    assert_eq!(e.kind(), "lab");
    // The failing expansion left even the valid first template unapplied.
    assert_eq!(c.weeks[0].sessions.len(), 0);
    assert_eq!(c.weeks[1].sessions.len(), 0);
}

#[test]
fn expanding_twice_duplicates_sessions() {
    // Expansion is a one-shot step: running it again appends the
    // generated sessions a second time rather than suppressing them.
    let mut c = course(vec![week(T0, vec![])], vec![template("lab", T0 + HOUR, vec![0])]);
    c.generate_repeats().unwrap();
    c.generate_repeats().unwrap();
    assert_eq!(c.weeks[0].sessions.len(), 2);
}

#[test]
fn course_accessors() {
    let c = course(Vec::new(), Vec::new());
    assert_eq!(c.name(), "Computing");
    assert_eq!(c.code(), "CS100");
}

fn session_counts(c: &Course) -> Vec<usize> {
    let mut out = Vec::new();
    let mut i = 0;
    while i < c.weeks.len() {
        out.push(c.weeks[i].sessions.len());
        i += 1;
    }
    out
}
