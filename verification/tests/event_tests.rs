//! Event projection, field derivation and ordering.

use course_events::model::{Assignment, Course, Presentation, RepeatSession, Session, Submission, Week};

const HOUR: i64 = 3600;
const DAY: i64 = 86400;
const T0: i64 = 1_000_000;

fn s(x: &str) -> String {
    x.to_string()
}

fn session(time: i64, kind: &str, title: Option<&str>) -> Session {
    Session {
        time,
        title: title.map(s),
        location: Some(s("Room 7")),
        presenters: vec![s("Alice"), s("Bob")],
        kind: s(kind),
        duration: HOUR,
    }
}

fn submission(time: i64, name: &str, description: Option<&str>) -> Submission {
    Submission { time, name: s(name), description: description.map(s) }
}

fn presentation(name: &str, kind: &str, weeks: Vec<usize>) -> Presentation {
    Presentation { name: s(name), session: s(kind), description: None, weeks }
}

fn assignment(name: &str, description: Option<&str>) -> Assignment {
    Assignment {
        name: s(name),
        description: description.map(s),
        link: s("https://example.org/hw"),
        value: Some(10),
        submissions: Vec::new(),
        presentations: Vec::new(),
    }
}

fn course(weeks: Vec<Week>, assignments: Vec<Assignment>) -> Course {
    Course {
        code: s("CS100"),
        name: s("Computing"),
        link: s("https://example.org/cs100"),
        weeks,
        assignments,
        repeat_sessions: Vec::new(),
    }
}

#[test]
fn event_count_covers_all_sources() {
    // 2 sessions + 2 submissions + 1 matched presentation pair.
    let mut a = assignment("hw1", None);
    a.submissions.push(submission(T0 + DAY, "draft", None));
    a.submissions.push(submission(T0 + 2 * DAY, "revised", None));
    a.presentations.push(presentation("demo", "lab", vec![0]));
    let c = course(
        vec![Week {
            start: T0,
            sessions: vec![session(T0 + HOUR, "lab", None), session(T0 + 2 * HOUR, "lecture", None)],
        }],
        vec![a],
    );
    assert_eq!(c.events().len(), 5);
}

#[test]
fn events_are_sorted_by_start() {
    let mut a = assignment("hw1", None);
    a.submissions.push(submission(T0 + 30 * HOUR, "draft", None));
    let c = course(
        vec![
            Week { start: T0, sessions: vec![session(T0 + 2 * DAY, "lecture", None)] },
            Week { start: T0 + 7 * DAY, sessions: vec![session(T0 + HOUR, "lecture", None)] },
        ],
        vec![a],
    );
    let events = c.events();
    assert_eq!(events.len(), 3);
    let mut i = 1;
    while i < events.len() {
        assert!(events[i - 1].start() <= events[i].start());
        i += 1;
    }
    assert_eq!(events[0].start(), T0 + HOUR);
    assert_eq!(events[1].start(), T0 + 30 * HOUR);
    assert_eq!(events[2].start(), T0 + 2 * DAY);
}

#[test]
fn tie_break_puts_sessions_before_submissions_before_presentations() {
    let t = T0 + HOUR;
    let mut a = assignment("hw1", None);
    a.submissions.push(submission(t, "draft", None));
    a.presentations.push(presentation("demo", "lab", vec![0]));
    let c = course(
        vec![Week { start: T0, sessions: vec![session(t, "lab", None)] }],
        vec![a],
    );
    let events = c.events();
    assert_eq!(events.len(), 3);
    assert_eq!(events[0].start(), t);
    assert_eq!(events[1].start(), t);
    assert_eq!(events[2].start(), t);
    assert_eq!(events[0].title(), "(lab)");
    assert_eq!(events[1].title(), "hw1: draft (submission)");
    assert_eq!(events[2].title(), "hw1: demo (presentation)");
}

#[test]
fn repeated_calls_give_identical_sequences() {
    let mut a = assignment("hw1", None);
    a.submissions.push(submission(T0 + DAY, "draft", None));
    let c = course(
        vec![Week { start: T0, sessions: vec![session(T0 + HOUR, "lecture", Some("Intro"))] }],
        vec![a],
    );
    let first: Vec<(i64, String)> = c.events().iter().map(|e| (e.start(), e.title())).collect();
    let second: Vec<(i64, String)> = c.events().iter().map(|e| (e.start(), e.title())).collect();
    assert_eq!(first, second);
}

#[test]
fn unmatched_presentation_week_yields_no_events() {
    // Week 5 exists but holds no session of the requested kind.
    let mut a = assignment("hw1", None);
    a.presentations.push(presentation("demo", "lab", vec![5]));
    let mut weeks = Vec::new();
    let mut i = 0;
    while i < 5 {
        weeks.push(Week { start: T0 + (i as i64) * 7 * DAY, sessions: Vec::new() });
        i += 1;
    }
    weeks.push(Week {
        start: T0 + 35 * DAY,
        sessions: vec![session(T0 + 35 * DAY, "lecture", None)],
    });
    let c = course(weeks, vec![a]);
    let events = c.events();
    // Only the lecture session itself appears.
    assert_eq!(events.len(), 1);
    assert_eq!(events[0].title(), "(lecture)");
}

#[test]
fn out_of_range_presentation_week_is_silently_skipped() {
    let mut a = assignment("hw1", None);
    a.presentations.push(presentation("demo", "lab", vec![42]));
    let c = course(
        vec![Week { start: T0, sessions: vec![session(T0 + HOUR, "lab", None)] }],
        vec![a],
    );
    let events = c.events();
    assert_eq!(events.len(), 1);
    assert_eq!(events[0].title(), "(lab)");
}

#[test]
fn presentation_matches_every_session_of_its_kind() {
    let mut a = assignment("hw1", None);
    a.presentations.push(presentation("demo", "lab", vec![0]));
    let c = course(
        vec![Week {
            start: T0,
            sessions: vec![
                session(T0 + HOUR, "lab", None),
                session(T0 + 2 * HOUR, "lecture", None),
                session(T0 + 3 * HOUR, "lab", None),
            ],
        }],
        vec![a],
    );
    let events = c.events();
    // 3 sessions + 2 matched pairs.
    assert_eq!(events.len(), 5);
}

#[test]
fn session_titles() {
    let c = course(
        vec![Week {
            start: T0,
            sessions: vec![
                session(T0 + HOUR, "lecture", Some("Intro")),
                session(T0 + 2 * HOUR, "lab", None),
            ],
        }],
        Vec::new(),
    );
    let events = c.events();
    assert_eq!(events[0].title(), "Intro (lecture)");
    assert_eq!(events[1].title(), "(lab)");
}

#[test]
fn session_event_fields() {
    let c = course(
        vec![Week { start: T0, sessions: vec![session(T0 + HOUR, "lecture", None)] }],
        Vec::new(),
    );
    let events = c.events();
    let e = &events[0];
    assert_eq!(e.start(), T0 + HOUR);
    assert_eq!(e.duration(), HOUR);
    assert_eq!(e.end(), T0 + 2 * HOUR);
    assert_eq!(e.location(), Some("Room 7"));
    assert_eq!(e.presenters(), vec!["Alice", "Bob"]);
    assert_eq!(e.description(), None);
    assert_eq!(e.link(), None);
}

#[test]
fn submission_event_fields() {
    let mut a = assignment("hw1", Some("X"));
    a.submissions.push(submission(T0 + DAY, "draft", None));
    let c = course(Vec::new(), vec![a]);
    let events = c.events();
    let e = &events[0];
    assert_eq!(e.title(), "hw1: draft (submission)");
    assert_eq!(e.start(), T0 + DAY);
    // A deadline marker: five minutes.
    assert_eq!(e.duration(), 300);
    assert_eq!(e.end(), T0 + DAY + 300);
    assert_eq!(e.location(), None);
    assert_eq!(e.presenters().len(), 0);
    // No description of its own: the assignment's applies.
    assert_eq!(e.description(), Some("X"));
    assert_eq!(e.link(), Some("https://example.org/hw"));
}

#[test]
fn submission_description_overrides_assignment() {
    let mut a = assignment("hw1", Some("X"));
    a.submissions.push(submission(T0 + DAY, "draft", Some("own words")));
    let c = course(Vec::new(), vec![a]);
    let events = c.events();
    assert_eq!(events[0].description(), Some("own words"));
}

#[test]
fn presentation_event_fields() {
    let mut a = assignment("hw1", Some("X"));
    a.presentations.push(presentation("demo", "lab", vec![0]));
    let c = course(
        vec![Week { start: T0, sessions: vec![session(T0 + HOUR, "lab", None)] }],
        vec![a],
    );
    let events = c.events();
    // The session event sorts first; the matched pair follows.
    let e = &events[1];
    assert_eq!(e.title(), "hw1: demo (presentation)");
    assert_eq!(e.start(), T0 + HOUR);
    assert_eq!(e.duration(), HOUR);
    assert_eq!(e.location(), Some("Room 7"));
    assert_eq!(e.presenters(), vec!["Alice", "Bob"]);
    assert_eq!(e.description(), Some("X"));
    assert_eq!(e.link(), Some("https://example.org/hw"));
}

#[test]
fn presentation_description_overrides_assignment() {
    let mut a = assignment("hw1", Some("X"));
    let mut p = presentation("demo", "lab", vec![0]);
    p.description = Some(s("its own"));
    a.presentations.push(p);
    let c = course(
        vec![Week { start: T0, sessions: vec![session(T0 + HOUR, "lab", None)] }],
        vec![a],
    );
    let events = c.events();
    assert_eq!(events[1].description(), Some("its own"));
}

#[test]
fn equal_start_submissions_order_by_assignment_name() {
    let t = T0 + DAY;
    let mut a1 = assignment("zeta", None);
    a1.submissions.push(submission(t, "draft", None));
    let mut a2 = assignment("alpha", None);
    a2.submissions.push(submission(t, "draft", None));
    let c = course(Vec::new(), vec![a1, a2]);
    let events = c.events();
    assert_eq!(events[0].title(), "alpha: draft (submission)");
    assert_eq!(events[1].title(), "zeta: draft (submission)");
}

#[test]
fn empty_course_has_no_events() {
    let c = course(Vec::new(), Vec::new());
    assert_eq!(c.events().len(), 0);
}

#[test]
fn expansion_feeds_projection() {
    let mut c = course(vec![Week { start: T0, sessions: Vec::new() }], Vec::new());
    c.repeat_sessions.push(RepeatSession {
        first: T0 + HOUR,
        title: Some(s("Weekly")),
        location: None,
        presenters: Vec::new(),
        kind: s("lecture"),
        duration: HOUR,
        weeks: vec![0],
    });
    c.generate_repeats().unwrap();
    let events = c.events();
    assert_eq!(events.len(), 1);
    assert_eq!(events[0].title(), "Weekly (lecture)");
    assert_eq!(events[0].start(), T0 + HOUR);
}
