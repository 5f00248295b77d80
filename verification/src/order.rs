//! Total ordering of the model types.
//!
//! Events are ordered by start time with deterministic tie-breaking by the
//! underlying record's declared field order.  This module defines the
//! three-way comparison on the model views (`cmp_*` spec functions, all
//! lexicographic), executable comparators proved against them
//! (`compare_*`), and the antisymmetry (`flip`) lemmas that the sortedness
//! proof rests on.
//!
//! Character sequences are ordered by code point, which coincides with the
//! byte order of their UTF-8 encoding; a shorter sequence precedes every
//! proper extension of itself.

use vstd::prelude::*;

use crate::model::{
    Assignment, AssignmentV, Presentation, PresentationV, Session, SessionV, Submission,
    SubmissionV, view_indices, view_opt_string, view_strings,
};

verus! {

/// Result of a three-way comparison.
#[derive(Clone, Copy, PartialEq, Eq, Structural, Debug)]
pub enum Cmp3 {
    Lt,
    Eq,
    Gt,
}

/// The comparison with both arguments exchanged.
pub open spec fn flip(c: Cmp3) -> Cmp3 {
    match c {
        Cmp3::Lt => Cmp3::Gt,
        Cmp3::Eq => Cmp3::Eq,
        Cmp3::Gt => Cmp3::Lt,
    }
}

/// Lexicographic chaining: the first comparison decides unless it is a tie.
pub open spec fn chain(first: Cmp3, next: Cmp3) -> Cmp3 {
    match first {
        Cmp3::Eq => next,
        c => c,
    }
}

pub open spec fn cmp_int(a: int, b: int) -> Cmp3 {
    if a < b {
        Cmp3::Lt
    } else if a == b {
        Cmp3::Eq
    } else {
        Cmp3::Gt
    }
}

pub open spec fn cmp_opt_int(a: Option<int>, b: Option<int>) -> Cmp3 {
    match (a, b) {
        (None, None) => Cmp3::Eq,
        (None, Some(_)) => Cmp3::Lt,
        (Some(_), None) => Cmp3::Gt,
        (Some(x), Some(y)) => cmp_int(x, y),
    }
}

/// Code-point order on character sequences.
pub open spec fn cmp_chars(a: Seq<char>, b: Seq<char>) -> Cmp3
    decreases a.len(),
{
    if a.len() == 0 && b.len() == 0 {
        Cmp3::Eq
    } else if a.len() == 0 {
        Cmp3::Lt
    } else if b.len() == 0 {
        Cmp3::Gt
    } else if (a[0] as u32) < (b[0] as u32) {
        Cmp3::Lt
    } else if (b[0] as u32) < (a[0] as u32) {
        Cmp3::Gt
    } else {
        cmp_chars(a.drop_first(), b.drop_first())
    }
}

/// An absent value precedes any present one.
pub open spec fn cmp_opt_chars(a: Option<Seq<char>>, b: Option<Seq<char>>) -> Cmp3 {
    match (a, b) {
        (None, None) => Cmp3::Eq,
        (None, Some(_)) => Cmp3::Lt,
        (Some(_), None) => Cmp3::Gt,
        (Some(x), Some(y)) => cmp_chars(x, y),
    }
}

pub open spec fn cmp_chars_list(a: Seq<Seq<char>>, b: Seq<Seq<char>>) -> Cmp3
    decreases a.len(),
{
    if a.len() == 0 && b.len() == 0 {
        Cmp3::Eq
    } else if a.len() == 0 {
        Cmp3::Lt
    } else if b.len() == 0 {
        Cmp3::Gt
    } else {
        match cmp_chars(a[0], b[0]) {
            Cmp3::Eq => cmp_chars_list(a.drop_first(), b.drop_first()),
            c => c,
        }
    }
}

pub open spec fn cmp_int_list(a: Seq<int>, b: Seq<int>) -> Cmp3
    decreases a.len(),
{
    if a.len() == 0 && b.len() == 0 {
        Cmp3::Eq
    } else if a.len() == 0 {
        Cmp3::Lt
    } else if b.len() == 0 {
        Cmp3::Gt
    } else {
        match cmp_int(a[0], b[0]) {
            Cmp3::Eq => cmp_int_list(a.drop_first(), b.drop_first()),
            c => c,
        }
    }
}

/// Sessions order by (time, title, location, presenters, kind, duration).
pub open spec fn cmp_session(a: SessionV, b: SessionV) -> Cmp3 {
    chain(
        cmp_int(a.time, b.time),
        chain(
            cmp_opt_chars(a.title, b.title),
            chain(
                cmp_opt_chars(a.location, b.location),
                chain(
                    cmp_chars_list(a.presenters, b.presenters),
                    chain(cmp_chars(a.kind, b.kind), cmp_int(a.duration, b.duration)),
                ),
            ),
        ),
    )
}

/// Submissions order by (time, name, description).
pub open spec fn cmp_submission(a: SubmissionV, b: SubmissionV) -> Cmp3 {
    chain(
        cmp_int(a.time, b.time),
        chain(cmp_chars(a.name, b.name), cmp_opt_chars(a.description, b.description)),
    )
}

pub open spec fn cmp_submission_list(a: Seq<SubmissionV>, b: Seq<SubmissionV>) -> Cmp3
    decreases a.len(),
{
    if a.len() == 0 && b.len() == 0 {
        Cmp3::Eq
    } else if a.len() == 0 {
        Cmp3::Lt
    } else if b.len() == 0 {
        Cmp3::Gt
    } else {
        match cmp_submission(a[0], b[0]) {
            Cmp3::Eq => cmp_submission_list(a.drop_first(), b.drop_first()),
            c => c,
        }
    }
}

/// Presentations order by (name, session, description, weeks).
pub open spec fn cmp_presentation(a: PresentationV, b: PresentationV) -> Cmp3 {
    chain(
        cmp_chars(a.name, b.name),
        chain(
            cmp_chars(a.session, b.session),
            chain(cmp_opt_chars(a.description, b.description), cmp_int_list(a.weeks, b.weeks)),
        ),
    )
}

pub open spec fn cmp_presentation_list(a: Seq<PresentationV>, b: Seq<PresentationV>) -> Cmp3
    decreases a.len(),
{
    if a.len() == 0 && b.len() == 0 {
        Cmp3::Eq
    } else if a.len() == 0 {
        Cmp3::Lt
    } else if b.len() == 0 {
        Cmp3::Gt
    } else {
        match cmp_presentation(a[0], b[0]) {
            Cmp3::Eq => cmp_presentation_list(a.drop_first(), b.drop_first()),
            c => c,
        }
    }
}

/// Assignments order by (name, description, link, value, submissions,
/// presentations).
pub open spec fn cmp_assignment(a: AssignmentV, b: AssignmentV) -> Cmp3 {
    chain(
        cmp_chars(a.name, b.name),
        chain(
            cmp_opt_chars(a.description, b.description),
            chain(
                cmp_chars(a.link, b.link),
                chain(
                    cmp_opt_int(a.value, b.value),
                    chain(
                        cmp_submission_list(a.submissions, b.submissions),
                        cmp_presentation_list(a.presentations, b.presentations),
                    ),
                ),
            ),
        ),
    )
}

// ----------------------------------------------------------------------
// Antisymmetry: comparing with exchanged arguments flips the result.
// ----------------------------------------------------------------------

pub proof fn lemma_flip_chars(a: Seq<char>, b: Seq<char>)
    ensures
        cmp_chars(b, a) == flip(cmp_chars(a, b)),
    decreases a.len(),
{
    if a.len() > 0 && b.len() > 0 && a[0] as u32 == b[0] as u32 {
        lemma_flip_chars(a.drop_first(), b.drop_first());
    }
}

pub proof fn lemma_flip_opt_chars(a: Option<Seq<char>>, b: Option<Seq<char>>)
    ensures
        cmp_opt_chars(b, a) == flip(cmp_opt_chars(a, b)),
{
    if a is Some && b is Some {
        lemma_flip_chars(a->Some_0, b->Some_0);
    }
}

pub proof fn lemma_flip_chars_list(a: Seq<Seq<char>>, b: Seq<Seq<char>>)
    ensures
        cmp_chars_list(b, a) == flip(cmp_chars_list(a, b)),
    decreases a.len(),
{
    if a.len() > 0 && b.len() > 0 {
        lemma_flip_chars(a[0], b[0]);
        lemma_flip_chars_list(a.drop_first(), b.drop_first());
    }
}

pub proof fn lemma_flip_int_list(a: Seq<int>, b: Seq<int>)
    ensures
        cmp_int_list(b, a) == flip(cmp_int_list(a, b)),
    decreases a.len(),
{
    if a.len() > 0 && b.len() > 0 {
        lemma_flip_int_list(a.drop_first(), b.drop_first());
    }
}

pub proof fn lemma_flip_session(a: SessionV, b: SessionV)
    ensures
        cmp_session(b, a) == flip(cmp_session(a, b)),
{
    lemma_flip_opt_chars(a.title, b.title);
    lemma_flip_opt_chars(a.location, b.location);
    lemma_flip_chars_list(a.presenters, b.presenters);
    lemma_flip_chars(a.kind, b.kind);
}

pub proof fn lemma_flip_submission(a: SubmissionV, b: SubmissionV)
    ensures
        cmp_submission(b, a) == flip(cmp_submission(a, b)),
{
    lemma_flip_chars(a.name, b.name);
    lemma_flip_opt_chars(a.description, b.description);
}

pub proof fn lemma_flip_submission_list(a: Seq<SubmissionV>, b: Seq<SubmissionV>)
    ensures
        cmp_submission_list(b, a) == flip(cmp_submission_list(a, b)),
    decreases a.len(),
{
    if a.len() > 0 && b.len() > 0 {
        lemma_flip_submission(a[0], b[0]);
        lemma_flip_submission_list(a.drop_first(), b.drop_first());
    }
}

pub proof fn lemma_flip_presentation(a: PresentationV, b: PresentationV)
    ensures
        cmp_presentation(b, a) == flip(cmp_presentation(a, b)),
{
    lemma_flip_chars(a.name, b.name);
    lemma_flip_chars(a.session, b.session);
    lemma_flip_opt_chars(a.description, b.description);
    lemma_flip_int_list(a.weeks, b.weeks);
}

pub proof fn lemma_flip_presentation_list(a: Seq<PresentationV>, b: Seq<PresentationV>)
    ensures
        cmp_presentation_list(b, a) == flip(cmp_presentation_list(a, b)),
    decreases a.len(),
{
    if a.len() > 0 && b.len() > 0 {
        lemma_flip_presentation(a[0], b[0]);
        lemma_flip_presentation_list(a.drop_first(), b.drop_first());
    }
}

pub proof fn lemma_flip_assignment(a: AssignmentV, b: AssignmentV)
    ensures
        cmp_assignment(b, a) == flip(cmp_assignment(a, b)),
{
    lemma_flip_chars(a.name, b.name);
    lemma_flip_opt_chars(a.description, b.description);
    lemma_flip_chars(a.link, b.link);
    lemma_flip_submission_list(a.submissions, b.submissions);
    lemma_flip_presentation_list(a.presentations, b.presentations);
}

// ----------------------------------------------------------------------
// A tie means equality: two values that compare as `Eq` are the same.
// ----------------------------------------------------------------------

proof fn lemma_char_code_eq(x: char, y: char)
    requires
        x as u32 == y as u32,
    ensures
        x == y,
{
}

pub proof fn lemma_eq_chars(a: Seq<char>, b: Seq<char>)
    requires
        cmp_chars(a, b) == Cmp3::Eq,
    ensures
        a == b,
    decreases a.len(),
{
    if a.len() == 0 && b.len() == 0 {
        assert(a =~= b);
    } else {
        assert(a.len() > 0 && b.len() > 0);
        lemma_eq_chars(a.drop_first(), b.drop_first());
        assert(a.len() == b.len());
        lemma_char_code_eq(a[0], b[0]);
        assert forall|i: int| 0 <= i < a.len() implies a[i] == b[i] by {
            if i > 0 {
                assert(a.drop_first()[i - 1] == b.drop_first()[i - 1]);
            }
        }
        assert(a =~= b);
    }
}

pub proof fn lemma_eq_opt_chars(a: Option<Seq<char>>, b: Option<Seq<char>>)
    requires
        cmp_opt_chars(a, b) == Cmp3::Eq,
    ensures
        a == b,
{
    if a is Some && b is Some {
        lemma_eq_chars(a->Some_0, b->Some_0);
    }
}

pub proof fn lemma_eq_chars_list(a: Seq<Seq<char>>, b: Seq<Seq<char>>)
    requires
        cmp_chars_list(a, b) == Cmp3::Eq,
    ensures
        a == b,
    decreases a.len(),
{
    if a.len() == 0 && b.len() == 0 {
        assert(a =~= b);
    } else {
        lemma_eq_chars(a[0], b[0]);
        lemma_eq_chars_list(a.drop_first(), b.drop_first());
        assert forall|i: int| 0 <= i < a.len() implies a[i] == b[i] by {
            if i > 0 {
                assert(a.drop_first()[i - 1] == b.drop_first()[i - 1]);
            }
        }
        assert(a =~= b);
    }
}

pub proof fn lemma_eq_int_list(a: Seq<int>, b: Seq<int>)
    requires
        cmp_int_list(a, b) == Cmp3::Eq,
    ensures
        a == b,
    decreases a.len(),
{
    if a.len() == 0 && b.len() == 0 {
        assert(a =~= b);
    } else {
        lemma_eq_int_list(a.drop_first(), b.drop_first());
        assert forall|i: int| 0 <= i < a.len() implies a[i] == b[i] by {
            if i > 0 {
                assert(a.drop_first()[i - 1] == b.drop_first()[i - 1]);
            }
        }
        assert(a =~= b);
    }
}

pub proof fn lemma_eq_session(a: SessionV, b: SessionV)
    requires
        cmp_session(a, b) == Cmp3::Eq,
    ensures
        a == b,
{
    lemma_eq_opt_chars(a.title, b.title);
    lemma_eq_opt_chars(a.location, b.location);
    lemma_eq_chars_list(a.presenters, b.presenters);
    lemma_eq_chars(a.kind, b.kind);
    assert(a =~= b);
}

pub proof fn lemma_eq_submission(a: SubmissionV, b: SubmissionV)
    requires
        cmp_submission(a, b) == Cmp3::Eq,
    ensures
        a == b,
{
    lemma_eq_chars(a.name, b.name);
    lemma_eq_opt_chars(a.description, b.description);
    assert(a =~= b);
}

pub proof fn lemma_eq_submission_list(a: Seq<SubmissionV>, b: Seq<SubmissionV>)
    requires
        cmp_submission_list(a, b) == Cmp3::Eq,
    ensures
        a == b,
    decreases a.len(),
{
    if a.len() == 0 && b.len() == 0 {
        assert(a =~= b);
    } else {
        lemma_eq_submission(a[0], b[0]);
        lemma_eq_submission_list(a.drop_first(), b.drop_first());
        assert forall|i: int| 0 <= i < a.len() implies a[i] == b[i] by {
            if i > 0 {
                assert(a.drop_first()[i - 1] == b.drop_first()[i - 1]);
            }
        }
        assert(a =~= b);
    }
}

pub proof fn lemma_eq_presentation(a: PresentationV, b: PresentationV)
    requires
        cmp_presentation(a, b) == Cmp3::Eq,
    ensures
        a == b,
{
    lemma_eq_chars(a.name, b.name);
    lemma_eq_chars(a.session, b.session);
    lemma_eq_opt_chars(a.description, b.description);
    lemma_eq_int_list(a.weeks, b.weeks);
    assert(a =~= b);
}

pub proof fn lemma_eq_presentation_list(a: Seq<PresentationV>, b: Seq<PresentationV>)
    requires
        cmp_presentation_list(a, b) == Cmp3::Eq,
    ensures
        a == b,
    decreases a.len(),
{
    if a.len() == 0 && b.len() == 0 {
        assert(a =~= b);
    } else {
        lemma_eq_presentation(a[0], b[0]);
        lemma_eq_presentation_list(a.drop_first(), b.drop_first());
        assert forall|i: int| 0 <= i < a.len() implies a[i] == b[i] by {
            if i > 0 {
                assert(a.drop_first()[i - 1] == b.drop_first()[i - 1]);
            }
        }
        assert(a =~= b);
    }
}

pub proof fn lemma_eq_assignment(a: AssignmentV, b: AssignmentV)
    requires
        cmp_assignment(a, b) == Cmp3::Eq,
    ensures
        a == b,
{
    lemma_eq_chars(a.name, b.name);
    lemma_eq_opt_chars(a.description, b.description);
    lemma_eq_chars(a.link, b.link);
    lemma_eq_submission_list(a.submissions, b.submissions);
    lemma_eq_presentation_list(a.presentations, b.presentations);
    assert(a =~= b);
}

// ----------------------------------------------------------------------
// Strict order transitivity
// ----------------------------------------------------------------------

pub proof fn lemma_lt_trans_chars(a: Seq<char>, b: Seq<char>, c: Seq<char>)
    requires
        cmp_chars(a, b) == Cmp3::Lt,
        cmp_chars(b, c) == Cmp3::Lt,
    ensures
        cmp_chars(a, c) == Cmp3::Lt,
    decreases a.len(),
{
    if a.len() > 0 && b.len() > 0 && c.len() > 0 && a[0] as u32 == b[0] as u32 && b[0] as u32
        == c[0] as u32 {
        lemma_lt_trans_chars(a.drop_first(), b.drop_first(), c.drop_first());
    }
}

pub proof fn lemma_lt_trans_opt_chars(
    a: Option<Seq<char>>,
    b: Option<Seq<char>>,
    c: Option<Seq<char>>,
)
    requires
        cmp_opt_chars(a, b) == Cmp3::Lt,
        cmp_opt_chars(b, c) == Cmp3::Lt,
    ensures
        cmp_opt_chars(a, c) == Cmp3::Lt,
{
    if a is Some && b is Some && c is Some {
        lemma_lt_trans_chars(a->Some_0, b->Some_0, c->Some_0);
    }
}

pub proof fn lemma_lt_trans_chars_list(a: Seq<Seq<char>>, b: Seq<Seq<char>>, c: Seq<Seq<char>>)
    requires
        cmp_chars_list(a, b) == Cmp3::Lt,
        cmp_chars_list(b, c) == Cmp3::Lt,
    ensures
        cmp_chars_list(a, c) == Cmp3::Lt,
    decreases a.len(),
{
    if a.len() > 0 && b.len() > 0 && c.len() > 0 {
        if cmp_chars(a[0], b[0]) == Cmp3::Eq {
            lemma_eq_chars(a[0], b[0]);
        }
        if cmp_chars(b[0], c[0]) == Cmp3::Eq {
            lemma_eq_chars(b[0], c[0]);
        }
        if cmp_chars(a[0], b[0]) == Cmp3::Lt && cmp_chars(b[0], c[0]) == Cmp3::Lt {
            lemma_lt_trans_chars(a[0], b[0], c[0]);
        }
        if cmp_chars(a[0], b[0]) == Cmp3::Eq && cmp_chars(b[0], c[0]) == Cmp3::Eq {
            lemma_lt_trans_chars_list(a.drop_first(), b.drop_first(), c.drop_first());
        }
    }
}

pub proof fn lemma_lt_trans_int_list(a: Seq<int>, b: Seq<int>, c: Seq<int>)
    requires
        cmp_int_list(a, b) == Cmp3::Lt,
        cmp_int_list(b, c) == Cmp3::Lt,
    ensures
        cmp_int_list(a, c) == Cmp3::Lt,
    decreases a.len(),
{
    if a.len() > 0 && b.len() > 0 && c.len() > 0 && a[0] == b[0] && b[0] == c[0] {
        lemma_lt_trans_int_list(a.drop_first(), b.drop_first(), c.drop_first());
    }
}

pub proof fn lemma_lt_trans_session(a: SessionV, b: SessionV, c: SessionV)
    requires
        cmp_session(a, b) == Cmp3::Lt,
        cmp_session(b, c) == Cmp3::Lt,
    ensures
        cmp_session(a, c) == Cmp3::Lt,
{
    if cmp_opt_chars(a.title, b.title) == Cmp3::Eq {
        lemma_eq_opt_chars(a.title, b.title);
    }
    if cmp_opt_chars(b.title, c.title) == Cmp3::Eq {
        lemma_eq_opt_chars(b.title, c.title);
    }
    if cmp_opt_chars(a.title, b.title) == Cmp3::Lt && cmp_opt_chars(b.title, c.title)
        == Cmp3::Lt {
        lemma_lt_trans_opt_chars(a.title, b.title, c.title);
    }
    if cmp_opt_chars(a.location, b.location) == Cmp3::Eq {
        lemma_eq_opt_chars(a.location, b.location);
    }
    if cmp_opt_chars(b.location, c.location) == Cmp3::Eq {
        lemma_eq_opt_chars(b.location, c.location);
    }
    if cmp_opt_chars(a.location, b.location) == Cmp3::Lt && cmp_opt_chars(
        b.location,
        c.location,
    ) == Cmp3::Lt {
        lemma_lt_trans_opt_chars(a.location, b.location, c.location);
    }
    if cmp_chars_list(a.presenters, b.presenters) == Cmp3::Eq {
        lemma_eq_chars_list(a.presenters, b.presenters);
    }
    if cmp_chars_list(b.presenters, c.presenters) == Cmp3::Eq {
        lemma_eq_chars_list(b.presenters, c.presenters);
    }
    if cmp_chars_list(a.presenters, b.presenters) == Cmp3::Lt && cmp_chars_list(
        b.presenters,
        c.presenters,
    ) == Cmp3::Lt {
        lemma_lt_trans_chars_list(a.presenters, b.presenters, c.presenters);
    }
    if cmp_chars(a.kind, b.kind) == Cmp3::Eq {
        lemma_eq_chars(a.kind, b.kind);
    }
    if cmp_chars(b.kind, c.kind) == Cmp3::Eq {
        lemma_eq_chars(b.kind, c.kind);
    }
    if cmp_chars(a.kind, b.kind) == Cmp3::Lt && cmp_chars(b.kind, c.kind) == Cmp3::Lt {
        lemma_lt_trans_chars(a.kind, b.kind, c.kind);
    }
}

pub proof fn lemma_lt_trans_submission(a: SubmissionV, b: SubmissionV, c: SubmissionV)
    requires
        cmp_submission(a, b) == Cmp3::Lt,
        cmp_submission(b, c) == Cmp3::Lt,
    ensures
        cmp_submission(a, c) == Cmp3::Lt,
{
    if cmp_chars(a.name, b.name) == Cmp3::Eq {
        lemma_eq_chars(a.name, b.name);
    }
    if cmp_chars(b.name, c.name) == Cmp3::Eq {
        lemma_eq_chars(b.name, c.name);
    }
    if cmp_chars(a.name, b.name) == Cmp3::Lt && cmp_chars(b.name, c.name) == Cmp3::Lt {
        lemma_lt_trans_chars(a.name, b.name, c.name);
    }
    if cmp_opt_chars(a.description, b.description) == Cmp3::Eq {
        lemma_eq_opt_chars(a.description, b.description);
    }
    if cmp_opt_chars(b.description, c.description) == Cmp3::Eq {
        lemma_eq_opt_chars(b.description, c.description);
    }
    if cmp_opt_chars(a.description, b.description) == Cmp3::Lt && cmp_opt_chars(
        b.description,
        c.description,
    ) == Cmp3::Lt {
        lemma_lt_trans_opt_chars(a.description, b.description, c.description);
    }
}

pub proof fn lemma_lt_trans_submission_list(
    a: Seq<SubmissionV>,
    b: Seq<SubmissionV>,
    c: Seq<SubmissionV>,
)
    requires
        cmp_submission_list(a, b) == Cmp3::Lt,
        cmp_submission_list(b, c) == Cmp3::Lt,
    ensures
        cmp_submission_list(a, c) == Cmp3::Lt,
    decreases a.len(),
{
    if a.len() > 0 && b.len() > 0 && c.len() > 0 {
        if cmp_submission(a[0], b[0]) == Cmp3::Eq {
            lemma_eq_submission(a[0], b[0]);
        }
        if cmp_submission(b[0], c[0]) == Cmp3::Eq {
            lemma_eq_submission(b[0], c[0]);
        }
        if cmp_submission(a[0], b[0]) == Cmp3::Lt && cmp_submission(b[0], c[0]) == Cmp3::Lt {
            lemma_lt_trans_submission(a[0], b[0], c[0]);
        }
        if cmp_submission(a[0], b[0]) == Cmp3::Eq && cmp_submission(b[0], c[0]) == Cmp3::Eq {
            lemma_lt_trans_submission_list(a.drop_first(), b.drop_first(), c.drop_first());
        }
    }
}

pub proof fn lemma_lt_trans_presentation(a: PresentationV, b: PresentationV, c: PresentationV)
    requires
        cmp_presentation(a, b) == Cmp3::Lt,
        cmp_presentation(b, c) == Cmp3::Lt,
    ensures
        cmp_presentation(a, c) == Cmp3::Lt,
{
    if cmp_chars(a.name, b.name) == Cmp3::Eq {
        lemma_eq_chars(a.name, b.name);
    }
    if cmp_chars(b.name, c.name) == Cmp3::Eq {
        lemma_eq_chars(b.name, c.name);
    }
    if cmp_chars(a.name, b.name) == Cmp3::Lt && cmp_chars(b.name, c.name) == Cmp3::Lt {
        lemma_lt_trans_chars(a.name, b.name, c.name);
    }
    if cmp_chars(a.session, b.session) == Cmp3::Eq {
        lemma_eq_chars(a.session, b.session);
    }
    if cmp_chars(b.session, c.session) == Cmp3::Eq {
        lemma_eq_chars(b.session, c.session);
    }
    if cmp_chars(a.session, b.session) == Cmp3::Lt && cmp_chars(b.session, c.session)
        == Cmp3::Lt {
        lemma_lt_trans_chars(a.session, b.session, c.session);
    }
    if cmp_opt_chars(a.description, b.description) == Cmp3::Eq {
        lemma_eq_opt_chars(a.description, b.description);
    }
    if cmp_opt_chars(b.description, c.description) == Cmp3::Eq {
        lemma_eq_opt_chars(b.description, c.description);
    }
    if cmp_opt_chars(a.description, b.description) == Cmp3::Lt && cmp_opt_chars(
        b.description,
        c.description,
    ) == Cmp3::Lt {
        lemma_lt_trans_opt_chars(a.description, b.description, c.description);
    }
    if cmp_int_list(a.weeks, b.weeks) == Cmp3::Eq {
        lemma_eq_int_list(a.weeks, b.weeks);
    }
    if cmp_int_list(b.weeks, c.weeks) == Cmp3::Eq {
        lemma_eq_int_list(b.weeks, c.weeks);
    }
    if cmp_int_list(a.weeks, b.weeks) == Cmp3::Lt && cmp_int_list(b.weeks, c.weeks)
        == Cmp3::Lt {
        lemma_lt_trans_int_list(a.weeks, b.weeks, c.weeks);
    }
}

pub proof fn lemma_lt_trans_presentation_list(
    a: Seq<PresentationV>,
    b: Seq<PresentationV>,
    c: Seq<PresentationV>,
)
    requires
        cmp_presentation_list(a, b) == Cmp3::Lt,
        cmp_presentation_list(b, c) == Cmp3::Lt,
    ensures
        cmp_presentation_list(a, c) == Cmp3::Lt,
    decreases a.len(),
{
    if a.len() > 0 && b.len() > 0 && c.len() > 0 {
        if cmp_presentation(a[0], b[0]) == Cmp3::Eq {
            lemma_eq_presentation(a[0], b[0]);
        }
        if cmp_presentation(b[0], c[0]) == Cmp3::Eq {
            lemma_eq_presentation(b[0], c[0]);
        }
        if cmp_presentation(a[0], b[0]) == Cmp3::Lt && cmp_presentation(b[0], c[0])
            == Cmp3::Lt {
            lemma_lt_trans_presentation(a[0], b[0], c[0]);
        }
        if cmp_presentation(a[0], b[0]) == Cmp3::Eq && cmp_presentation(b[0], c[0])
            == Cmp3::Eq {
            lemma_lt_trans_presentation_list(a.drop_first(), b.drop_first(), c.drop_first());
        }
    }
}

pub proof fn lemma_lt_trans_assignment(a: AssignmentV, b: AssignmentV, c: AssignmentV)
    requires
        cmp_assignment(a, b) == Cmp3::Lt,
        cmp_assignment(b, c) == Cmp3::Lt,
    ensures
        cmp_assignment(a, c) == Cmp3::Lt,
{
    if cmp_chars(a.name, b.name) == Cmp3::Eq {
        lemma_eq_chars(a.name, b.name);
    }
    if cmp_chars(b.name, c.name) == Cmp3::Eq {
        lemma_eq_chars(b.name, c.name);
    }
    if cmp_chars(a.name, b.name) == Cmp3::Lt && cmp_chars(b.name, c.name) == Cmp3::Lt {
        lemma_lt_trans_chars(a.name, b.name, c.name);
    }
    if cmp_opt_chars(a.description, b.description) == Cmp3::Eq {
        lemma_eq_opt_chars(a.description, b.description);
    }
    if cmp_opt_chars(b.description, c.description) == Cmp3::Eq {
        lemma_eq_opt_chars(b.description, c.description);
    }
    if cmp_opt_chars(a.description, b.description) == Cmp3::Lt && cmp_opt_chars(
        b.description,
        c.description,
    ) == Cmp3::Lt {
        lemma_lt_trans_opt_chars(a.description, b.description, c.description);
    }
    if cmp_chars(a.link, b.link) == Cmp3::Eq {
        lemma_eq_chars(a.link, b.link);
    }
    if cmp_chars(b.link, c.link) == Cmp3::Eq {
        lemma_eq_chars(b.link, c.link);
    }
    if cmp_chars(a.link, b.link) == Cmp3::Lt && cmp_chars(b.link, c.link) == Cmp3::Lt {
        lemma_lt_trans_chars(a.link, b.link, c.link);
    }
    if cmp_submission_list(a.submissions, b.submissions) == Cmp3::Eq {
        lemma_eq_submission_list(a.submissions, b.submissions);
    }
    if cmp_submission_list(b.submissions, c.submissions) == Cmp3::Eq {
        lemma_eq_submission_list(b.submissions, c.submissions);
    }
    if cmp_submission_list(a.submissions, b.submissions) == Cmp3::Lt && cmp_submission_list(
        b.submissions,
        c.submissions,
    ) == Cmp3::Lt {
        lemma_lt_trans_submission_list(a.submissions, b.submissions, c.submissions);
    }
    if cmp_presentation_list(a.presentations, b.presentations) == Cmp3::Eq {
        lemma_eq_presentation_list(a.presentations, b.presentations);
    }
    if cmp_presentation_list(b.presentations, c.presentations) == Cmp3::Eq {
        lemma_eq_presentation_list(b.presentations, c.presentations);
    }
    if cmp_presentation_list(a.presentations, b.presentations) == Cmp3::Lt
        && cmp_presentation_list(b.presentations, c.presentations) == Cmp3::Lt {
        lemma_lt_trans_presentation_list(a.presentations, b.presentations, c.presentations);
    }
}

// ----------------------------------------------------------------------
// Executable comparators
// ----------------------------------------------------------------------

pub fn compare_i64(a: i64, b: i64) -> (r: Cmp3)
    ensures
        r == cmp_int(a as int, b as int),
{
    if a < b {
        Cmp3::Lt
    } else if a == b {
        Cmp3::Eq
    } else {
        Cmp3::Gt
    }
}

pub fn compare_opt_u64(a: &Option<u64>, b: &Option<u64>) -> (r: Cmp3)
    ensures
        r == cmp_opt_int(
            match *a {
                Some(x) => Some(x as int),
                None => None,
            },
            match *b {
                Some(y) => Some(y as int),
                None => None,
            },
        ),
{
    match (a, b) {
        (None, None) => Cmp3::Eq,
        (None, Some(_)) => Cmp3::Lt,
        (Some(_), None) => Cmp3::Gt,
        (Some(x), Some(y)) => {
            if *x < *y {
                Cmp3::Lt
            } else if *x == *y {
                Cmp3::Eq
            } else {
                Cmp3::Gt
            }
        },
    }
}

pub fn compare_str(a: &str, b: &str) -> (r: Cmp3)
    ensures
        r == cmp_chars(a@, b@),
{
    let alen = a.unicode_len();
    let blen = b.unicode_len();
    let mut i: usize = 0;
    proof {
        assert(a@.skip(0) =~= a@);
        assert(b@.skip(0) =~= b@);
    }
    while i < alen && i < blen
        invariant
            alen == a@.len(),
            blen == b@.len(),
            i <= alen,
            i <= blen,
            cmp_chars(a@, b@) == cmp_chars(a@.skip(i as int), b@.skip(i as int)),
        decreases alen - i,
    {
        let ca = a.get_char(i);
        let cb = b.get_char(i);
        proof {
            assert(a@.skip(i as int)[0] == a@[i as int]);
            assert(b@.skip(i as int)[0] == b@[i as int]);
        }
        if (ca as u32) < (cb as u32) {
            return Cmp3::Lt;
        }
        if (cb as u32) < (ca as u32) {
            return Cmp3::Gt;
        }
        proof {
            assert(a@.skip(i as int).drop_first() =~= a@.skip(i as int + 1));
            assert(b@.skip(i as int).drop_first() =~= b@.skip(i as int + 1));
        }
        i = i + 1;
    }
    if alen == blen {
        Cmp3::Eq
    } else if alen < blen {
        Cmp3::Lt
    } else {
        Cmp3::Gt
    }
}

pub fn compare_opt_string(a: &Option<String>, b: &Option<String>) -> (r: Cmp3)
    ensures
        r == cmp_opt_chars(view_opt_string(*a), view_opt_string(*b)),
{
    match (a, b) {
        (None, None) => Cmp3::Eq,
        (None, Some(_)) => Cmp3::Lt,
        (Some(_), None) => Cmp3::Gt,
        (Some(x), Some(y)) => compare_str(x.as_str(), y.as_str()),
    }
}

pub fn compare_string_list(a: &Vec<String>, b: &Vec<String>) -> (r: Cmp3)
    ensures
        r == cmp_chars_list(view_strings(a@), view_strings(b@)),
{
    let ghost va = view_strings(a@);
    let ghost vb = view_strings(b@);
    let mut i: usize = 0;
    proof {
        assert(va.skip(0) =~= va);
        assert(vb.skip(0) =~= vb);
    }
    while i < a.len() && i < b.len()
        invariant
            va == view_strings(a@),
            vb == view_strings(b@),
            va.len() == a@.len(),
            vb.len() == b@.len(),
            i <= a@.len(),
            i <= b@.len(),
            cmp_chars_list(va, vb) == cmp_chars_list(va.skip(i as int), vb.skip(i as int)),
        decreases a@.len() - i,
    {
        proof {
            assert(va.skip(i as int)[0] == va[i as int]);
            assert(vb.skip(i as int)[0] == vb[i as int]);
        }
        match compare_str(a[i].as_str(), b[i].as_str()) {
            Cmp3::Eq => {
                proof {
                    assert(va.skip(i as int).drop_first() =~= va.skip(i as int + 1));
                    assert(vb.skip(i as int).drop_first() =~= vb.skip(i as int + 1));
                }
                i = i + 1;
            },
            c => {
                return c;
            },
        }
    }
    if a.len() == b.len() {
        Cmp3::Eq
    } else if a.len() < b.len() {
        Cmp3::Lt
    } else {
        Cmp3::Gt
    }
}

pub fn compare_usize_list(a: &Vec<usize>, b: &Vec<usize>) -> (r: Cmp3)
    ensures
        r == cmp_int_list(view_indices(a@), view_indices(b@)),
{
    let ghost va = view_indices(a@);
    let ghost vb = view_indices(b@);
    let mut i: usize = 0;
    proof {
        assert(va.skip(0) =~= va);
        assert(vb.skip(0) =~= vb);
    }
    while i < a.len() && i < b.len()
        invariant
            va == view_indices(a@),
            vb == view_indices(b@),
            va.len() == a@.len(),
            vb.len() == b@.len(),
            i <= a@.len(),
            i <= b@.len(),
            cmp_int_list(va, vb) == cmp_int_list(va.skip(i as int), vb.skip(i as int)),
        decreases a@.len() - i,
    {
        proof {
            assert(va.skip(i as int)[0] == va[i as int]);
            assert(vb.skip(i as int)[0] == vb[i as int]);
        }
        let x = a[i];
        let y = b[i];
        if x < y {
            return Cmp3::Lt;
        }
        if y < x {
            return Cmp3::Gt;
        }
        proof {
            assert(va.skip(i as int).drop_first() =~= va.skip(i as int + 1));
            assert(vb.skip(i as int).drop_first() =~= vb.skip(i as int + 1));
        }
        i = i + 1;
    }
    if a.len() == b.len() {
        Cmp3::Eq
    } else if a.len() < b.len() {
        Cmp3::Lt
    } else {
        Cmp3::Gt
    }
}

pub fn compare_session(a: &Session, b: &Session) -> (r: Cmp3)
    ensures
        r == cmp_session(a@, b@),
{
    match compare_i64(a.time, b.time) {
        Cmp3::Eq => (),
        c => {
            return c;
        },
    }
    match compare_opt_string(&a.title, &b.title) {
        Cmp3::Eq => (),
        c => {
            return c;
        },
    }
    match compare_opt_string(&a.location, &b.location) {
        Cmp3::Eq => (),
        c => {
            return c;
        },
    }
    match compare_string_list(&a.presenters, &b.presenters) {
        Cmp3::Eq => (),
        c => {
            return c;
        },
    }
    match compare_str(a.kind.as_str(), b.kind.as_str()) {
        Cmp3::Eq => (),
        c => {
            return c;
        },
    }
    compare_i64(a.duration, b.duration)
}

pub fn compare_submission(a: &Submission, b: &Submission) -> (r: Cmp3)
    ensures
        r == cmp_submission(a@, b@),
{
    match compare_i64(a.time, b.time) {
        Cmp3::Eq => (),
        c => {
            return c;
        },
    }
    match compare_str(a.name.as_str(), b.name.as_str()) {
        Cmp3::Eq => (),
        c => {
            return c;
        },
    }
    compare_opt_string(&a.description, &b.description)
}

pub fn compare_submission_list(a: &Vec<Submission>, b: &Vec<Submission>) -> (r: Cmp3)
    ensures
        r == cmp_submission_list(
            a@.map_values(|s: Submission| s@),
            b@.map_values(|s: Submission| s@),
        ),
{
    let ghost va = a@.map_values(|s: Submission| s@);
    let ghost vb = b@.map_values(|s: Submission| s@);
    let mut i: usize = 0;
    proof {
        assert(va.skip(0) =~= va);
        assert(vb.skip(0) =~= vb);
    }
    while i < a.len() && i < b.len()
        invariant
            va == a@.map_values(|s: Submission| s@),
            vb == b@.map_values(|s: Submission| s@),
            va.len() == a@.len(),
            vb.len() == b@.len(),
            i <= a@.len(),
            i <= b@.len(),
            cmp_submission_list(va, vb) == cmp_submission_list(
                va.skip(i as int),
                vb.skip(i as int),
            ),
        decreases a@.len() - i,
    {
        proof {
            assert(va.skip(i as int)[0] == va[i as int]);
            assert(vb.skip(i as int)[0] == vb[i as int]);
        }
        match compare_submission(&a[i], &b[i]) {
            Cmp3::Eq => {
                proof {
                    assert(va.skip(i as int).drop_first() =~= va.skip(i as int + 1));
                    assert(vb.skip(i as int).drop_first() =~= vb.skip(i as int + 1));
                }
                i = i + 1;
            },
            c => {
                return c;
            },
        }
    }
    if a.len() == b.len() {
        Cmp3::Eq
    } else if a.len() < b.len() {
        Cmp3::Lt
    } else {
        Cmp3::Gt
    }
}

pub fn compare_presentation(a: &Presentation, b: &Presentation) -> (r: Cmp3)
    ensures
        r == cmp_presentation(a@, b@),
{
    match compare_str(a.name.as_str(), b.name.as_str()) {
        Cmp3::Eq => (),
        c => {
            return c;
        },
    }
    match compare_str(a.session.as_str(), b.session.as_str()) {
        Cmp3::Eq => (),
        c => {
            return c;
        },
    }
    match compare_opt_string(&a.description, &b.description) {
        Cmp3::Eq => (),
        c => {
            return c;
        },
    }
    compare_usize_list(&a.weeks, &b.weeks)
}

pub fn compare_presentation_list(a: &Vec<Presentation>, b: &Vec<Presentation>) -> (r: Cmp3)
    ensures
        r == cmp_presentation_list(
            a@.map_values(|p: Presentation| p@),
            b@.map_values(|p: Presentation| p@),
        ),
{
    let ghost va = a@.map_values(|p: Presentation| p@);
    let ghost vb = b@.map_values(|p: Presentation| p@);
    let mut i: usize = 0;
    proof {
        assert(va.skip(0) =~= va);
        assert(vb.skip(0) =~= vb);
    }
    while i < a.len() && i < b.len()
        invariant
            va == a@.map_values(|p: Presentation| p@),
            vb == b@.map_values(|p: Presentation| p@),
            va.len() == a@.len(),
            vb.len() == b@.len(),
            i <= a@.len(),
            i <= b@.len(),
            cmp_presentation_list(va, vb) == cmp_presentation_list(
                va.skip(i as int),
                vb.skip(i as int),
            ),
        decreases a@.len() - i,
    {
        proof {
            assert(va.skip(i as int)[0] == va[i as int]);
            assert(vb.skip(i as int)[0] == vb[i as int]);
        }
        match compare_presentation(&a[i], &b[i]) {
            Cmp3::Eq => {
                proof {
                    assert(va.skip(i as int).drop_first() =~= va.skip(i as int + 1));
                    assert(vb.skip(i as int).drop_first() =~= vb.skip(i as int + 1));
                }
                i = i + 1;
            },
            c => {
                return c;
            },
        }
    }
    if a.len() == b.len() {
        Cmp3::Eq
    } else if a.len() < b.len() {
        Cmp3::Lt
    } else {
        Cmp3::Gt
    }
}

pub fn compare_assignment(a: &Assignment, b: &Assignment) -> (r: Cmp3)
    ensures
        r == cmp_assignment(a@, b@),
{
    match compare_str(a.name.as_str(), b.name.as_str()) {
        Cmp3::Eq => (),
        c => {
            return c;
        },
    }
    match compare_opt_string(&a.description, &b.description) {
        Cmp3::Eq => (),
        c => {
            return c;
        },
    }
    match compare_str(a.link.as_str(), b.link.as_str()) {
        Cmp3::Eq => (),
        c => {
            return c;
        },
    }
    match compare_opt_u64(&a.value, &b.value) {
        Cmp3::Eq => (),
        c => {
            return c;
        },
    }
    match compare_submission_list(&a.submissions, &b.submissions) {
        Cmp3::Eq => (),
        c => {
            return c;
        },
    }
    compare_presentation_list(&a.presentations, &b.presentations)
}

} // verus!
