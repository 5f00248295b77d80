//! Recurrence expansion: each repeating-session template becomes one
//! concrete session per listed week.
//!
//! The first entry of a template's week list designates the reference week;
//! every generated session starts at its target week's start plus the
//! distance of the template's anchor from the reference week's start.  A
//! template that names a week outside the course fails the whole expansion
//! with an out-of-range error carrying the template's kind and the first
//! offending index, and the course is left unchanged.

use vstd::prelude::*;

use crate::model::{
    Course, CourseV, RepeatSession, RepeatSessionV, Session, SessionV, Week, WeekV, TIME_BOUND,
    clone_opt_string, clone_string_list, course_wf, repeat_session_wf, session_wf, week_wf,
};

verus! {

/// Failure of a core operation.
#[derive(Debug)]
pub enum CourseError {
    /// A template named a week index that the course does not have.
    OutOfRangeReference { kind: String, index: usize },
}

#[verifier::ext_equal]
pub ghost struct CourseErrorV {
    pub kind: Seq<char>,
    pub index: int,
}

impl View for CourseError {
    type V = CourseErrorV;

    open spec fn view(&self) -> CourseErrorV {
        match self {
            CourseError::OutOfRangeReference { kind, index } => CourseErrorV {
                kind: kind@,
                index: *index as int,
            },
        }
    }
}

impl CourseError {
    /// The template kind carried by the error.
    pub fn kind(&self) -> (r: &str)
        ensures
            r@ == self@.kind,
    {
        match self {
            CourseError::OutOfRangeReference { kind, .. } => kind.as_str(),
        }
    }

    /// The offending week index carried by the error.
    pub fn index(&self) -> (r: usize)
        ensures
            r as int == self@.index,
    {
        match self {
            CourseError::OutOfRangeReference { index, .. } => *index,
        }
    }
}

/// All week references of the template resolve within the course.
pub open spec fn tpl_ok(weeks: Seq<WeekV>, t: RepeatSessionV) -> bool {
    forall|j: int| 0 <= j < t.weeks.len() ==> 0 <= #[trigger] t.weeks[j] < weeks.len()
}

/// The first week reference at or after position `j` that is out of range.
pub open spec fn first_oor_from(weeks_len: int, idxs: Seq<int>, j: int) -> Option<int>
    decreases idxs.len() - j,
{
    if j < 0 || j >= idxs.len() {
        None
    } else if !(0 <= idxs[j] < weeks_len) {
        Some(idxs[j])
    } else {
        first_oor_from(weeks_len, idxs, j + 1)
    }
}

/// The error of the first template at or after position `i` with an
/// out-of-range week reference, if any: expansion fails on the first
/// violation, in template declaration order.
pub open spec fn first_err_from(weeks: Seq<WeekV>, tpls: Seq<RepeatSessionV>, i: int) -> Option<
    CourseErrorV,
>
    decreases tpls.len() - i,
{
    if i < 0 || i >= tpls.len() {
        None
    } else if !tpl_ok(weeks, tpls[i]) {
        Some(
            CourseErrorV {
                kind: tpls[i].kind,
                index: first_oor_from(weeks.len() as int, tpls[i].weeks, 0)->Some_0,
            },
        )
    } else {
        first_err_from(weeks, tpls, i + 1)
    }
}

/// The concrete session a template generates for a week starting at
/// `week_start`, with the reference week starting at `ref_start`: the
/// anchor's distance from the reference start is applied verbatim.
pub open spec fn dup_session(t: RepeatSessionV, ref_start: int, week_start: int) -> SessionV {
    SessionV {
        time: week_start + t.first - ref_start,
        title: t.title,
        location: t.location,
        presenters: t.presenters,
        kind: t.kind,
        duration: t.duration,
    }
}

/// The (week index, generated session) pairs of one template, in the order
/// of its week list.  A template with an empty week list contributes none.
pub open spec fn tpl_pairs(weeks: Seq<WeekV>, t: RepeatSessionV) -> Seq<(int, SessionV)> {
    Seq::new(
        t.weeks.len(),
        |j: int| (t.weeks[j], dup_session(t, weeks[t.weeks[0]].start, weeks[t.weeks[j]].start)),
    )
}

/// The pairs of the first `i` templates, in declaration order.
pub open spec fn all_pairs_upto(
    weeks: Seq<WeekV>,
    tpls: Seq<RepeatSessionV>,
    i: int,
) -> Seq<(int, SessionV)>
    decreases i,
{
    if i <= 0 {
        Seq::empty()
    } else {
        all_pairs_upto(weeks, tpls, i - 1) + tpl_pairs(weeks, tpls[i - 1])
    }
}

/// Every pair targets an existing week and carries a bounded session.
pub open spec fn pairs_wf(pairs: Seq<(int, SessionV)>, weeks_len: int) -> bool {
    forall|k: int|
        0 <= k < pairs.len() ==> {
            &&& 0 <= (#[trigger] pairs[k]).0 < weeks_len
            &&& session_wf(pairs[k].1)
        }
}

/// Appending one generated session to its target week.
pub open spec fn push_pair(weeks: Seq<WeekV>, p: (int, SessionV)) -> Seq<WeekV> {
    weeks.update(p.0, WeekV { start: weeks[p.0].start, sessions: weeks[p.0].sessions.push(p.1) })
}

/// The weeks after the first `k` pairs have been appended, in order.
pub open spec fn apply_pairs_upto(
    weeks: Seq<WeekV>,
    pairs: Seq<(int, SessionV)>,
    k: int,
) -> Seq<WeekV>
    decreases k,
{
    if k <= 0 {
        weeks
    } else {
        push_pair(apply_pairs_upto(weeks, pairs, k - 1), pairs[k - 1])
    }
}

/// The fully expanded weeks of a course whose templates are all in range.
pub open spec fn expanded_weeks(weeks: Seq<WeekV>, tpls: Seq<RepeatSessionV>) -> Seq<WeekV> {
    let pairs = all_pairs_upto(weeks, tpls, tpls.len() as int);
    apply_pairs_upto(weeks, pairs, pairs.len() as int)
}

/// Total number of concrete sessions in the first `i` weeks.
pub open spec fn total_sessions_upto(weeks: Seq<WeekV>, i: int) -> int
    decreases i,
{
    if i <= 0 {
        0
    } else {
        total_sessions_upto(weeks, i - 1) + weeks[i - 1].sessions.len()
    }
}

/// Total number of concrete sessions across all weeks.
pub open spec fn total_sessions(weeks: Seq<WeekV>) -> int {
    total_sessions_upto(weeks, weeks.len() as int)
}

/// Sum of the week-list lengths of the first `i` templates.
pub open spec fn total_template_weeks(tpls: Seq<RepeatSessionV>, i: int) -> int
    decreases i,
{
    if i <= 0 {
        0
    } else {
        total_template_weeks(tpls, i - 1) + tpls[i - 1].weeks.len()
    }
}

proof fn lemma_total_sessions_upto_update(weeks: Seq<WeekV>, w: int, x: WeekV, i: int)
    requires
        0 <= w < weeks.len(),
        i <= weeks.len(),
    ensures
        total_sessions_upto(weeks.update(w, x), i) == total_sessions_upto(weeks, i) + (
        if w < i {
            x.sessions.len() - weeks[w].sessions.len()
        } else {
            0
        }),
    decreases i,
{
    if i > 0 {
        lemma_total_sessions_upto_update(weeks, w, x, i - 1);
    }
}

proof fn lemma_apply_pairs_total(weeks: Seq<WeekV>, pairs: Seq<(int, SessionV)>, k: int)
    requires
        0 <= k <= pairs.len(),
        forall|j: int| 0 <= j < pairs.len() ==> 0 <= (#[trigger] pairs[j]).0 < weeks.len(),
    ensures
        apply_pairs_upto(weeks, pairs, k).len() == weeks.len(),
        total_sessions(apply_pairs_upto(weeks, pairs, k)) == total_sessions(weeks) + k,
    decreases k,
{
    if k > 0 {
        lemma_apply_pairs_total(weeks, pairs, k - 1);
        let cur = apply_pairs_upto(weeks, pairs, k - 1);
        let p = pairs[k - 1];
        let x = WeekV { start: cur[p.0].start, sessions: cur[p.0].sessions.push(p.1) };
        lemma_total_sessions_upto_update(cur, p.0, x, cur.len() as int);
    }
}

proof fn lemma_all_pairs_props(weeks: Seq<WeekV>, tpls: Seq<RepeatSessionV>, i: int)
    requires
        0 <= i <= tpls.len(),
        forall|j: int| 0 <= j < tpls.len() ==> tpl_ok(weeks, #[trigger] tpls[j]),
    ensures
        all_pairs_upto(weeks, tpls, i).len() == total_template_weeks(tpls, i),
        forall|k: int|
            0 <= k < all_pairs_upto(weeks, tpls, i).len() ==> 0 <= (#[trigger] all_pairs_upto(
                weeks,
                tpls,
                i,
            )[k]).0 < weeks.len(),
    decreases i,
{
    if i > 0 {
        lemma_all_pairs_props(weeks, tpls, i - 1);
        let prefix = all_pairs_upto(weeks, tpls, i - 1);
        let tp = tpl_pairs(weeks, tpls[i - 1]);
        assert(tpl_ok(weeks, tpls[i - 1]));
        assert forall|k: int| 0 <= k < prefix.len() + tp.len() implies 0 <= (#[trigger] (prefix
            + tp)[k]).0 < weeks.len() by {
            if k >= prefix.len() {
                assert(tp[k - prefix.len()].0 == tpls[i - 1].weeks[k - prefix.len()]);
            }
        }
    }
}

proof fn lemma_no_err_all_ok(weeks: Seq<WeekV>, tpls: Seq<RepeatSessionV>, i: int)
    requires
        0 <= i,
        first_err_from(weeks, tpls, i) is None,
    ensures
        forall|j: int| i <= j < tpls.len() ==> tpl_ok(weeks, #[trigger] tpls[j]),
    decreases tpls.len() - i,
{
    if i < tpls.len() {
        lemma_no_err_all_ok(weeks, tpls, i + 1);
    }
}

proof fn lemma_all_ok_no_err(weeks: Seq<WeekV>, tpls: Seq<RepeatSessionV>, i: int)
    requires
        0 <= i,
        forall|j: int| i <= j < tpls.len() ==> tpl_ok(weeks, #[trigger] tpls[j]),
    ensures
        first_err_from(weeks, tpls, i) is None,
    decreases tpls.len() - i,
{
    if i < tpls.len() {
        lemma_all_ok_no_err(weeks, tpls, i + 1);
    }
}

/// Expansion succeeds exactly when every template's week references,
/// reference week included, resolve within the course.
pub proof fn lemma_expand_ok_iff(weeks: Seq<WeekV>, tpls: Seq<RepeatSessionV>)
    ensures
        first_err_from(weeks, tpls, 0) is None <==> (forall|i: int|
            0 <= i < tpls.len() ==> tpl_ok(weeks, #[trigger] tpls[i])),
{
    if first_err_from(weeks, tpls, 0) is None {
        lemma_no_err_all_ok(weeks, tpls, 0);
    }
    if forall|i: int| 0 <= i < tpls.len() ==> tpl_ok(weeks, #[trigger] tpls[i]) {
        lemma_all_ok_no_err(weeks, tpls, 0);
    }
}

/// A course with no recurring-session templates expands to itself: no
/// error is possible and the resulting weeks equal the input weeks.
pub proof fn lemma_expand_no_templates(c: CourseV)
    requires
        c.repeat_sessions.len() == 0,
    ensures
        first_err_from(c.weeks, c.repeat_sessions, 0) is None,
        expanded_weeks(c.weeks, c.repeat_sessions) == c.weeks,
{
    assert(all_pairs_upto(c.weeks, c.repeat_sessions, 0).len() == 0);
}

/// Successful expansion appends exactly one session per listed week of
/// each template, duplicates included: every template contributes as many
/// generated sessions as its week list has entries, and the total session
/// count grows by the sum of those lengths.
pub proof fn lemma_expand_session_count(c: CourseV)
    requires
        first_err_from(c.weeks, c.repeat_sessions, 0) is None,
    ensures
        forall|i: int|
            0 <= i < c.repeat_sessions.len() ==> (#[trigger] tpl_pairs(
                c.weeks,
                c.repeat_sessions[i],
            )).len() == c.repeat_sessions[i].weeks.len(),
        total_sessions(expanded_weeks(c.weeks, c.repeat_sessions)) == total_sessions(c.weeks)
            + total_template_weeks(c.repeat_sessions, c.repeat_sessions.len() as int),
{
    lemma_no_err_all_ok(c.weeks, c.repeat_sessions, 0);
    lemma_all_pairs_props(c.weeks, c.repeat_sessions, c.repeat_sessions.len() as int);
    let pairs = all_pairs_upto(c.weeks, c.repeat_sessions, c.repeat_sessions.len() as int);
    lemma_apply_pairs_total(c.weeks, pairs, pairs.len() as int);
}

impl RepeatSession {
    /// The concrete session this template generates for one target week.
    pub fn duplicate(&self, first_week: i64, week_start: i64) -> (r: Session)
        requires
            repeat_session_wf(self@),
            -TIME_BOUND <= first_week <= TIME_BOUND,
            -TIME_BOUND <= week_start <= TIME_BOUND,
        ensures
            r@ == dup_session(self@, first_week as int, week_start as int),
            session_wf(r@),
    {
        let offset = self.first - first_week;
        let r = Session {
            kind: self.kind.clone(),
            title: clone_opt_string(&self.title),
            presenters: clone_string_list(&self.presenters),
            location: clone_opt_string(&self.location),
            time: week_start + offset,
            duration: self.duration,
        };
        proof {
            assert(r@ =~= dup_session(self@, first_week as int, week_start as int));
        }
        r
    }
}

/// View of the collected (week index, session) pairs.
pub open spec fn view_pairs(pairs: Seq<(usize, Session)>) -> Seq<(int, SessionV)> {
    pairs.map_values(|p: (usize, Session)| (p.0 as int, p.1@))
}

proof fn lemma_view_pairs_push(s: Seq<(usize, Session)>, p: (usize, Session))
    ensures
        view_pairs(s.push(p)) == view_pairs(s).push((p.0 as int, p.1@)),
{
    assert(view_pairs(s.push(p)) =~= view_pairs(s).push((p.0 as int, p.1@)));
}

impl Course {
    /// Materialize every repeating-session template: one concrete session
    /// per listed week, appended to that week's session list, in template
    /// order and then week-list order.  The first out-of-range week
    /// reference fails the whole expansion and leaves the course unchanged.
    pub fn generate_repeats(&mut self) -> (r: Result<(), CourseError>)
        requires
            course_wf(old(self)@),
        ensures
            course_wf(final(self)@),
            match r {
                Ok(()) => {
                    &&& first_err_from(old(self)@.weeks, old(self)@.repeat_sessions, 0) is None
                    &&& final(self)@ == (CourseV {
                        weeks: expanded_weeks(old(self)@.weeks, old(self)@.repeat_sessions),
                        ..old(self)@
                    })
                },
                Err(e) => {
                    &&& first_err_from(old(self)@.weeks, old(self)@.repeat_sessions, 0) == Some(
                        e@,
                    )
                    &&& final(self)@ == old(self)@
                },
            },
    {
        let ghost weeks0 = old(self)@.weeks;
        let ghost tpls = old(self)@.repeat_sessions;
        let mut pairs: Vec<(usize, Session)> = Vec::new();
        let mut ti: usize = 0;
        proof {
            assert(view_pairs(pairs@) =~= all_pairs_upto(weeks0, tpls, 0));
        }
        while ti < self.repeat_sessions.len()
            invariant
                course_wf(old(self)@),
                *self == *old(self),
                weeks0 == old(self)@.weeks,
                tpls == old(self)@.repeat_sessions,
                ti <= tpls.len(),
                self.repeat_sessions@.len() == tpls.len(),
                first_err_from(weeks0, tpls, 0) == first_err_from(weeks0, tpls, ti as int),
                view_pairs(pairs@) == all_pairs_upto(weeks0, tpls, ti as int),
                pairs_wf(view_pairs(pairs@), weeks0.len() as int),
            decreases tpls.len() - ti,
        {
            let t = &self.repeat_sessions[ti];
            let ghost tv = tpls[ti as int];
            proof {
                assert(tv == t@);
            }
            if t.weeks.len() > 0 {
                let fi = t.weeks[0];
                if fi >= self.weeks.len() {
                    proof {
                        assert(tv.weeks[0] == fi as int);
                        assert(!tpl_ok(weeks0, tv));
                        assert(first_oor_from(weeks0.len() as int, tv.weeks, 0) == Some(
                            fi as int,
                        ));
                    }
                    return Err(CourseError::OutOfRangeReference { kind: t.kind.clone(), index: fi });
                }
                let first_start = self.weeks[fi].start;
                let mut wj: usize = 0;
                proof {
                    assert(all_pairs_upto(weeks0, tpls, ti as int) + tpl_pairs(
                        weeks0,
                        tv,
                    ).take(0) =~= all_pairs_upto(weeks0, tpls, ti as int));
                }
                while wj < t.weeks.len()
                    invariant
                        course_wf(old(self)@),
                        *self == *old(self),
                        weeks0 == old(self)@.weeks,
                        tpls == old(self)@.repeat_sessions,
                        ti < tpls.len(),
                        tv == tpls[ti as int],
                        t@ == tv,
                        wj <= tv.weeks.len(),
                        t.weeks@.len() == tv.weeks.len(),
                        first_err_from(weeks0, tpls, 0) == first_err_from(
                            weeks0,
                            tpls,
                            ti as int,
                        ),
                        forall|j: int| 0 <= j < wj ==> 0 <= #[trigger] tv.weeks[j] < weeks0.len(),
                        first_oor_from(weeks0.len() as int, tv.weeks, 0) == first_oor_from(
                            weeks0.len() as int,
                            tv.weeks,
                            wj as int,
                        ),
                        tv.weeks.len() > 0 && tv.weeks[0] < weeks0.len(),
                        first_start as int == weeks0[tv.weeks[0]].start,
                        view_pairs(pairs@) == all_pairs_upto(weeks0, tpls, ti as int)
                            + tpl_pairs(weeks0, tv).take(wj as int),
                        pairs_wf(view_pairs(pairs@), weeks0.len() as int),
                    decreases tv.weeks.len() - wj,
                {
                    let w = t.weeks[wj];
                    proof {
                        assert(tv.weeks[wj as int] == w as int);
                    }
                    if w >= self.weeks.len() {
                        proof {
                            assert(!tpl_ok(weeks0, tv));
                            assert(first_oor_from(weeks0.len() as int, tv.weeks, wj as int)
                                == Some(w as int));
                        }
                        return Err(
                            CourseError::OutOfRangeReference { kind: t.kind.clone(), index: w },
                        );
                    }
                    let week_start = self.weeks[w].start;
                    proof {
                        assert(week_start as int == weeks0[w as int].start);
                        assert(week_wf(weeks0[w as int]));
                        assert(week_wf(weeks0[tv.weeks[0]]));
                        assert(repeat_session_wf(tv));
                    }
                    let dup = t.duplicate(first_start, week_start);
                    let ghost pairs_snap = pairs@;
                    pairs.push((w, dup));
                    proof {
                        let tp = tpl_pairs(weeks0, tv);
                        assert(tp[wj as int] == (w as int, dup@));
                        lemma_view_pairs_push(pairs_snap, (w, dup));
                        assert(tp.take(wj as int + 1) =~= tp.take(wj as int).push(
                            tp[wj as int],
                        ));
                        assert((all_pairs_upto(weeks0, tpls, ti as int) + tp.take(
                            wj as int,
                        )).push(tp[wj as int]) =~= all_pairs_upto(weeks0, tpls, ti as int)
                            + tp.take(wj as int + 1));
                        assert(view_pairs(pairs@) == all_pairs_upto(weeks0, tpls, ti as int)
                            + tp.take(wj as int + 1));
                    }
                    wj = wj + 1;
                }
                proof {
                    assert(tpl_ok(weeks0, tv));
                    assert(tpl_pairs(weeks0, tv).take(tv.weeks.len() as int) =~= tpl_pairs(
                        weeks0,
                        tv,
                    ));
                    assert(view_pairs(pairs@) == all_pairs_upto(weeks0, tpls, ti as int + 1));
                }
            } else {
                proof {
                    assert(tpl_ok(weeks0, tv));
                    assert(tpl_pairs(weeks0, tv).len() == 0);
                    assert(all_pairs_upto(weeks0, tpls, ti as int) + tpl_pairs(weeks0, tv)
                        =~= all_pairs_upto(weeks0, tpls, ti as int));
                }
            }
            ti = ti + 1;
        }
        let ghost allpairs = all_pairs_upto(weeks0, tpls, tpls.len() as int);
        proof {
            assert(view_pairs(pairs@) == allpairs);
            assert(view_pairs(pairs@).len() == pairs@.len());
        }
        let mut k: usize = 0;
        while k < pairs.len()
            invariant
                course_wf(old(self)@),
                k <= pairs.len(),
                weeks0 == old(self)@.weeks,
                tpls == old(self)@.repeat_sessions,
                view_pairs(pairs@) == allpairs,
                allpairs.len() == pairs@.len(),
                pairs_wf(allpairs, weeks0.len() as int),
                self@ == (CourseV {
                    weeks: apply_pairs_upto(weeks0, allpairs, k as int),
                    ..old(self)@
                }),
                self.weeks@.len() == weeks0.len(),
                course_wf(self@),
            decreases pairs.len() - k,
        {
            let ghost prev = self@.weeks;
            let w = pairs[k].0;
            proof {
                assert(allpairs[k as int] == (w as int, pairs@[k as int].1@));
                assert((w as int) < weeks0.len());
            }
            let wk = self.weeks.remove(w);
            let s = crate::model::clone_session(&pairs[k].1);
            let Week { start, sessions } = wk;
            let mut sessions = sessions;
            sessions.push(s);
            let wk2 = Week { start, sessions };
            self.weeks.insert(w, wk2);
            proof {
                let wi = w as int;
                assert(prev[wi] == wk@);
                assert(wk2@.start == prev[wi].start);
                assert(wk2@.sessions =~= prev[wi].sessions.push(s@));
                assert(self.weeks@.map_values(|x: Week| x@) =~= push_pair(
                    prev,
                    allpairs[k as int],
                ));
                assert(self@ =~= (CourseV {
                    weeks: apply_pairs_upto(weeks0, allpairs, k as int + 1),
                    ..old(self)@
                }));
                assert forall|j: int| 0 <= j < self@.weeks.len() implies week_wf(
                    #[trigger] self@.weeks[j],
                ) by {
                    if j == wi {
                        assert(week_wf(prev[wi]));
                        assert(session_wf(s@));
                        assert(forall|m: int|
                            0 <= m < self@.weeks[j].sessions.len() ==> session_wf(
                                #[trigger] self@.weeks[j].sessions[m],
                            ));
                    } else {
                        assert(week_wf(prev[j]));
                    }
                }
                assert(course_wf(self@));
            }
            k = k + 1;
        }
        proof {
            assert(apply_pairs_upto(weeks0, allpairs, allpairs.len() as int) == expanded_weeks(
                weeks0,
                tpls,
            ));
        }
        Ok(())
    }
}

} // verus!
