//! Rendering of the work summary as a table.
//!
//! The summary itself (tasks, counts, decisions) is assembled from the
//! store by the surrounding binary and handed in as a value; what is
//! proved here is the rendering: the exact text produced for every
//! section, stated character by character by the `spec_*` functions.

use vstd::prelude::*;

use crate::numfmt::{dec_str, u64_to_string};

verus! {

/// Mathematical view of a [`SessionInfo`].
#[verifier::ext_equal]
pub ghost struct SessionInfoView {
    pub name: Option<Seq<char>>,
    pub id: Seq<char>,
    pub mode: Option<Seq<char>>,
    pub focus_task_id: Option<Seq<char>>,
}

/// The active session, if one is set.
#[derive(Debug)]
pub struct SessionInfo {
    pub name: Option<String>,
    pub id: String,
    pub mode: Option<String>,
    pub focus_task_id: Option<String>,
}

impl View for SessionInfo {
    type V = SessionInfoView;

    open spec fn view(&self) -> SessionInfoView {
        SessionInfoView {
            name: self.name.deep_view(),
            id: self.id@,
            mode: self.mode.deep_view(),
            focus_task_id: self.focus_task_id.deep_view(),
        }
    }
}

impl DeepView for SessionInfo {
    type V = SessionInfoView;

    open spec fn deep_view(&self) -> SessionInfoView {
        self.view()
    }
}

/// Task counts by status.
#[derive(Clone, Copy, PartialEq, Eq, Structural, Debug)]
pub struct StatusCounts {
    pub todo: u64,
    pub in_progress: u64,
    pub done: u64,
    pub blocked: u64,
}

/// Task counts by priority band.
#[derive(Clone, Copy, PartialEq, Eq, Structural, Debug)]
pub struct PriorityCounts {
    pub p0: u64,
    pub p1: u64,
    pub p2: u64,
    pub p3: u64,
    pub p4: u64,
}

/// The overall state of work.
#[derive(Clone, Copy, PartialEq, Eq, Structural, Debug)]
pub struct WorkState {
    pub total_tasks: u64,
    pub by_status: StatusCounts,
    pub by_priority: PriorityCounts,
}

/// Mathematical view of a [`TaskSummary`].
#[verifier::ext_equal]
pub ghost struct TaskSummaryView {
    pub id: Seq<char>,
    pub title: Seq<char>,
    pub status: Seq<char>,
    pub priority: Seq<char>,
    pub description: Option<Seq<char>>,
    pub blocked_reason: Option<Seq<char>>,
}

/// One task as the summary shows it.
#[derive(Debug)]
pub struct TaskSummary {
    pub id: String,
    pub title: String,
    pub status: String,
    pub priority: String,
    pub description: Option<String>,
    pub blocked_reason: Option<String>,
}

impl View for TaskSummary {
    type V = TaskSummaryView;

    open spec fn view(&self) -> TaskSummaryView {
        TaskSummaryView {
            id: self.id@,
            title: self.title@,
            status: self.status@,
            priority: self.priority@,
            description: self.description.deep_view(),
            blocked_reason: self.blocked_reason.deep_view(),
        }
    }
}

impl DeepView for TaskSummary {
    type V = TaskSummaryView;

    open spec fn deep_view(&self) -> TaskSummaryView {
        self.view()
    }
}

/// Mathematical view of a [`CommentSummary`].
#[verifier::ext_equal]
pub ghost struct CommentSummaryView {
    pub author: Option<Seq<char>>,
    pub content: Seq<char>,
}

/// One recorded decision.
#[derive(Debug)]
pub struct CommentSummary {
    pub author: Option<String>,
    pub content: String,
}

impl View for CommentSummary {
    type V = CommentSummaryView;

    open spec fn view(&self) -> CommentSummaryView {
        CommentSummaryView { author: self.author.deep_view(), content: self.content@ }
    }
}

impl DeepView for CommentSummary {
    type V = CommentSummaryView;

    open spec fn deep_view(&self) -> CommentSummaryView {
        self.view()
    }
}

/// Mathematical view of a [`SummaryOutput`].
#[verifier::ext_equal]
pub ghost struct SummaryOutputView {
    pub session: Option<SessionInfoView>,
    pub state: WorkState,
    pub focus_task: Option<TaskSummaryView>,
    pub blockers: Seq<TaskSummaryView>,
    pub next_actions: Seq<TaskSummaryView>,
    pub recent_decisions: Seq<CommentSummaryView>,
}

/// Everything the summary shows.
#[derive(Debug)]
pub struct SummaryOutput {
    pub session: Option<SessionInfo>,
    pub state: WorkState,
    pub focus_task: Option<TaskSummary>,
    pub blockers: Vec<TaskSummary>,
    pub next_actions: Vec<TaskSummary>,
    pub recent_decisions: Vec<CommentSummary>,
}

impl View for SummaryOutput {
    type V = SummaryOutputView;

    open spec fn view(&self) -> SummaryOutputView {
        SummaryOutputView {
            session: self.session.deep_view(),
            state: self.state,
            focus_task: self.focus_task.deep_view(),
            blockers: self.blockers.deep_view(),
            next_actions: self.next_actions.deep_view(),
            recent_decisions: self.recent_decisions.deep_view(),
        }
    }
}

/// The session section, when a session is set.
pub open spec fn spec_session_section(s: Option<SessionInfoView>) -> Seq<char> {
    match s {
        None => Seq::empty(),
        Some(si) => "Session: "@ + (match si.name {
            Some(n) => n,
            None => "-"@,
        }) + " ("@ + si.id + ")\n"@ + (match si.mode {
            Some(m) => "Mode: "@ + m + "\n"@,
            None => Seq::empty(),
        }) + (match si.focus_task_id {
            Some(f) => "Focus: "@ + f + "\n"@,
            None => Seq::empty(),
        }) + "\n"@,
    }
}

/// The state-of-work section.
pub open spec fn spec_state_section(st: WorkState) -> Seq<char> {
    "State of Work:\n"@ + "  Total tasks: "@ + dec_str(st.total_tasks as nat) + "\n"@
        + "  By status: "@ + dec_str(st.by_status.todo as nat) + " todo, "@ + dec_str(
        st.by_status.in_progress as nat,
    ) + " in progress, "@ + dec_str(st.by_status.done as nat) + " done, "@ + dec_str(
        st.by_status.blocked as nat,
    ) + " blocked\n"@ + "  By priority: "@ + dec_str(st.by_priority.p0 as nat) + " P0, "@
        + dec_str(st.by_priority.p1 as nat) + " P1, "@ + dec_str(st.by_priority.p2 as nat)
        + " P2, "@ + dec_str(st.by_priority.p3 as nat) + " P3, "@ + dec_str(
        st.by_priority.p4 as nat,
    ) + " P4\n"@ + "\n"@
}

/// The focus-task section, when a focus task is set.
pub open spec fn spec_focus_section(t: Option<TaskSummaryView>) -> Seq<char> {
    match t {
        None => Seq::empty(),
        Some(f) => "Focus Task:\n"@ + "  "@ + f.title + " ("@ + f.id + ")\n"@ + "  Status: "@
            + f.status + " | Priority: "@ + f.priority + "\n"@ + (match f.description {
            Some(d) => "  "@ + d + "\n"@,
            None => Seq::empty(),
        }) + "\n"@,
    }
}

/// One blocker line.
pub open spec fn spec_blocker_item(t: TaskSummaryView) -> Seq<char> {
    "  - "@ + t.title + " ("@ + t.id + ")"@ + (match t.blocked_reason {
        Some(r) => ": "@ + r,
        None => Seq::empty(),
    }) + "\n"@
}

pub open spec fn spec_blocker_items(ts: Seq<TaskSummaryView>) -> Seq<char>
    decreases ts.len(),
{
    if ts.len() == 0 {
        Seq::empty()
    } else {
        spec_blocker_items(ts.drop_last()) + spec_blocker_item(ts.last())
    }
}

/// The blockers section, when any blocker exists.
pub open spec fn spec_blockers_section(ts: Seq<TaskSummaryView>) -> Seq<char> {
    if ts.len() == 0 {
        Seq::empty()
    } else {
        "Blockers ("@ + dec_str(ts.len() as nat) + "):\n"@ + spec_blocker_items(ts) + "\n"@
    }
}

/// One next-action line.
pub open spec fn spec_next_item(t: TaskSummaryView) -> Seq<char> {
    "  - ["@ + t.priority + "] "@ + t.title + " ("@ + t.id + ")\n"@
}

pub open spec fn spec_next_items(ts: Seq<TaskSummaryView>) -> Seq<char>
    decreases ts.len(),
{
    if ts.len() == 0 {
        Seq::empty()
    } else {
        spec_next_items(ts.drop_last()) + spec_next_item(ts.last())
    }
}

/// The next-actions section, when any next action exists.
pub open spec fn spec_next_section(ts: Seq<TaskSummaryView>) -> Seq<char> {
    if ts.len() == 0 {
        Seq::empty()
    } else {
        "Next Actions:\n"@ + spec_next_items(ts) + "\n"@
    }
}

/// One recorded decision line.
pub open spec fn spec_decision_item(c: CommentSummaryView) -> Seq<char> {
    "  - "@ + (match c.author {
        Some(a) => a,
        None => "unknown"@,
    }) + ": "@ + c.content + "\n"@
}

pub open spec fn spec_decision_items(cs: Seq<CommentSummaryView>) -> Seq<char>
    decreases cs.len(),
{
    if cs.len() == 0 {
        Seq::empty()
    } else {
        spec_decision_items(cs.drop_last()) + spec_decision_item(cs.last())
    }
}

/// The recent-decisions section, when any decision exists.
pub open spec fn spec_decisions_section(cs: Seq<CommentSummaryView>) -> Seq<char> {
    if cs.len() == 0 {
        Seq::empty()
    } else {
        "Recent Decisions:\n"@ + spec_decision_items(cs) + "\n"@
    }
}

/// The whole summary table.
pub open spec fn spec_format_summary(v: SummaryOutputView) -> Seq<char> {
    "=== Summary ===\n\n"@ + spec_session_section(v.session) + spec_state_section(v.state)
        + spec_focus_section(v.focus_task) + spec_blockers_section(v.blockers)
        + spec_next_section(v.next_actions) + spec_decisions_section(v.recent_decisions)
}

} // verus!

verus! {

fn append_opt_or(out: &mut String, o: &Option<String>, fallback: &str)
    ensures
        final(out)@ == old(out)@ + (match o.deep_view() {
            Some(v) => v,
            None => fallback@,
        }),
{
    match o {
        Some(v) => out.append(v.as_str()),
        None => out.append(fallback),
    }
}

#[verifier::rlimit(100)]
fn append_session_section(out: &mut String, s: &Option<SessionInfo>)
    ensures
        final(out)@ == old(out)@ + spec_session_section(s.deep_view()),
{
    let ghost start = out@;
    match s {
        None => {
            proof {
                assert(out@ =~= start + spec_session_section(s.deep_view()));
            }
        },
        Some(si) => {
            out.append("Session: ");
            append_opt_or(out, &si.name, "-");
            out.append(" (");
            out.append(si.id.as_str());
            out.append(")\n");
            match &si.mode {
                Some(m) => {
                    out.append("Mode: ");
                    out.append(m.as_str());
                    out.append("\n");
                },
                None => (),
            }
            match &si.focus_task_id {
                Some(f) => {
                    out.append("Focus: ");
                    out.append(f.as_str());
                    out.append("\n");
                },
                None => (),
            }
            out.append("\n");
            proof {
                assert(out@ =~= start + spec_session_section(s.deep_view()));
            }
        },
    }
}

#[verifier::rlimit(100)]
fn append_state_section(out: &mut String, st: &WorkState)
    ensures
        final(out)@ == old(out)@ + spec_state_section(*st),
{
    let ghost start = out@;
    out.append("State of Work:\n");
    out.append("  Total tasks: ");
    out.append(u64_to_string(st.total_tasks).as_str());
    out.append("\n");
    out.append("  By status: ");
    out.append(u64_to_string(st.by_status.todo).as_str());
    out.append(" todo, ");
    out.append(u64_to_string(st.by_status.in_progress).as_str());
    out.append(" in progress, ");
    out.append(u64_to_string(st.by_status.done).as_str());
    out.append(" done, ");
    out.append(u64_to_string(st.by_status.blocked).as_str());
    out.append(" blocked\n");
    let ghost mid = out@;
    out.append("  By priority: ");
    out.append(u64_to_string(st.by_priority.p0).as_str());
    out.append(" P0, ");
    out.append(u64_to_string(st.by_priority.p1).as_str());
    out.append(" P1, ");
    out.append(u64_to_string(st.by_priority.p2).as_str());
    out.append(" P2, ");
    out.append(u64_to_string(st.by_priority.p3).as_str());
    out.append(" P3, ");
    out.append(u64_to_string(st.by_priority.p4).as_str());
    out.append(" P4\n");
    out.append("\n");
    proof {
        assert(out@ =~= start + spec_state_section(*st));
    }
}

#[verifier::rlimit(100)]
fn append_focus_section(out: &mut String, t: &Option<TaskSummary>)
    ensures
        final(out)@ == old(out)@ + spec_focus_section(t.deep_view()),
{
    let ghost start = out@;
    match t {
        None => {
            proof {
                assert(out@ =~= start + spec_focus_section(t.deep_view()));
            }
        },
        Some(f) => {
            out.append("Focus Task:\n");
            out.append("  ");
            out.append(f.title.as_str());
            out.append(" (");
            out.append(f.id.as_str());
            out.append(")\n");
            out.append("  Status: ");
            out.append(f.status.as_str());
            out.append(" | Priority: ");
            out.append(f.priority.as_str());
            out.append("\n");
            match &f.description {
                Some(d) => {
                    out.append("  ");
                    out.append(d.as_str());
                    out.append("\n");
                },
                None => (),
            }
            out.append("\n");
            proof {
                assert(out@ =~= start + spec_focus_section(t.deep_view()));
            }
        },
    }
}

fn append_blocker_item(out: &mut String, t: &TaskSummary)
    ensures
        final(out)@ == old(out)@ + spec_blocker_item(t@),
{
    let ghost start = out@;
    out.append("  - ");
    out.append(t.title.as_str());
    out.append(" (");
    out.append(t.id.as_str());
    out.append(")");
    match &t.blocked_reason {
        Some(r) => {
            out.append(": ");
            out.append(r.as_str());
        },
        None => (),
    }
    out.append("\n");
    proof {
        assert(out@ =~= start + spec_blocker_item(t@));
    }
}

fn append_blockers_section(out: &mut String, ts: &Vec<TaskSummary>)
    ensures
        final(out)@ == old(out)@ + spec_blockers_section(ts.deep_view()),
{
    let ghost start = out@;
    if ts.len() == 0 {
        proof {
            assert(out@ =~= start + spec_blockers_section(ts.deep_view()));
        }
        return ;
    }
    out.append("Blockers (");
    out.append(u64_to_string(ts.len() as u64).as_str());
    out.append("):\n");
    let ghost header = out@;
    let mut i: usize = 0;
    proof {
        assert(ts.deep_view().take(0) =~= Seq::<TaskSummaryView>::empty());
        assert(out@ =~= header + spec_blocker_items(ts.deep_view().take(0)));
    }
    while i < ts.len()
        invariant
            i <= ts@.len(),
            ts.deep_view().len() == ts@.len(),
            out@ == header + spec_blocker_items(ts.deep_view().take(i as int)),
        decreases ts@.len() - i,
    {
        append_blocker_item(out, &ts[i]);
        proof {
            assert(ts.deep_view().take(i + 1).drop_last() =~= ts.deep_view().take(i as int));
            assert(ts.deep_view().take(i + 1).last() == ts.deep_view()[i as int]);
            assert(out@ =~= header + spec_blocker_items(ts.deep_view().take(i + 1)));
        }
        i = i + 1;
    }
    out.append("\n");
    proof {
        assert(ts.deep_view().take(ts@.len() as int) =~= ts.deep_view());
        assert(out@ =~= start + spec_blockers_section(ts.deep_view()));
    }
}

fn append_next_item(out: &mut String, t: &TaskSummary)
    ensures
        final(out)@ == old(out)@ + spec_next_item(t@),
{
    let ghost start = out@;
    out.append("  - [");
    out.append(t.priority.as_str());
    out.append("] ");
    out.append(t.title.as_str());
    out.append(" (");
    out.append(t.id.as_str());
    out.append(")\n");
    proof {
        assert(out@ =~= start + spec_next_item(t@));
    }
}

fn append_next_section(out: &mut String, ts: &Vec<TaskSummary>)
    ensures
        final(out)@ == old(out)@ + spec_next_section(ts.deep_view()),
{
    let ghost start = out@;
    if ts.len() == 0 {
        proof {
            assert(out@ =~= start + spec_next_section(ts.deep_view()));
        }
        return ;
    }
    out.append("Next Actions:\n");
    let ghost header = out@;
    let mut i: usize = 0;
    proof {
        assert(ts.deep_view().take(0) =~= Seq::<TaskSummaryView>::empty());
        assert(out@ =~= header + spec_next_items(ts.deep_view().take(0)));
    }
    while i < ts.len()
        invariant
            i <= ts@.len(),
            ts.deep_view().len() == ts@.len(),
            out@ == header + spec_next_items(ts.deep_view().take(i as int)),
        decreases ts@.len() - i,
    {
        append_next_item(out, &ts[i]);
        proof {
            assert(ts.deep_view().take(i + 1).drop_last() =~= ts.deep_view().take(i as int));
            assert(ts.deep_view().take(i + 1).last() == ts.deep_view()[i as int]);
            assert(out@ =~= header + spec_next_items(ts.deep_view().take(i + 1)));
        }
        i = i + 1;
    }
    out.append("\n");
    proof {
        assert(ts.deep_view().take(ts@.len() as int) =~= ts.deep_view());
        assert(out@ =~= start + spec_next_section(ts.deep_view()));
    }
}

fn append_decision_item(out: &mut String, c: &CommentSummary)
    ensures
        final(out)@ == old(out)@ + spec_decision_item(c@),
{
    let ghost start = out@;
    out.append("  - ");
    append_opt_or(out, &c.author, "unknown");
    out.append(": ");
    out.append(c.content.as_str());
    out.append("\n");
    proof {
        assert(out@ =~= start + spec_decision_item(c@));
    }
}

fn append_decisions_section(out: &mut String, cs: &Vec<CommentSummary>)
    ensures
        final(out)@ == old(out)@ + spec_decisions_section(cs.deep_view()),
{
    let ghost start = out@;
    if cs.len() == 0 {
        proof {
            assert(out@ =~= start + spec_decisions_section(cs.deep_view()));
        }
        return ;
    }
    out.append("Recent Decisions:\n");
    let ghost header = out@;
    let mut i: usize = 0;
    proof {
        assert(cs.deep_view().take(0) =~= Seq::<CommentSummaryView>::empty());
        assert(out@ =~= header + spec_decision_items(cs.deep_view().take(0)));
    }
    while i < cs.len()
        invariant
            i <= cs@.len(),
            cs.deep_view().len() == cs@.len(),
            out@ == header + spec_decision_items(cs.deep_view().take(i as int)),
        decreases cs@.len() - i,
    {
        append_decision_item(out, &cs[i]);
        proof {
            assert(cs.deep_view().take(i + 1).drop_last() =~= cs.deep_view().take(i as int));
            assert(cs.deep_view().take(i + 1).last() == cs.deep_view()[i as int]);
            assert(out@ =~= header + spec_decision_items(cs.deep_view().take(i + 1)));
        }
        i = i + 1;
    }
    out.append("\n");
    proof {
        assert(cs.deep_view().take(cs@.len() as int) =~= cs.deep_view());
        assert(out@ =~= start + spec_decisions_section(cs.deep_view()));
    }
}

/// Render the summary as a table; the exact text is given by
/// [`spec_format_summary`].
pub fn format_summary_table(summary: &SummaryOutput) -> (s: String)
    ensures
        s@ == spec_format_summary(summary@),
{
    let mut out = String::new();
    out.append("=== Summary ===\n\n");
    let ghost s0 = out@;
    append_session_section(&mut out, &summary.session);
    let ghost s1 = out@;
    append_state_section(&mut out, &summary.state);
    let ghost s2 = out@;
    append_focus_section(&mut out, &summary.focus_task);
    let ghost s3 = out@;
    append_blockers_section(&mut out, &summary.blockers);
    let ghost s4 = out@;
    append_next_section(&mut out, &summary.next_actions);
    let ghost s5 = out@;
    append_decisions_section(&mut out, &summary.recent_decisions);
    proof {
        assert(out@ =~= spec_format_summary(summary@));
    }
    out
}

} // verus!
