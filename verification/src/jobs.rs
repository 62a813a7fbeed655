//! What is shown of a daemon's start once it is known how it went.
use vstd::prelude::*;

use crate::daemon::{DaemonId, IdView};
use crate::start::{RunResult, RunResultView};
use crate::start;
use crate::text;
use crate::text::{join, number_text, signed_number_text};

verus! {

/// What becomes of the line that shows a daemon's start, or what is logged
/// where there is no such line.
#[derive(Debug)]
pub enum JobUpdate {
    /// The line gets this text, and a mark for success.
    Done(String),
    /// The line gets this text, and a mark for failure.
    Failed(String),
    /// The line goes.
    Remove,
    /// The message is logged where there is one, and the daemon's output is shown.
    ShowLogs(Option<String>),
    /// The message is logged.
    LogError(String),
    Nothing,
}

pub enum JobUpdateView {
    Done(Seq<char>),
    Failed(Seq<char>),
    Remove,
    ShowLogs(Option<Seq<char>>),
    LogError(Seq<char>),
    Nothing,
}

impl View for JobUpdate {
    type V = JobUpdateView;

    open spec fn view(&self) -> JobUpdateView {
        match self {
            JobUpdate::Done(s) => JobUpdateView::Done(s@),
            JobUpdate::Failed(s) => JobUpdateView::Failed(s@),
            JobUpdate::Remove => JobUpdateView::Remove,
            JobUpdate::ShowLogs(s) => JobUpdateView::ShowLogs(text::opt_view(*s)),
            JobUpdate::LogError(s) => JobUpdateView::LogError(s@),
            JobUpdate::Nothing => JobUpdateView::Nothing,
        }
    }
}

/// The ports in one text.
pub open spec fn ports_text_of(ports: Seq<u16>) -> Seq<char> {
    text::joined(ports.map_values(|p: u16| text::decimal(p as nat)), ", "@)
}

/// The ports in one text.
pub fn ports_text(ports: &Vec<u16>) -> (r: String)
    ensures
        r@ == ports_text_of(ports@),
{
    let ghost all = ports@.map_values(|p: u16| text::decimal(p as nat));
    let mut parts: Vec<String> = Vec::new();
    let mut i: usize = 0;
    while i < ports.len()
        invariant
            i <= ports@.len(),
            all == ports@.map_values(|p: u16| text::decimal(p as nat)),
            text::views(parts@) == all.take(i as int),
        decreases ports@.len() - i,
    {
        let part = number_text(ports[i] as u64);
        proof {
            assert(part@ == all[i as int]);
            assert(text::views(parts@.push(part)) =~= text::views(parts@).push(part@));
            assert(all.take(i + 1) =~= all.take(i as int).push(part@));
        }
        parts.push(part);
        i += 1;
    }
    assert(all.take(i as int) =~= all);
    join(&parts, ", ")
}

/// What the line begins with: the time where times are shown, else the place
/// of the spinner.
pub open spec fn line_prefix(timestamp: Option<Seq<char>>) -> Seq<char> {
    match timestamp {
        Some(time) => time,
        None => "{{spinner()}}"@,
    }
}

/// The line of a daemon that was started.
pub open spec fn started_line(head: Seq<char>, ports: Seq<u16>, styled_ports: Seq<char>) -> Seq<
    char,
> {
    if ports.len() == 0 {
        head + " started"@
    } else {
        let label = if ports.len() == 1 {
            "port"@
        } else {
            "ports"@
        };
        head + " started on "@ + label + " "@ + styled_ports
    }
}

/// The line of a daemon that ended or could not be run.
pub open spec fn failed_line(head: Seq<char>, r: RunResultView) -> Seq<char> {
    let exit_info = match r.exit_code {
        Some(code) => " (exit code "@ + text::signed_decimal(code as int) + ")"@,
        None => Seq::empty(),
    };
    let detail = match r.error_message {
        Some(msg) => ": "@ + msg,
        None => Seq::empty(),
    };
    head + " failed"@ + exit_info + detail
}

/// What becomes of the line, or what is logged without one.
pub open spec fn job_update(
    has_job: bool,
    id: IdView,
    result: Result<RunResultView, Seq<char>>,
    timestamp: Option<Seq<char>>,
    id_label: Seq<char>,
    styled_ports: Seq<char>,
) -> JobUpdateView {
    let head = line_prefix(timestamp) + " "@ + id_label;
    match (has_job, result) {
        (true, Ok(r)) => if r.started {
            JobUpdateView::Done(started_line(head, r.resolved_ports, styled_ports))
        } else if r.exit_code is None {
            JobUpdateView::Remove
        } else {
            JobUpdateView::Failed(failed_line(head, r))
        },
        (true, Err(e)) => JobUpdateView::Failed(head + " failed: "@ + e),
        (false, Ok(r)) => if !r.started && r.exit_code is Some {
            JobUpdateView::ShowLogs(r.error_message)
        } else {
            JobUpdateView::Nothing
        },
        (false, Err(e)) => JobUpdateView::LogError(
            "Failed to start daemon "@ + id.qualified() + ": "@ + e,
        ),
    }
}

/// Says what becomes of the line that shows a daemon's start, or what is
/// logged where there is none. The name and the ports come as they are shown,
/// the ports from [`ports_text`].
pub fn update_job_with_result(
    has_job: bool,
    id: &DaemonId,
    result: &Result<RunResult, String>,
    timestamp: &Option<String>,
    id_label: &str,
    styled_ports: &str,
) -> (r: JobUpdate)
    ensures
        r@ == job_update(
            has_job,
            id@,
            start::result_view(*result),
            text::opt_view(*timestamp),
            id_label@,
            styled_ports@,
        ),
{
    if !has_job {
        return match result {
            Ok(r) => if !r.started && r.exit_code.is_some() {
                JobUpdate::ShowLogs(text::clone_opt(&r.error_message))
            } else {
                JobUpdate::Nothing
            },
            Err(e) => {
                let mut msg = "Failed to start daemon ".to_owned();
                msg.append(id.qualified().as_str());
                msg.append(": ");
                msg.append(e.as_str());
                JobUpdate::LogError(msg)
            },
        };
    }
    let mut line = match timestamp {
        Some(time) => time.clone(),
        None => "{{spinner()}}".to_owned(),
    };
    line.append(" ");
    line.append(id_label);
    match result {
        Ok(r) => {
            if r.started {
                if r.resolved_ports.len() == 0 {
                    line.append(" started");
                } else {
                    line.append(" started on ");
                    line.append(
                        if r.resolved_ports.len() == 1 {
                            "port"
                        } else {
                            "ports"
                        },
                    );
                    line.append(" ");
                    line.append(styled_ports);
                }
                JobUpdate::Done(line)
            } else {
                match r.exit_code {
                    None => JobUpdate::Remove,
                    Some(code) => {
                        let ghost head = line@;
                        line.append(" failed");
                        line.append(" (exit code ");
                        line.append(signed_number_text(code).as_str());
                        line.append(")");
                        match &r.error_message {
                            Some(msg) => {
                                line.append(": ");
                                line.append(msg.as_str());
                            },
                            None => {},
                        }
                        assert(line@ =~= failed_line(head, r@));
                        JobUpdate::Failed(line)
                    },
                }
            }
        },
        Err(e) => {
            line.append(" failed: ");
            line.append(e.as_str());
            JobUpdate::Failed(line)
        },
    }
}

/// A line stays exactly if the daemon was started, ended, or could not be
/// asked for, and it shows success exactly if the daemon was started.
pub proof fn law_line_shows_what_happened(
    id: IdView,
    result: Result<RunResultView, Seq<char>>,
    timestamp: Option<Seq<char>>,
    id_label: Seq<char>,
    styled_ports: Seq<char>,
)
    ensures
        ({
            let update = job_update(true, id, result, timestamp, id_label, styled_ports);
            &&& update is Done <==> result is Ok && result->Ok_0.started
            &&& update is Remove <==> result is Ok && !result->Ok_0.started
                && result->Ok_0.exit_code is None
            &&& update is Failed <==> start::has_failed(result)
        }),
{
}

/// What a line says: it begins with the time, or the place of the spinner, and
/// the daemon's name. That of a daemon that was started names its ports, that
/// of one that ended its exit code and what went wrong, and that of one that
/// could not be asked for the error.
pub proof fn law_lines_say_what_happened(
    id: IdView,
    result: Result<RunResultView, Seq<char>>,
    timestamp: Option<Seq<char>>,
    id_label: Seq<char>,
    styled_ports: Seq<char>,
)
    ensures
        ({
            let update = job_update(true, id, result, timestamp, id_label, styled_ports);
            let time = if timestamp is Some {
                timestamp->0
            } else {
                "{{spinner()}}"@
            };
            let head = time + " "@ + id_label;
            let r = result->Ok_0;
            &&& result is Ok && r.started && r.resolved_ports.len() == 0 ==> update
                == JobUpdateView::Done(head + " started"@)
            &&& result is Ok && r.started && r.resolved_ports.len() == 1 ==> update
                == JobUpdateView::Done(head + " started on "@ + "port"@ + " "@ + styled_ports)
            &&& result is Ok && r.started && r.resolved_ports.len() > 1 ==> update
                == JobUpdateView::Done(head + " started on "@ + "ports"@ + " "@ + styled_ports)
            &&& result is Ok && !r.started && r.exit_code is Some && r.error_message is Some
                ==> update == JobUpdateView::Failed(
                head + " failed"@ + (" (exit code "@ + text::signed_decimal(r.exit_code->0 as int)
                    + ")"@) + (": "@ + r.error_message->0),
            )
            &&& result is Ok && !r.started && r.exit_code is Some && r.error_message is None
                ==> update == JobUpdateView::Failed(
                head + " failed"@ + (" (exit code "@ + text::signed_decimal(r.exit_code->0 as int)
                    + ")"@),
            )
            &&& result is Ok && !r.started && r.exit_code is None ==> update
                == JobUpdateView::Remove
            &&& result matches Err(e) ==> update == JobUpdateView::Failed(head + " failed: "@ + e)
        }),
{
    if let Ok(r) = result {
        if !r.started && r.exit_code is Some && r.error_message is None {
            let head = line_prefix(timestamp) + " "@ + id_label;
            let exit = " (exit code "@ + text::signed_decimal(r.exit_code->0 as int) + ")"@;
            assert(head + " failed"@ + exit + Seq::<char>::empty() =~= head + " failed"@ + exit);
        }
    }
}

/// Without a line, an error is logged with the daemon's name, the output of a
/// daemon that ended is shown with what went wrong, and else nothing is said.
pub proof fn law_failures_are_told_without_a_line(
    id: IdView,
    result: Result<RunResultView, Seq<char>>,
    timestamp: Option<Seq<char>>,
    id_label: Seq<char>,
    styled_ports: Seq<char>,
)
    ensures
        ({
            let update = job_update(false, id, result, timestamp, id_label, styled_ports);
            let r = result->Ok_0;
            &&& result matches Err(e) ==> update == JobUpdateView::LogError(
                "Failed to start daemon "@ + (id.namespace + "/"@ + id.name) + ": "@ + e,
            )
            &&& result is Ok && !r.started && r.exit_code is Some ==> update
                == JobUpdateView::ShowLogs(r.error_message)
            &&& result is Ok && (r.started || r.exit_code is None) ==> update
                == JobUpdateView::Nothing
        }),
{
}

/// The ports in their order, with a comma between each two.
pub proof fn law_all_ports_are_named(a: Seq<u16>, b: Seq<u16>, p: u16)
    ensures
        ports_text_of(seq![p]) == text::decimal(p as nat),
        a.len() > 0 && b.len() > 0 ==> ports_text_of(a + b) == ports_text_of(a) + ", "@
            + ports_text_of(b),
{
    let f = |p: u16| text::decimal(p as nat);
    assert(seq![p].map_values(f) =~= seq![text::decimal(p as nat)]);
    assert((a + b).map_values(f) =~= a.map_values(f) + b.map_values(f));
    text::law_joining_goes_part_by_part(
        a.map_values(f),
        b.map_values(f),
        text::decimal(p as nat),
        ", "@,
    );
}

/// What becomes of a line is seen as it is.
pub proof fn law_updates_are_seen_as_they_are(u: JobUpdate)
    ensures
        u matches JobUpdate::Done(s) ==> u@ == JobUpdateView::Done(s@),
        u matches JobUpdate::Failed(s) ==> u@ == JobUpdateView::Failed(s@),
        u is Remove ==> u@ == JobUpdateView::Remove,
        u matches JobUpdate::ShowLogs(s) ==> (u@ matches JobUpdateView::ShowLogs(t) && (s is Some
            <==> t is Some) && (s is Some ==> t->0 == s->0@)),
        u matches JobUpdate::LogError(s) ==> u@ == JobUpdateView::LogError(s@),
        u is Nothing ==> u@ == JobUpdateView::Nothing,
{
}

} // verus!
