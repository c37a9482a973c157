//! The dispatcher's decisions: what each command does, as a list of actions
//! that the runtime carries out in order.

use vstd::prelude::*;
use crate::model::{clone_opt, DownloadStatus, EngineCommand, JobControl};
use crate::text::str_eq;

verus! {

/// One step of carrying out a command.
#[derive(Debug)]
pub enum EngineAction {
    /// Store a new queued download.
    InsertDownload {
        id: String,
        url: String,
        dest_dir: String,
        forced_proxy: bool,
        forced_proxy_url: Option<String>,
    },
    AttachToBatch { id: String, batch_id: String },
    /// Send a control signal to the running job.
    Signal { id: String, control: JobControl },
    SetStatus { id: String, status: DownloadStatus },
    RemoveTempFile { id: String },
    RemoveFinalFile { id: String },
    ResetForRetry { id: String },
    DeleteDownload { id: String },
    /// Start the job unless it is already running.
    Start { id: String },
    SetBandwidthLimit { bps: i64 },
    NotifyChanged,
}

pub open spec fn is_active(active: Seq<String>, id: String) -> bool {
    exists|i: int| 0 <= i < active.len() && #[trigger] active[i]@ == id@
}

/// The actions that add one URL.
pub open spec fn add_one(
    id: String,
    url: String,
    dest_dir: String,
    batch_id: Option<String>,
    forced_proxy: bool,
    forced_proxy_url: Option<String>,
) -> Seq<EngineAction> {
    let insert = seq![
        EngineAction::InsertDownload { id, url, dest_dir, forced_proxy, forced_proxy_url },
    ];
    let attach = match batch_id {
        Some(b) => seq![EngineAction::AttachToBatch { id, batch_id: b }],
        None => seq![],
    };
    insert + attach + seq![
        EngineAction::SetStatus { id, status: DownloadStatus::Queued },
        EngineAction::Start { id },
    ]
}

/// The actions that add the first `n` URLs.
pub open spec fn add_all(
    ids: Seq<String>,
    urls: Seq<String>,
    dest_dir: String,
    batch_id: Option<String>,
    forced_proxy: bool,
    forced_proxy_url: Option<String>,
    n: int,
) -> Seq<EngineAction>
    decreases n,
{
    if n <= 0 {
        seq![]
    } else {
        add_all(ids, urls, dest_dir, batch_id, forced_proxy, forced_proxy_url, n - 1) + add_one(
            ids[n - 1],
            urls[n - 1],
            dest_dir,
            batch_id,
            forced_proxy,
            forced_proxy_url,
        )
    }
}

/// A signal to the job, where one is running.
pub open spec fn signal_if_active(active: Seq<String>, id: String, control: JobControl) -> Seq<EngineAction> {
    if is_active(active, id) {
        seq![EngineAction::Signal { id, control }]
    } else {
        seq![]
    }
}

/// Pause signals for every running job.
pub open spec fn pause_all(active: Seq<String>) -> Seq<EngineAction>
    decreases active.len(),
{
    if active.len() == 0 {
        seq![]
    } else {
        pause_all(active.drop_last()) + seq![
            EngineAction::Signal { id: active.last(), control: JobControl::Pause },
        ]
    }
}

/// Starts for every paused or queued download, in the order listed.
pub open spec fn resume_all(listed: Seq<(String, DownloadStatus)>) -> Seq<EngineAction>
    decreases listed.len(),
{
    if listed.len() == 0 {
        seq![]
    } else {
        let p = listed.last();
        let tail = if p.1 == DownloadStatus::Paused || p.1 == DownloadStatus::Queued {
            seq![EngineAction::Start { id: p.0 }]
        } else {
            seq![]
        };
        resume_all(listed.drop_last()) + tail
    }
}

/// What a command does. `new_ids` are the ids given to added URLs, `active`
/// the ids of running jobs, `listed` every stored download with its status.
pub open spec fn command_plan(
    cmd: EngineCommand,
    new_ids: Seq<String>,
    active: Seq<String>,
    listed: Seq<(String, DownloadStatus)>,
) -> Seq<EngineAction> {
    match cmd {
        EngineCommand::AddDownloads { urls, dest_dir, batch_id, forced_proxy, forced_proxy_url } => add_all(
            new_ids,
            urls@,
            dest_dir,
            batch_id,
            forced_proxy,
            forced_proxy_url,
            urls@.len() as int,
        ) + seq![EngineAction::NotifyChanged],
        EngineCommand::Pause { id } => signal_if_active(active, id, JobControl::Pause) + seq![
            EngineAction::SetStatus { id, status: DownloadStatus::Paused },
            EngineAction::NotifyChanged,
        ],
        EngineCommand::Resume { id } => seq![
            EngineAction::SetStatus { id, status: DownloadStatus::Queued },
            EngineAction::Start { id },
            EngineAction::NotifyChanged,
        ],
        EngineCommand::Retry { id } => signal_if_active(active, id, JobControl::Cancel) + seq![
            EngineAction::RemoveTempFile { id },
            EngineAction::ResetForRetry { id },
            EngineAction::Start { id },
            EngineAction::NotifyChanged,
        ],
        EngineCommand::Delete { id } => signal_if_active(active, id, JobControl::Cancel) + seq![
            EngineAction::RemoveTempFile { id },
            EngineAction::RemoveFinalFile { id },
            EngineAction::DeleteDownload { id },
            EngineAction::NotifyChanged,
        ],
        EngineCommand::PauseAll => pause_all(active),
        EngineCommand::ResumeAll => resume_all(listed),
        EngineCommand::UpdateSettings { bandwidth_limit_bps } => seq![
            EngineAction::SetBandwidthLimit {
                bps: match bandwidth_limit_bps {
                    Some(b) => b,
                    None => 0,
                },
            },
        ],
    }
}

fn copy_string(s: &String) -> (r: String)
    ensures
        r == *s,
{
    s.clone()
}

/// Whether `id` is among the running jobs.
pub fn job_is_active(active: &Vec<String>, id: &String) -> (r: bool)
    ensures
        r == is_active(active@, *id),
{
    let mut i: usize = 0;
    while i < active.len()
        invariant
            i <= active@.len(),
            forall|k: int| 0 <= k < i ==> #[trigger] active@[k]@ != id@,
        decreases active@.len() - i,
    {
        if str_eq(active[i].as_str(), id.as_str()) {
            return true;
        }
        i += 1;
    }
    false
}

/// Whether a job is started for `id`: not when one is already running.
pub fn should_start(active: &Vec<String>, id: &String) -> (r: bool)
    ensures
        r == !is_active(active@, *id),
{
    !job_is_active(active, id)
}

fn push_signal_if_active(out: &mut Vec<EngineAction>, active: &Vec<String>, id: &String, control: JobControl)
    ensures
        final(out)@ == old(out)@ + signal_if_active(active@, *id, control),
{
    let ghost before = out@;
    if job_is_active(active, id) {
        out.push(EngineAction::Signal { id: copy_string(id), control });
        assert(out@ =~= before + signal_if_active(active@, *id, control));
    } else {
        assert(out@ =~= before + signal_if_active(active@, *id, control));
    }
}

/// What `cmd` does; see `command_plan`. Each added URL takes the id at its
/// position in `new_ids`.
pub fn plan_command(
    cmd: EngineCommand,
    new_ids: &Vec<String>,
    active: &Vec<String>,
    listed: &Vec<(String, DownloadStatus)>,
) -> (r: Vec<EngineAction>)
    requires
        cmd matches EngineCommand::AddDownloads { urls, .. } ==> new_ids@.len() >= urls@.len(),
    ensures
        r@ == command_plan(cmd, new_ids@, active@, listed@),
{
    let ghost c = cmd;
    let mut out: Vec<EngineAction> = Vec::new();
    match cmd {
        EngineCommand::AddDownloads { urls, dest_dir, batch_id, forced_proxy, forced_proxy_url } => {
            let mut i: usize = 0;
            while i < urls.len()
                invariant
                    i <= urls@.len(),
                    urls@.len() <= new_ids@.len(),
                    out@ == add_all(new_ids@, urls@, dest_dir, batch_id, forced_proxy, forced_proxy_url, i as int),
                decreases urls@.len() - i,
            {
                let ghost before = out@;
                let id = &new_ids[i];
                out.push(EngineAction::InsertDownload {
                    id: copy_string(id),
                    url: copy_string(&urls[i]),
                    dest_dir: copy_string(&dest_dir),
                    forced_proxy,
                    forced_proxy_url: clone_opt(&forced_proxy_url),
                });
                match &batch_id {
                    Some(b) => {
                        out.push(EngineAction::AttachToBatch { id: copy_string(id), batch_id: copy_string(b) });
                    },
                    None => {},
                }
                out.push(EngineAction::SetStatus { id: copy_string(id), status: DownloadStatus::Queued });
                out.push(EngineAction::Start { id: copy_string(id) });
                assert(out@ =~= before + add_one(new_ids@[i as int], urls@[i as int], dest_dir, batch_id, forced_proxy, forced_proxy_url));
                i += 1;
            }
            let ghost before = out@;
            out.push(EngineAction::NotifyChanged);
            assert(out@ =~= before + seq![EngineAction::NotifyChanged]);
        },
        EngineCommand::Pause { id } => {
            push_signal_if_active(&mut out, active, &id, JobControl::Pause);
            let ghost before = out@;
            out.push(EngineAction::SetStatus { id: copy_string(&id), status: DownloadStatus::Paused });
            out.push(EngineAction::NotifyChanged);
            assert(out@ =~= command_plan(c, new_ids@, active@, listed@));
        },
        EngineCommand::Resume { id } => {
            out.push(EngineAction::SetStatus { id: copy_string(&id), status: DownloadStatus::Queued });
            out.push(EngineAction::Start { id: copy_string(&id) });
            out.push(EngineAction::NotifyChanged);
            assert(out@ =~= command_plan(c, new_ids@, active@, listed@));
        },
        EngineCommand::Retry { id } => {
            push_signal_if_active(&mut out, active, &id, JobControl::Cancel);
            out.push(EngineAction::RemoveTempFile { id: copy_string(&id) });
            out.push(EngineAction::ResetForRetry { id: copy_string(&id) });
            out.push(EngineAction::Start { id: copy_string(&id) });
            out.push(EngineAction::NotifyChanged);
            assert(out@ =~= command_plan(c, new_ids@, active@, listed@));
        },
        EngineCommand::Delete { id } => {
            push_signal_if_active(&mut out, active, &id, JobControl::Cancel);
            out.push(EngineAction::RemoveTempFile { id: copy_string(&id) });
            out.push(EngineAction::RemoveFinalFile { id: copy_string(&id) });
            out.push(EngineAction::DeleteDownload { id: copy_string(&id) });
            out.push(EngineAction::NotifyChanged);
            assert(out@ =~= command_plan(c, new_ids@, active@, listed@));
        },
        EngineCommand::PauseAll => {
            let mut i: usize = 0;
            while i < active.len()
                invariant
                    i <= active@.len(),
                    out@ == pause_all(active@.subrange(0, i as int)),
                decreases active@.len() - i,
            {
                assert(active@.subrange(0, i + 1).drop_last() =~= active@.subrange(0, i as int));
                out.push(EngineAction::Signal { id: copy_string(&active[i]), control: JobControl::Pause });
                i += 1;
            }
            assert(active@.subrange(0, active@.len() as int) =~= active@);
        },
        EngineCommand::ResumeAll => {
            let mut i: usize = 0;
            while i < listed.len()
                invariant
                    i <= listed@.len(),
                    out@ == resume_all(listed@.subrange(0, i as int)),
                decreases listed@.len() - i,
            {
                assert(listed@.subrange(0, i + 1).drop_last() =~= listed@.subrange(0, i as int));
                let st = listed[i].1;
                if st == DownloadStatus::Paused || st == DownloadStatus::Queued {
                    out.push(EngineAction::Start { id: copy_string(&listed[i].0) });
                } else {
                    assert(out@ =~= out@ + Seq::<EngineAction>::empty());
                }
                i += 1;
            }
            assert(listed@.subrange(0, listed@.len() as int) =~= listed@);
        },
        EngineCommand::UpdateSettings { bandwidth_limit_bps } => {
            let bps = match bandwidth_limit_bps {
                Some(b) => b,
                None => 0,
            };
            out.push(EngineAction::SetBandwidthLimit { bps });
            assert(out@ =~= command_plan(c, new_ids@, active@, listed@));
        },
    }
    out
}

} // verus!
