//! The OTA update and rollback engine: a state machine over the
//! firmware slot, an in-memory in-progress guard and a persisted job id.
//! Every decision is made here; the surrounding shell performs the
//! returned actions in order (HTTP reads, flash writes, persistence,
//! status publication, reset) and abandons the rest of an action list on
//! an I/O failure. The persisted job id is the single source of truth
//! that survives a reset between "image written" and "validated".

use vstd::prelude::*;

verus! {

/// How long the background validation waits before it checks the
/// outbound channel's connectivity. A configuration choice, not an
/// attested duration: long enough for the channel to reconnect after
/// the reboot, short enough to roll a broken image back promptly.
pub const OTA_ROLLBACK_CHECK_DURATION_MS: u64 = 10000;

/// The grace period between reporting a completed download and the
/// hard reset into the new slot.
pub const OTA_REBOOT_GRACE_MS: u64 = 10000;

/// The reported status of an OTA attempt.
#[derive(Clone, Copy, Debug, PartialEq, Eq, Structural)]
pub enum OtaSatus {
    InProgress,
    Success,
    Failed,
    Rejected,
}

impl OtaSatus {
    /// The wire label of this status in the outbound
    /// `{ota_job_id, status, additional_info}` report.
    pub fn describe(&self) -> (r: &'static str)
        ensures
            *self is InProgress ==> r@ == "in-progress"@,
            *self is Success ==> r@ == "success"@,
            *self is Failed ==> r@ == "failed"@,
            *self is Rejected ==> r@ == "rejected"@,
    {
        match self {
            OtaSatus::InProgress => "in-progress",
            OtaSatus::Success => "success",
            OtaSatus::Failed => "failed",
            OtaSatus::Rejected => "rejected",
        }
    }
}

/// The firmware slot marker, owned by the underlying update mechanism:
/// read-only to this engine except for the explicit valid/invalid
/// transitions it requests.
#[derive(Clone, Copy, Debug, PartialEq, Eq, Structural)]
pub enum SlotState {
    Valid,
    Invalid,
    Unverified,
    Unknown,
}

/// One outbound OTA status report: `{ota_job_id, status,
/// additional_info}`.
#[derive(Clone, Debug, PartialEq)]
pub struct OtaStatusReport {
    pub ota_job_id: String,
    pub status: OtaSatus,
    pub additional_info: String,
}

/// Mathematical image of an `OtaStatusReport`.
pub struct OtaStatusReportView {
    pub ota_job_id: Seq<char>,
    pub status: OtaSatus,
    pub additional_info: Seq<char>,
}

impl View for OtaStatusReport {
    type V = OtaStatusReportView;

    open spec fn view(&self) -> OtaStatusReportView {
        OtaStatusReportView {
            ota_job_id: self.ota_job_id@,
            status: self.status,
            additional_info: self.additional_info@,
        }
    }
}

/// One action the engine asks the surrounding shell to perform.
#[derive(Clone, Debug, PartialEq)]
pub enum OtaAction {
    /// Publish this status report on the OTA status topic.
    ReportStatus(OtaStatusReport),
    /// Open an HTTP stream for the firmware image at this URL.
    StartDownload { url: String },
    /// Write the chunk just read (of this many bytes) to the update
    /// target.
    WriteChunk { len: u64 },
    /// Complete the image write on the update target.
    FinalizeImage,
    /// Persist this job id under the OTA job key.
    PersistJobId { job_id: String },
    /// Remove the persisted OTA job key.
    ClearJobId,
    /// Ask the update mechanism to mark the running slot valid.
    MarkSlotValid,
    /// Ask the update mechanism to mark the running slot invalid and
    /// reset; the reset boots the previous slot, completing rollback.
    MarkSlotInvalidAndReset,
    /// Spawn the background validation task.
    ScheduleValidation,
    /// Wait out the grace period, then hard-reset into the new slot.
    Reboot,
}

/// Mathematical image of an `OtaAction`.
pub enum OtaActionView {
    ReportStatus(OtaStatusReportView),
    StartDownload { url: Seq<char> },
    WriteChunk { len: u64 },
    FinalizeImage,
    PersistJobId { job_id: Seq<char> },
    ClearJobId,
    MarkSlotValid,
    MarkSlotInvalidAndReset,
    ScheduleValidation,
    Reboot,
}

impl View for OtaAction {
    type V = OtaActionView;

    open spec fn view(&self) -> OtaActionView {
        match self {
            OtaAction::ReportStatus(r) => OtaActionView::ReportStatus(r@),
            OtaAction::StartDownload { url } => OtaActionView::StartDownload { url: url@ },
            OtaAction::WriteChunk { len } => OtaActionView::WriteChunk { len: *len },
            OtaAction::FinalizeImage => OtaActionView::FinalizeImage,
            OtaAction::PersistJobId { job_id } => OtaActionView::PersistJobId { job_id: job_id@ },
            OtaAction::ClearJobId => OtaActionView::ClearJobId,
            OtaAction::MarkSlotValid => OtaActionView::MarkSlotValid,
            OtaAction::MarkSlotInvalidAndReset => OtaActionView::MarkSlotInvalidAndReset,
            OtaAction::ScheduleValidation => OtaActionView::ScheduleValidation,
            OtaAction::Reboot => OtaActionView::Reboot,
        }
    }
}

/// Mathematical image of an action list.
pub open spec fn actions_view(s: Seq<OtaAction>) -> Seq<OtaActionView> {
    s.map_values(|a: OtaAction| a@)
}

/// Where one OTA attempt stands.
#[derive(Clone, Debug, PartialEq)]
pub enum OtaPhase {
    /// No attempt under way and no job id persisted.
    Idle,
    /// An attempt was accepted; the image stream is being opened.
    Starting { job_id: String },
    /// The image stream is open and chunks are being written.
    Downloading { job_id: String, image_len: u64, written: u64 },
    /// The image is written and the job id persisted; the device is
    /// about to reset into the new slot.
    AwaitingReboot { job_id: String },
    /// After a reboot into an unverified slot: background validation is
    /// pending.
    PendingValidation { job_id: String },
}

/// Mathematical image of an `OtaPhase`.
pub enum OtaPhaseView {
    Idle,
    Starting { job_id: Seq<char> },
    Downloading { job_id: Seq<char>, image_len: u64, written: u64 },
    AwaitingReboot { job_id: Seq<char> },
    PendingValidation { job_id: Seq<char> },
}

impl View for OtaPhase {
    type V = OtaPhaseView;

    open spec fn view(&self) -> OtaPhaseView {
        match self {
            OtaPhase::Idle => OtaPhaseView::Idle,
            OtaPhase::Starting { job_id } => OtaPhaseView::Starting { job_id: job_id@ },
            OtaPhase::Downloading { job_id, image_len, written } => (OtaPhaseView::Downloading {
                job_id: job_id@,
                image_len: *image_len,
                written: *written,
            }),
            OtaPhase::AwaitingReboot { job_id } => (OtaPhaseView::AwaitingReboot {
                job_id: job_id@,
            }),
            OtaPhase::PendingValidation { job_id } => (OtaPhaseView::PendingValidation {
                job_id: job_id@,
            }),
        }
    }
}

/// The OTA engine's state.
pub struct RmakerOta {
    node_id: String,
    ota_in_progress: bool,
    phase: OtaPhase,
}

/// Mathematical image of the engine's state.
pub struct RmakerOtaView {
    pub node_id: Seq<char>,
    pub ota_in_progress: bool,
    pub phase: OtaPhaseView,
}

impl View for RmakerOta {
    type V = RmakerOtaView;

    closed spec fn view(&self) -> RmakerOtaView {
        RmakerOtaView {
            node_id: self.node_id@,
            ota_in_progress: self.ota_in_progress,
            phase: self.phase@,
        }
    }
}

/// Well-formedness of the engine's state: while downloading, fewer
/// bytes are written than the image holds.
pub open spec fn ota_wf(st: RmakerOtaView) -> bool {
    st.phase matches OtaPhaseView::Downloading { image_len, written, .. } ==> written < image_len
}

/// Builds one outbound status report: the OTA status topic for this
/// node, and the `{ota_job_id, status, additional_info}` body.
pub fn report_status(node_id: &str, ota_job_id: &str, status: OtaSatus, additional_info: &str) -> (r:
    (String, OtaStatusReport))
    ensures
        r.0@ == "node/"@ + node_id@ + "/"@ + "otastatus"@,
        r.1@.ota_job_id == ota_job_id@,
        r.1@.status == status,
        r.1@.additional_info == additional_info@,
{
    let topic = crate::node_topic(node_id, "otastatus");
    let report = OtaStatusReport {
        ota_job_id: ota_job_id.to_owned(),
        status,
        additional_info: additional_info.to_owned(),
    };
    (topic, report)
}

impl RmakerOta {
    /// An idle engine for this node: nothing in flight.
    pub fn new(node_id: String) -> (r: RmakerOta)
        ensures
            r@.node_id == node_id@,
            !r@.ota_in_progress,
            r@.phase is Idle,
            ota_wf(r@),
    {
        RmakerOta { node_id, ota_in_progress: false, phase: OtaPhase::Idle }
    }

    /// The node id this engine reports under.
    pub fn node_id(&self) -> (r: &str)
        ensures
            r@ == self@.node_id,
    {
        self.node_id.as_str()
    }

    /// Whether an attempt is in flight or pending validation.
    pub fn in_progress(&self) -> (r: bool)
        ensures
            r == self@.ota_in_progress,
    {
        self.ota_in_progress
    }

    /// Accepts a "new firmware available" notification. While an
    /// attempt is already in flight this is a no-op: no state change, no
    /// second download, no duplicate status report. Otherwise the
    /// attempt begins: the in-progress guard is taken for the whole
    /// operation, an in-progress status is reported once, and the shell
    /// is asked to open the image stream.
    pub fn apply_ota(&mut self, ota_job_id: &str, url: &str) -> (r: Vec<OtaAction>)
        requires
            ota_wf(old(self)@),
        ensures
            ota_wf(final(self)@),
            final(self)@.node_id == old(self)@.node_id,
            old(self)@.ota_in_progress ==> final(self)@ == old(self)@ && r@.len() == 0,
            !old(self)@.ota_in_progress ==> {
                &&& final(self)@.ota_in_progress
                &&& final(self)@.phase == (OtaPhaseView::Starting { job_id: ota_job_id@ })
                &&& actions_view(r@) =~= seq![
                    OtaActionView::ReportStatus(
                        OtaStatusReportView {
                            ota_job_id: ota_job_id@,
                            status: OtaSatus::InProgress,
                            additional_info: "Starting OTA download"@,
                        },
                    ),
                    OtaActionView::StartDownload { url: url@ },
                ]
            },
    {
        if self.ota_in_progress {
            return Vec::new();
        }
        self.ota_in_progress = true;
        self.phase = OtaPhase::Starting { job_id: ota_job_id.to_owned() };
        let (_topic, report) = report_status(
            self.node_id.as_str(),
            ota_job_id,
            OtaSatus::InProgress,
            "Starting OTA download",
        );
        let mut r: Vec<OtaAction> = Vec::new();
        r.push(OtaAction::ReportStatus(report));
        r.push(OtaAction::StartDownload { url: url.to_owned() });
        r
    }

    /// Takes the advertised content length once the image stream is
    /// open. An image with no advertised length, or an empty one, is a
    /// fatal precondition for this attempt: the attempt is abandoned
    /// and the guard released. Otherwise the download begins at zero
    /// bytes written.
    pub fn on_download_started(&mut self, content_len: Option<u64>) -> (r: Vec<OtaAction>)
        requires
            ota_wf(old(self)@),
        ensures
            ota_wf(final(self)@),
            final(self)@.node_id == old(self)@.node_id,
            r@.len() == 0,
            !(old(self)@.phase is Starting) ==> final(self)@ == old(self)@,
            old(self)@.phase matches OtaPhaseView::Starting { job_id } ==> match content_len {
                Some(len) => {
                    if len > 0 {
                        final(self)@ == (RmakerOtaView {
                            phase: OtaPhaseView::Downloading { job_id, image_len: len, written: 0 },
                            ..old(self)@
                        })
                    } else {
                        final(self)@ == (RmakerOtaView {
                            ota_in_progress: false,
                            phase: OtaPhaseView::Idle,
                            ..old(self)@
                        })
                    }
                },
                None => final(self)@ == (RmakerOtaView {
                    ota_in_progress: false,
                    phase: OtaPhaseView::Idle,
                    ..old(self)@
                }),
            },
    {
        let job_id = match &self.phase {
            OtaPhase::Starting { job_id } => job_id.clone(),
            _ => {
                return Vec::new();
            },
        };
        match content_len {
            Some(len) => {
                if len > 0 {
                    self.phase = OtaPhase::Downloading { job_id, image_len: len, written: 0 };
                } else {
                    self.ota_in_progress = false;
                    self.phase = OtaPhase::Idle;
                }
            },
            None => {
                self.ota_in_progress = false;
                self.phase = OtaPhase::Idle;
            },
        }
        Vec::new()
    }
}


/// The decision for one read of the download loop, over the engine's
/// image. A zero-length read is "try again": no action, no change. A
/// read that completes the advertised length ends the download: the
/// chunk is written, the image finalized, the job id persisted (the
/// durable evidence that the new slot needs validation), a final
/// in-progress status reported, and the reset requested. A read past
/// the advertised length abandons the attempt. Outside the downloading
/// phase a read decides nothing.
pub open spec fn spec_on_chunk(st: RmakerOtaView, read_len: u64) -> (RmakerOtaView, Seq<
    OtaActionView,
>) {
    match st.phase {
        OtaPhaseView::Downloading { job_id, image_len, written } => {
            if read_len == 0 {
                (st, Seq::empty())
            } else if read_len < image_len - written {
                (
                    RmakerOtaView {
                        phase: OtaPhaseView::Downloading {
                            job_id,
                            image_len,
                            written: (written + read_len) as u64,
                        },
                        ..st
                    },
                    seq![OtaActionView::WriteChunk { len: read_len }],
                )
            } else if read_len == image_len - written {
                (
                    RmakerOtaView { phase: OtaPhaseView::AwaitingReboot { job_id }, ..st },
                    seq![
                        OtaActionView::WriteChunk { len: read_len },
                        OtaActionView::FinalizeImage,
                        OtaActionView::PersistJobId { job_id },
                        OtaActionView::ReportStatus(
                            OtaStatusReportView {
                                ota_job_id: job_id,
                                status: OtaSatus::InProgress,
                                additional_info: "Download Complete. Rebooting to new firmware"@,
                            },
                        ),
                        OtaActionView::Reboot,
                    ],
                )
            } else {
                (
                    RmakerOtaView { ota_in_progress: false, phase: OtaPhaseView::Idle, ..st },
                    Seq::empty(),
                )
            }
        },
        _ => (st, Seq::empty()),
    }
}

impl RmakerOta {
    /// Takes one read of the download loop and decides what the shell
    /// does with it, exactly as `spec_on_chunk` says.
    pub fn on_chunk(&mut self, read_len: u64) -> (r: Vec<OtaAction>)
        requires
            ota_wf(old(self)@),
        ensures
            ota_wf(final(self)@),
            final(self)@ == spec_on_chunk(old(self)@, read_len).0,
            actions_view(r@) == spec_on_chunk(old(self)@, read_len).1,
    {
        let (job_id, image_len, written) = match &self.phase {
            OtaPhase::Downloading { job_id, image_len, written } => (
                job_id.clone(),
                *image_len,
                *written,
            ),
            _ => {
                let r: Vec<OtaAction> = Vec::new();
                proof {
                    assert(actions_view(r@) =~= spec_on_chunk(self@, read_len).1);
                }
                return r;
            },
        };
        if read_len == 0 {
            let r: Vec<OtaAction> = Vec::new();
            proof {
                assert(actions_view(r@) =~= spec_on_chunk(self@, read_len).1);
            }
            r
        } else if read_len < image_len - written {
            self.phase = OtaPhase::Downloading {
                job_id,
                image_len,
                written: written + read_len,
            };
            let mut r: Vec<OtaAction> = Vec::new();
            r.push(OtaAction::WriteChunk { len: read_len });
            proof {
                assert(actions_view(r@) =~= spec_on_chunk(old(self)@, read_len).1);
            }
            r
        } else if read_len == image_len - written {
            self.phase = OtaPhase::AwaitingReboot { job_id: job_id.clone() };
            let (_topic, report) = report_status(
                self.node_id.as_str(),
                job_id.as_str(),
                OtaSatus::InProgress,
                "Download Complete. Rebooting to new firmware",
            );
            let mut r: Vec<OtaAction> = Vec::new();
            r.push(OtaAction::WriteChunk { len: read_len });
            r.push(OtaAction::FinalizeImage);
            r.push(OtaAction::PersistJobId { job_id });
            r.push(OtaAction::ReportStatus(report));
            r.push(OtaAction::Reboot);
            proof {
                assert(actions_view(r@) =~= spec_on_chunk(old(self)@, read_len).1);
            }
            r
        } else {
            self.ota_in_progress = false;
            self.phase = OtaPhase::Idle;
            let r: Vec<OtaAction> = Vec::new();
            proof {
                assert(actions_view(r@) =~= spec_on_chunk(old(self)@, read_len).1);
            }
            r
        }
    }

    /// Boot-time reconciliation, run once per boot before normal
    /// operation, over the persisted job id and the running slot's
    /// state. No persisted job id: nothing to do. A job id beside an
    /// already-valid slot: a previous attempt was rolled back, so a
    /// rejected status is reported and the job id cleared. A job id
    /// beside an unverified slot: the guard is taken and background
    /// validation scheduled. A job id beside any other slot state is
    /// abandoned defensively: cleared, not fatal.
    pub fn manage_rollback(&mut self, persisted_job_id: Option<&str>, slot: SlotState) -> (r: Vec<
        OtaAction,
    >)
        requires
            ota_wf(old(self)@),
        ensures
            ota_wf(final(self)@),
            final(self)@.node_id == old(self)@.node_id,
            persisted_job_id is None ==> final(self)@ == old(self)@ && r@.len() == 0,
            persisted_job_id matches Some(j) ==> match slot {
                SlotState::Valid => final(self)@ == (RmakerOtaView {
                    ota_in_progress: false,
                    phase: OtaPhaseView::Idle,
                    ..old(self)@
                }) && actions_view(r@) =~= seq![
                    OtaActionView::ReportStatus(
                        OtaStatusReportView {
                            ota_job_id: j@,
                            status: OtaSatus::Rejected,
                            additional_info: "Firmware rolled back"@,
                        },
                    ),
                    OtaActionView::ClearJobId,
                ],
                SlotState::Unverified => final(self)@ == (RmakerOtaView {
                    ota_in_progress: true,
                    phase: OtaPhaseView::PendingValidation { job_id: j@ },
                    ..old(self)@
                }) && actions_view(r@) =~= seq![OtaActionView::ScheduleValidation],
                _ => final(self)@ == (RmakerOtaView {
                    ota_in_progress: false,
                    phase: OtaPhaseView::Idle,
                    ..old(self)@
                }) && actions_view(r@) =~= seq![OtaActionView::ClearJobId],
            },
    {
        let job_id = match persisted_job_id {
            None => {
                return Vec::new();
            },
            Some(j) => j,
        };
        match slot {
            SlotState::Valid => {
                let (_topic, report) = report_status(
                    self.node_id.as_str(),
                    job_id,
                    OtaSatus::Rejected,
                    "Firmware rolled back",
                );
                self.ota_in_progress = false;
                self.phase = OtaPhase::Idle;
                let mut r: Vec<OtaAction> = Vec::new();
                r.push(OtaAction::ReportStatus(report));
                r.push(OtaAction::ClearJobId);
                r
            },
            SlotState::Unverified => {
                self.ota_in_progress = true;
                self.phase = OtaPhase::PendingValidation { job_id: job_id.to_owned() };
                let mut r: Vec<OtaAction> = Vec::new();
                r.push(OtaAction::ScheduleValidation);
                r
            },
            _ => {
                self.ota_in_progress = false;
                self.phase = OtaPhase::Idle;
                let mut r: Vec<OtaAction> = Vec::new();
                r.push(OtaAction::ClearJobId);
                r
            },
        }
    }

    /// The background validation's decision, taken after the check
    /// interval with the outbound channel's connectivity. Connected:
    /// the slot is marked valid, success reported, the job id cleared
    /// and the guard released. Not connected: nothing further can be
    /// reported; the slot is marked invalid and the device reset, which
    /// boots the previous slot; the persisted job id stays for the next
    /// boot's reconciliation to clean up.
    pub fn validate_ota(&mut self, connected: bool) -> (r: Vec<OtaAction>)
        requires
            ota_wf(old(self)@),
        ensures
            ota_wf(final(self)@),
            final(self)@.node_id == old(self)@.node_id,
            !(old(self)@.phase is PendingValidation) ==> final(self)@ == old(self)@ && r@.len()
                == 0,
            old(self)@.phase matches OtaPhaseView::PendingValidation { job_id } ==> {
                if connected {
                    &&& final(self)@ == (RmakerOtaView {
                        ota_in_progress: false,
                        phase: OtaPhaseView::Idle,
                        ..old(self)@
                    })
                    &&& actions_view(r@) =~= seq![
                        OtaActionView::MarkSlotValid,
                        OtaActionView::ReportStatus(
                            OtaStatusReportView {
                                ota_job_id: job_id,
                                status: OtaSatus::Success,
                                additional_info: "Firmware verified successfully"@,
                            },
                        ),
                        OtaActionView::ClearJobId,
                    ]
                } else {
                    &&& final(self)@ == old(self)@
                    &&& actions_view(r@) =~= seq![OtaActionView::MarkSlotInvalidAndReset]
                }
            },
    {
        let job_id = match &self.phase {
            OtaPhase::PendingValidation { job_id } => job_id.clone(),
            _ => {
                return Vec::new();
            },
        };
        if connected {
            let (_topic, report) = report_status(
                self.node_id.as_str(),
                job_id.as_str(),
                OtaSatus::Success,
                "Firmware verified successfully",
            );
            self.ota_in_progress = false;
            self.phase = OtaPhase::Idle;
            let mut r: Vec<OtaAction> = Vec::new();
            r.push(OtaAction::MarkSlotValid);
            r.push(OtaAction::ReportStatus(report));
            r.push(OtaAction::ClearJobId);
            r
        } else {
            let mut r: Vec<OtaAction> = Vec::new();
            r.push(OtaAction::MarkSlotInvalidAndReset);
            r
        }
    }
}


// ---------------------------------------------------------------------
// the download loop as a whole
// ---------------------------------------------------------------------

/// The engine's state after feeding it a whole sequence of reads, and
/// everything it asked for along the way.
pub open spec fn spec_run_download(st: RmakerOtaView, reads: Seq<u64>) -> (RmakerOtaView, Seq<
    OtaActionView,
>)
    decreases reads.len(),
{
    if reads.len() == 0 {
        (st, Seq::empty())
    } else {
        let step = spec_on_chunk(st, reads.first());
        let rest = spec_run_download(step.0, reads.drop_first());
        (rest.0, step.1 + rest.1)
    }
}

/// The total number of bytes in a sequence of reads.
pub open spec fn spec_sum_reads(reads: Seq<u64>) -> int
    decreases reads.len(),
{
    if reads.len() == 0 {
        0
    } else {
        reads.first() + spec_sum_reads(reads.drop_first())
    }
}

/// The total number of bytes that a list of actions writes to the
/// update target.
pub open spec fn spec_write_total(acts: Seq<OtaActionView>) -> int
    decreases acts.len(),
{
    if acts.len() == 0 {
        0
    } else {
        (match acts.first() {
            OtaActionView::WriteChunk { len } => len as int,
            _ => 0,
        }) + spec_write_total(acts.drop_first())
    }
}

/// How many times a list of actions persists the job id.
pub open spec fn spec_persist_count(acts: Seq<OtaActionView>) -> int
    decreases acts.len(),
{
    if acts.len() == 0 {
        0
    } else {
        (if acts.first() is PersistJobId {
            1int
        } else {
            0int
        }) + spec_persist_count(acts.drop_first())
    }
}

/// A sum of reads is never negative, and never smaller than its first
/// read.
pub proof fn lemma_sum_reads_nonneg(reads: Seq<u64>)
    ensures
        spec_sum_reads(reads) >= 0,
        reads.len() > 0 ==> reads.first() <= spec_sum_reads(reads),
    decreases reads.len(),
{
    if reads.len() > 0 {
        lemma_sum_reads_nonneg(reads.drop_first());
    }
}

/// Write totals add up over concatenation.
pub proof fn lemma_write_total_concat(a: Seq<OtaActionView>, b: Seq<OtaActionView>)
    ensures
        spec_write_total(a + b) == spec_write_total(a) + spec_write_total(b),
    decreases a.len(),
{
    if a.len() == 0 {
        assert(a + b =~= b);
    } else {
        assert((a + b).drop_first() =~= a.drop_first() + b);
        assert((a + b).first() == a.first());
        lemma_write_total_concat(a.drop_first(), b);
    }
}

/// Persist counts add up over concatenation.
pub proof fn lemma_persist_count_concat(a: Seq<OtaActionView>, b: Seq<OtaActionView>)
    ensures
        spec_persist_count(a + b) == spec_persist_count(a) + spec_persist_count(b),
    decreases a.len(),
{
    if a.len() == 0 {
        assert(a + b =~= b);
    } else {
        assert((a + b).drop_first() =~= a.drop_first() + b);
        assert((a + b).first() == a.first());
        lemma_persist_count_concat(a.drop_first(), b);
    }
}

/// Once the engine awaits the reboot, further reads decide nothing.
pub proof fn lemma_reads_after_completion_ignored(st: RmakerOtaView, reads: Seq<u64>)
    requires
        st.phase is AwaitingReboot,
    ensures
        spec_run_download(st, reads) == (st, Seq::<OtaActionView>::empty()),
    decreases reads.len(),
{
    if reads.len() == 0 {
    } else {
        assert(spec_on_chunk(st, reads.first()) == (st, Seq::<OtaActionView>::empty()));
        lemma_reads_after_completion_ignored(st, reads.drop_first());
        assert(Seq::<OtaActionView>::empty() + Seq::<OtaActionView>::empty() =~= Seq::<
            OtaActionView,
        >::empty());
    }
}

/// Law: the download loop is exact. For a declared image length with
/// `written` bytes already on the target and reads of arbitrary sizes
/// summing to what is missing, the engine asks to write exactly the
/// missing bytes, asks to persist the job id exactly once and with this
/// attempt's job id, asks for no write after the persist, and ends
/// awaiting the reboot.
#[verifier::rlimit(100)]
pub proof fn lemma_download_loop(
    st: RmakerOtaView,
    job_id: Seq<char>,
    image_len: u64,
    written: u64,
    reads: Seq<u64>,
)
    requires
        st.phase == (OtaPhaseView::Downloading { job_id, image_len, written }),
        written < image_len,
        spec_sum_reads(reads) == image_len - written,
    ensures
        spec_run_download(st, reads).0.phase == (OtaPhaseView::AwaitingReboot { job_id }),
        spec_write_total(spec_run_download(st, reads).1) == image_len - written,
        spec_persist_count(spec_run_download(st, reads).1) == 1,
        forall|i: int, j: int|
            #![trigger spec_run_download(st, reads).1[i], spec_run_download(st, reads).1[j]]
            0 <= i < j < spec_run_download(st, reads).1.len() && spec_run_download(st, reads).1[i]
                is PersistJobId ==> !(spec_run_download(st, reads).1[j] is WriteChunk),
        forall|i: int|
            0 <= i < spec_run_download(st, reads).1.len() ==> ((#[trigger] spec_run_download(
                st,
                reads,
            ).1[i]) matches OtaActionView::PersistJobId { job_id: pj } ==> pj == job_id),
    decreases reads.len(),
{
    if reads.len() == 0 {
        assert(false);
    } else {
        let r0 = reads.first();
        let rest = reads.drop_first();
        lemma_sum_reads_nonneg(rest);
        assert(r0 <= image_len - written);
        let step = spec_on_chunk(st, r0);
        let run = spec_run_download(st, reads);
        assert(run == (spec_run_download(step.0, rest).0, step.1 + spec_run_download(
            step.0,
            rest,
        ).1));
        if r0 == 0 {
            assert(step == (st, Seq::<OtaActionView>::empty()));
            lemma_download_loop(st, job_id, image_len, written, rest);
            let tail_run = spec_run_download(st, rest);
            assert(step.1 + tail_run.1 =~= tail_run.1);
        } else if r0 < image_len - written {
            let w2 = (written + r0) as u64;
            assert(step.0.phase == (OtaPhaseView::Downloading {
                job_id,
                image_len,
                written: w2,
            }));
            assert(spec_sum_reads(rest) == image_len - w2);
            lemma_download_loop(step.0, job_id, image_len, w2, rest);
            let tail_run = spec_run_download(step.0, rest);
            let acts = step.1 + tail_run.1;
            lemma_write_total_concat(step.1, tail_run.1);
            lemma_persist_count_concat(step.1, tail_run.1);
            assert(step.1.drop_first() =~= Seq::<OtaActionView>::empty());
            assert(step.1.first() == (OtaActionView::WriteChunk { len: r0 }));
            assert(spec_write_total(Seq::<OtaActionView>::empty()) == 0);
            assert(spec_persist_count(Seq::<OtaActionView>::empty()) == 0);
            assert(spec_write_total(step.1) == r0 + spec_write_total(step.1.drop_first()));
            assert(spec_persist_count(step.1) == spec_persist_count(step.1.drop_first()));
            assert forall|i: int, j: int|
                #![trigger acts[i], acts[j]]
                0 <= i < j < acts.len() && acts[i] is PersistJobId implies !(acts[j]
                is WriteChunk) by {
                assert(acts[i] == if i < 1 {
                    step.1[i]
                } else {
                    tail_run.1[i - 1]
                });
                assert(acts[j] == tail_run.1[j - 1]);
            }
            assert forall|i: int|
                0 <= i < acts.len() implies ((#[trigger] acts[i])
                    matches OtaActionView::PersistJobId { job_id: pj } ==> pj == job_id) by {
                if i >= 1 {
                    assert(acts[i] == tail_run.1[i - 1]);
                }
            }
        } else {
            assert(r0 == image_len - written);
            assert(step.0.phase == (OtaPhaseView::AwaitingReboot { job_id }));
            lemma_reads_after_completion_ignored(step.0, rest);
            let acts = step.1 + spec_run_download(step.0, rest).1;
            assert(acts =~= step.1);
            let a = step.1;
            assert(a.len() == 5);
            let a1 = a.drop_first();
            let a2 = a1.drop_first();
            let a3 = a2.drop_first();
            let a4 = a3.drop_first();
            let a5 = a4.drop_first();
            assert(a5 =~= Seq::<OtaActionView>::empty());
            assert(a.first() == (OtaActionView::WriteChunk { len: r0 }));
            assert(a1.first() == OtaActionView::FinalizeImage);
            assert(a2.first() == (OtaActionView::PersistJobId { job_id }));
            assert(a3.first() is ReportStatus);
            assert(a4.first() == OtaActionView::Reboot);
            assert(spec_write_total(a5) == 0);
            assert(spec_write_total(a4) == 0);
            assert(spec_write_total(a3) == 0);
            assert(spec_write_total(a2) == 0);
            assert(spec_write_total(a1) == 0);
            assert(spec_write_total(a) == r0);
            assert(spec_persist_count(a5) == 0);
            assert(spec_persist_count(a4) == 0);
            assert(spec_persist_count(a3) == 0);
            assert(spec_persist_count(a2) == 1);
            assert(spec_persist_count(a1) == 1);
            assert(spec_persist_count(a) == 1);
            assert forall|i: int, j: int|
                #![trigger acts[i], acts[j]]
                0 <= i < j < acts.len() && acts[i] is PersistJobId implies !(acts[j]
                is WriteChunk) by {
                assert(acts[i] == a[i]);
                assert(a[0] is WriteChunk);
                assert(a[1] is FinalizeImage);
                assert(a[2] is PersistJobId);
                assert(a[3] is ReportStatus);
                assert(a[4] is Reboot);
            }
            assert forall|i: int|
                0 <= i < acts.len() implies ((#[trigger] acts[i])
                    matches OtaActionView::PersistJobId { job_id: pj } ==> pj == job_id) by {
                assert(a[0] is WriteChunk);
                assert(a[1] is FinalizeImage);
                assert(a[2] == (OtaActionView::PersistJobId { job_id }));
                assert(a[3] is ReportStatus);
                assert(a[4] is Reboot);
            }
        }
    }
}

} // verus!
