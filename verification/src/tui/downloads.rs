//! The state of a background download job, shared between the task that
//! runs it and the renderer. The task itself (requests, files, the
//! external viewer) belongs to the host.
use vstd::prelude::*;

use crate::text::concat;

verus! {

/// Where a download job stands.
#[derive(Debug, Clone, Copy, PartialEq, Eq, Structural)]
pub enum Phase {
    Resolving,
    AwaitingCaptcha,
    Downloading,
    Done,
    Failed,
    Cancelled,
}

impl Phase {
    /// The job still runs: resolving, waiting for the code, or
    /// downloading.
    pub open spec fn running(self) -> bool {
        self is Resolving || self is AwaitingCaptcha || self is Downloading
    }
}

/// Live state of a download job.
#[derive(Debug)]
pub struct DownloadState {
    pub phase: Phase,
    pub message: String,
    /// Where the CAPTCHA image was saved, once it was.
    pub captcha_path: Option<String>,
    /// The CAPTCHA image drawn as text, for in-terminal display.
    pub ascii_lines: Vec<String>,
}

impl Default for DownloadState {
    fn default() -> (r: Self)
        ensures
            r.phase == Phase::Resolving,
            r.message@ == Seq::<char>::empty(),
            r.captcha_path is None,
            r.ascii_lines@ == Seq::<String>::empty(),
    {
        DownloadState {
            phase: Phase::Resolving,
            message: String::new(),
            captcha_path: None,
            ascii_lines: Vec::new(),
        }
    }
}

impl DownloadState {
    /// The job still runs.
    pub fn is_active(&self) -> (r: bool)
        ensures
            r == self.phase.running(),
    {
        match self.phase {
            Phase::Resolving | Phase::AwaitingCaptcha | Phase::Downloading => true,
            _ => false,
        }
    }

    /// The job waits for the user's CAPTCHA code.
    pub fn is_awaiting_captcha(&self) -> (r: bool)
        ensures
            r == (self.phase == Phase::AwaitingCaptcha),
    {
        self.phase == Phase::AwaitingCaptcha
    }

    /// The CAPTCHA image was saved at `path` and drawn as `ascii_lines`:
    /// the job now waits for the code.
    pub fn captcha_ready(&mut self, path: String, ascii_lines: Vec<String>)
        ensures
            final(self).phase == Phase::AwaitingCaptcha,
            final(self).captcha_path == Some(path),
            final(self).ascii_lines == ascii_lines,
            final(self).message == old(self).message,
    {
        self.phase = Phase::AwaitingCaptcha;
        self.captcha_path = Some(path);
        self.ascii_lines = ascii_lines;
    }

    /// The code was submitted: the job downloads.
    pub fn code_submitted(&mut self)
        ensures
            *final(self) == (DownloadState { phase: Phase::Downloading, ..*old(self) }),
    {
        self.phase = Phase::Downloading;
    }

    /// The job ended with `outcome` (the download link, or why it failed);
    /// a failure after a cancellation request counts as cancelled.
    pub fn finish(&mut self, outcome: Result<String, String>, cancelled: bool)
        ensures
            match outcome {
                Ok(url) => {
                    &&& final(self).phase == Phase::Done
                    &&& final(self).message@ == "Download link opened in browser: "@ + url@
                },
                Err(e) => if cancelled {
                    final(self).phase == Phase::Cancelled && final(self).message
                        == old(self).message
                } else {
                    final(self).phase == Phase::Failed && final(self).message == e
                },
            },
            final(self).captcha_path == old(self).captcha_path,
            final(self).ascii_lines == old(self).ascii_lines,
    {
        match outcome {
            Ok(url) => {
                self.phase = Phase::Done;
                self.message = concat("Download link opened in browser: ", url.as_str());
            },
            Err(e) => {
                if cancelled {
                    self.phase = Phase::Cancelled;
                } else {
                    self.phase = Phase::Failed;
                    self.message = e;
                }
            },
        }
    }
}

} // verus!
