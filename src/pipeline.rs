//! The install pipeline as a state machine: download, then (when asked)
//! extraction of a zip archive or through the archive tool, then a check that
//! the launcher is present, with the destination removed when it is not. The
//! caller performs each action and reports how it went.
use vstd::prelude::*;
use crate::download::spec_has_zip_extension;
use crate::download::has_zip_extension;
use crate::errors::InstallError;
use crate::tar::{spec_restricts, tar_args, tar_program};

verus! {

/// One installation request.
pub struct DownloadJob {
    /// Where the archive is fetched from.
    pub url: String,
    /// The directory the archive is saved in and that the final notification
    /// names; the archive tool extracts into it.
    pub dest: String,
    /// The channel progress notifications go to.
    pub channel: String,
    /// Whether to extract the archive after the download.
    pub extract: bool,
    /// Where a zip archive is extracted to; that tree is then checked for the
    /// launcher.
    pub extract_dir: Option<String>,
    /// The folder inside the archive to extract, or everything when absent.
    pub subfolder: Option<String>,
}

/// Where a job stands.
#[derive(Debug, Clone, Copy, PartialEq, Eq, Structural)]
pub enum Stage {
    Downloading,
    ExtractingZip,
    ExtractingTar,
    Verifying,
    Done,
    Failed,
}

/// What the caller is to do next.
#[derive(Debug)]
pub enum Action {
    /// Extract the zip archive at `archive` into `into`, limited to `subfolder`.
    ExtractZip { archive: String, into: String, subfolder: Option<String> },
    /// Create `into`, run `program` with `args`, and remove the archive once it
    /// succeeded.
    ExtractTar { program: String, args: Vec<String>, into: String },
    /// Look for the launcher among the files under `dir`.
    Verify { dir: String, accept_bare: bool },
    /// Emit the final notification, carrying `path`, on `channel`.
    Finish { channel: String, path: String },
    /// Remove the tree `dir` (its failures are ignored), then report `error`.
    Rollback { dir: String, error: InstallError },
    /// Report `error`.
    Abort { error: InstallError },
}

/// The channel of the final notification: the job's channel with `/done`.
pub open spec fn spec_done_channel(channel: Seq<char>) -> Seq<char> {
    channel + "/done"@
}

/// The state of one job.
pub struct InstallPipeline {
    job: DownloadJob,
    stage: Stage,
    tree: String,
}

impl InstallPipeline {
    pub closed spec fn spec_stage(&self) -> Stage {
        self.stage
    }

    pub closed spec fn spec_job(&self) -> &DownloadJob {
        &self.job
    }

    /// The directory that extraction fills: the extraction directory for a
    /// zip archive, the destination for the archive tool.
    pub closed spec fn spec_tree(&self) -> Seq<char> {
        self.tree@
    }

    /// A job about to download.
    pub fn new(job: DownloadJob) -> (r: Self)
        ensures
            r.spec_stage() == Stage::Downloading,
            r.spec_job() == job,
    {
        InstallPipeline { job, stage: Stage::Downloading, tree: String::new() }
    }

    /// Where the job stands.
    pub fn stage(&self) -> (r: Stage)
        ensures
            r == self.spec_stage(),
    {
        self.stage
    }

    /// The request.
    pub fn job(&self) -> (r: &DownloadJob)
        ensures
            r == self.spec_job(),
    {
        &self.job
    }

    fn finish(&mut self) -> (r: Action)
        ensures
            final(self).spec_stage() == Stage::Done,
            final(self).spec_job() == old(self).spec_job(),
            r matches Action::Finish { channel, path } && channel@ == spec_done_channel(
                old(self).spec_job().channel@,
            ) && path@ == old(self).spec_job().dest@,
    {
        self.stage = Stage::Done;
        let channel = self.job.channel.clone().concat("/done");
        let path = self.job.dest.clone();
        Action::Finish { channel, path }
    }

    /// Takes the HTTP status of the response: anything but a success ends the
    /// job with `Http`.
    pub fn response(&mut self, status: u16) -> (r: Option<Action>)
        requires
            old(self).spec_stage() == Stage::Downloading,
        ensures
            final(self).spec_job() == old(self).spec_job(),
            200 <= status <= 299 ==> r is None && final(self).spec_stage() == Stage::Downloading,
            !(200 <= status <= 299) ==> final(self).spec_stage() == Stage::Failed && (r matches Some(
                Action::Abort { error },
            ) && error == InstallError::Http(status)),
    {
        if 200 <= status && status <= 299 {
            None
        } else {
            self.stage = Stage::Failed;
            Some(Action::Abort { error: InstallError::Http(status) })
        }
    }

    /// The archive has been written to `archive`. Without extraction the job is
    /// done; a `.zip` archive is extracted into the extraction directory (which
    /// must be given); any other goes to the archive tool (`bsdtar` when
    /// `macos`).
    pub fn downloaded(&mut self, archive: String, macos: bool) -> (r: Action)
        requires
            old(self).spec_stage() == Stage::Downloading,
        ensures
            final(self).spec_job() == old(self).spec_job(),
            ({
                let job = old(self).spec_job();
                &&& !job.extract ==> final(self).spec_stage() == Stage::Done && (r matches Action::Finish {
                    channel,
                    path,
                } && channel@ == spec_done_channel(job.channel@) && path@ == job.dest@)
                &&& job.extract && spec_has_zip_extension(archive@) && job.extract_dir is None
                    ==> final(self).spec_stage() == Stage::Failed && (r matches Action::Abort {
                    error,
                } && error == InstallError::MissingExtractDir)
                &&& job.extract && spec_has_zip_extension(archive@) && job.extract_dir is Some
                    ==> final(self).spec_stage() == Stage::ExtractingZip && (r matches Action::ExtractZip {
                    archive: a,
                    into,
                    subfolder,
                } && a@ == archive@ && into@ == job.extract_dir->Some_0@ && subfolder
                    == job.subfolder) && final(self).spec_tree() == job.extract_dir->Some_0@
                &&& job.extract && !spec_has_zip_extension(archive@) ==> final(self).spec_stage()
                    == Stage::ExtractingTar && (r matches Action::ExtractTar { program, args, into }
                    && into@ == job.dest@ && final(self).spec_tree() == job.dest@ && program@ == (
                    if macos {
                        "bsdtar"@
                    } else {
                        "tar"@
                    }) && args@.len() >= 6 && args@[0]@ == "--strip-components"@ && args@[1]@
                    == "1"@ && args@[2]@ == "-xvf"@ && args@[3]@ == archive@ && args@[4]@ == "-C"@
                    && args@[5]@ == job.dest@ && (args@.len() == 7 <==> spec_restricts(
                    match job.subfolder {
                        Some(s) => Some(s@),
                        None => None,
                    },
                )) && (args@.len() == 7 ==> job.subfolder is Some && args@[6]@
                    == job.subfolder->Some_0@))
            }),
    {
        if !self.job.extract {
            return self.finish();
        }
        if has_zip_extension(archive.as_str()) {
            match &self.job.extract_dir {
                None => {
                    self.stage = Stage::Failed;
                    Action::Abort { error: InstallError::MissingExtractDir }
                },
                Some(d) => {
                    let into = d.clone();
                    let subfolder = self.job.subfolder.clone();
                    self.tree = d.clone();
                    self.stage = Stage::ExtractingZip;
                    Action::ExtractZip { archive, into, subfolder }
                },
            }
        } else {
            let sub = match &self.job.subfolder {
                Some(s) => Some(s.as_str()),
                None => None,
            };
            let args = tar_args(archive.as_str(), self.job.dest.as_str(), sub);
            let program = tar_program(macos);
            let into = self.job.dest.clone();
            self.tree = self.job.dest.clone();
            self.stage = Stage::ExtractingTar;
            Action::ExtractTar { program, args, into }
        }
    }

    /// Extraction succeeded: look for the launcher in the tree it filled (the
    /// extraction directory of a zip archive, else the destination). After the
    /// archive tool a bare `vintagestory` counts too.
    pub fn extracted(&mut self) -> (r: Action)
        requires
            old(self).spec_stage() == Stage::ExtractingZip || old(self).spec_stage()
                == Stage::ExtractingTar,
        ensures
            final(self).spec_job() == old(self).spec_job(),
            final(self).spec_stage() == Stage::Verifying,
            final(self).spec_tree() == old(self).spec_tree(),
            r matches Action::Verify { dir, accept_bare } && dir@ == old(self).spec_tree()
                && accept_bare == (old(self).spec_stage() == Stage::ExtractingTar),
    {
        let accept_bare = match self.stage {
            Stage::ExtractingTar => true,
            _ => false,
        };
        self.stage = Stage::Verifying;
        Action::Verify { dir: self.tree.clone(), accept_bare }
    }

    /// The launcher was or was not found in the tree that extraction filled.
    /// Without it that tree is removed and the job fails with
    /// `ExecutableNotFound`: either the tree holds the launcher or it is gone.
    pub fn verified(&mut self, found: bool) -> (r: Action)
        requires
            old(self).spec_stage() == Stage::Verifying,
        ensures
            final(self).spec_job() == old(self).spec_job(),
            found ==> final(self).spec_stage() == Stage::Done && (r matches Action::Finish {
                channel,
                path,
            } && channel@ == spec_done_channel(old(self).spec_job().channel@) && path@ == old(
                self,
            ).spec_job().dest@),
            !found ==> final(self).spec_stage() == Stage::Failed && (r matches Action::Rollback {
                dir,
                error,
            } && dir@ == old(self).spec_tree() && error == InstallError::ExecutableNotFound),
    {
        if found {
            self.finish()
        } else {
            self.stage = Stage::Failed;
            Action::Rollback { dir: self.tree.clone(), error: InstallError::ExecutableNotFound }
        }
    }

    /// A step failed with `error`: the job ends with it, nothing retried.
    pub fn failed(&mut self, error: InstallError) -> (r: Action)
        requires
            old(self).spec_stage() != Stage::Done && old(self).spec_stage() != Stage::Failed,
        ensures
            final(self).spec_job() == old(self).spec_job(),
            final(self).spec_stage() == Stage::Failed,
            r matches Action::Abort { error: e } && e == error,
    {
        self.stage = Stage::Failed;
        Action::Abort { error }
    }
}

} // verus!
