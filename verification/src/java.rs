//! The Java runtime resolver and installer model. Runtimes live isolated
//! under a runtimes root as `java-<major>/bin/java`; system installations
//! are never consulted. An install is staged — resolve a release, download,
//! extract to scratch, place by one atomic rename — and the runtime set
//! grows only at a successful placement, so an interrupted install can
//! never make `find_java` report the runtime present.

use vstd::prelude::*;
use vstd::string::*;
use crate::errors::LauncherError;
use crate::strutil::{dec_digits, ends_with_str, is_suffix_of, u32_dec};

verus! {

/// The isolated path of a runtime's executable:
/// `<runtimes root>/java-<major>/bin/java`.
pub open spec fn java_path_spec(runtimes_dir: Seq<char>, major: u32) -> Seq<char> {
    runtimes_dir + "/java-"@ + dec_digits(major as int) + "/bin/java"@
}

/// The isolated directory of a runtime: `<runtimes root>/java-<major>`.
pub open spec fn java_dir_spec(runtimes_dir: Seq<char>, major: u32) -> Seq<char> {
    runtimes_dir + "/java-"@ + dec_digits(major as int)
}

/// Knows where isolated runtimes live and which majors are installed — a
/// major is recorded only once its directory and executable are in place.
pub struct JavaManager {
    runtimes_dir: String,
    installed: Vec<u32>,
}

impl JavaManager {
    /// The runtimes root.
    pub closed spec fn dir(&self) -> Seq<char> {
        self.runtimes_dir@
    }

    /// The recorded installed majors, in recording order.
    pub closed spec fn installed_majors(&self) -> Seq<u32> {
        self.installed@
    }

    /// Whether a runtime of `major` is installed.
    pub open spec fn is_installed(&self, major: u32) -> bool {
        self.installed_majors().contains(major)
    }

    /// A manager over `runtimes_dir` that knows of no installed runtime.
    pub fn new(runtimes_dir: String) -> (r: Self)
        ensures
            r.dir() == runtimes_dir@,
            r.installed_majors() == Seq::<u32>::empty(),
    {
        let r = JavaManager { runtimes_dir, installed: Vec::new() };
        proof {
            assert(r.installed_majors() =~= Seq::<u32>::empty());
        }
        r
    }

    /// Records that the runtime of `major` is fully in place (directory and
    /// executable both present).
    pub fn mark_installed(&mut self, major: u32)
        ensures
            final(self).dir() == old(self).dir(),
            final(self).installed_majors() == old(self).installed_majors().push(major),
            final(self).is_installed(major),
    {
        self.installed.push(major);
        proof {
            assert(self.installed@[self.installed@.len() - 1] == major);
        }
    }

    /// The executable path the runtime of `major` would have.
    pub fn runtime_java_path(&self, major: u32) -> (r: String)
        ensures
            r@ == java_path_spec(self.dir(), major),
    {
        let mut out = self.runtimes_dir.clone();
        out.append("/java-");
        let d = u32_dec(major);
        out.append(d.as_str());
        out.append("/bin/java");
        out
    }

    /// The directory the runtime of `major` would occupy.
    pub fn runtime_dir_path(&self, major: u32) -> (r: String)
        ensures
            r@ == java_dir_spec(self.dir(), major),
    {
        let mut out = self.runtimes_dir.clone();
        out.append("/java-");
        let d = u32_dec(major);
        out.append(d.as_str());
        out
    }

    /// Finds the installed isolated runtime of the required major. Only the
    /// runtimes root is consulted, never a system installation. Succeeds
    /// exactly when a major is required and installed; a required but
    /// missing major is `JavaMissing(major)` — a distinct, recoverable
    /// signal — and no requirement is `NotFound`.
    pub fn find_java(&self, required_version: Option<u32>) -> (r: Result<String, LauncherError>)
        ensures
            match r {
                Ok(p) => match required_version {
                    Some(v) => self.is_installed(v) && p@ == java_path_spec(self.dir(), v),
                    None => false,
                },
                Err(e) => match required_version {
                    Some(v) => !self.is_installed(v) && e == LauncherError::JavaMissing(v),
                    None => e is NotFound,
                },
            },
    {
        match required_version {
            Some(v) => {
                let mut found = false;
                let mut i: usize = 0;
                while i < self.installed.len()
                    invariant
                        0 <= i <= self.installed@.len(),
                        !found ==> forall|j: int| 0 <= j < i ==> self.installed@[j] != v,
                        found ==> self.installed@.contains(v),
                    decreases self.installed@.len() - i,
                {
                    if self.installed[i] == v {
                        found = true;
                        proof {
                            assert(self.installed@[i as int] == v);
                        }
                    }
                    i += 1;
                }
                proof {
                    if !found && self.installed@.contains(v) {
                        let w = choose|w: int|
                            0 <= w < self.installed@.len() && self.installed@[w] == v;
                    }
                }
                if found {
                    Ok(self.runtime_java_path(v))
                } else {
                    Err(LauncherError::JavaMissing(v))
                }
            },
            None => Err(LauncherError::NotFound),
        }
    }
}

/// Whether a runtime archive is a zip (else tar+gzip), judged by the
/// download URL's suffix.
pub fn runtime_archive_is_zip(url: &str) -> (r: bool)
    ensures
        r == is_suffix_of(".zip"@, url@),
{
    ends_with_str(url, ".zip")
}

/// The runtime-distribution query URL for a feature release of `major` on
/// `os_name`.
pub fn runtime_release_url(base_url: &str, major: u32, os_name: &str) -> (r: String)
    ensures
        r@ == base_url@ + "/v3/assets/feature_releases/"@ + dec_digits(major as int)
            + "/ga?architecture=x64&heap_size=normal&image_type=jdk&jvm_impl=hotspot&os="@
            + os_name@,
{
    let mut out = base_url.to_owned();
    out.append("/v3/assets/feature_releases/");
    let d = u32_dec(major);
    out.append(d.as_str());
    out.append("/ga?architecture=x64&heap_size=normal&image_type=jdk&jvm_impl=hotspot&os=");
    out.append(os_name);
    out
}

/// The stages of one runtime install, in order. `Placing` is the atomic
/// rename of the extracted tree into the runtimes root; only completing it
/// makes the runtime visible.
#[derive(Clone, Copy, Debug, PartialEq, Eq, Structural)]
pub enum InstallStage {
    Resolving,
    Downloading,
    Extracting,
    Placing,
    Installed,
    Failed,
}

/// The stage after one step's outcome: stages advance in order on success,
/// any failure is final, and the two final stages absorb.
pub open spec fn next_stage(s: InstallStage, ok: bool) -> InstallStage {
    match s {
        InstallStage::Resolving => if ok {
            InstallStage::Downloading
        } else {
            InstallStage::Failed
        },
        InstallStage::Downloading => if ok {
            InstallStage::Extracting
        } else {
            InstallStage::Failed
        },
        InstallStage::Extracting => if ok {
            InstallStage::Placing
        } else {
            InstallStage::Failed
        },
        InstallStage::Placing => if ok {
            InstallStage::Installed
        } else {
            InstallStage::Failed
        },
        InstallStage::Installed => InstallStage::Installed,
        InstallStage::Failed => InstallStage::Failed,
    }
}

/// The stage a run of outcomes ends in.
pub open spec fn run_stages(s: InstallStage, outs: Seq<bool>) -> InstallStage
    decreases outs.len(),
{
    if outs.len() == 0 {
        s
    } else {
        run_stages(next_stage(s, outs[0]), outs.drop_first())
    }
}

/// The recorded runtime set after a run of outcomes: it grows — by exactly
/// the installed major — only at a successful placement step.
pub open spec fn run_installed(installed: Seq<u32>, major: u32, s: InstallStage, outs: Seq<bool>) -> Seq<u32>
    decreases outs.len(),
{
    if outs.len() == 0 {
        installed
    } else {
        let next = if s is Placing && outs[0] {
            installed.push(major)
        } else {
            installed
        };
        run_installed(next, major, next_stage(s, outs[0]), outs.drop_first())
    }
}

/// One in-progress install of the runtime of `major`.
pub struct RuntimeInstall {
    major: u32,
    stage: InstallStage,
}

impl RuntimeInstall {
    /// The major being installed.
    pub closed spec fn major_spec(&self) -> u32 {
        self.major
    }

    /// The stage reached.
    pub closed spec fn stage_spec(&self) -> InstallStage {
        self.stage
    }

    /// Begins an install of the runtime of `major`.
    pub fn begin(major: u32) -> (r: Self)
        ensures
            r.major_spec() == major,
            r.stage_spec() == InstallStage::Resolving,
    {
        RuntimeInstall { major, stage: InstallStage::Resolving }
    }

    /// Advances the install by one step's outcome. The runtime set of `jm`
    /// changes only when the placement step — the atomic rename — succeeds;
    /// every earlier step, succeeded or failed, leaves it untouched.
    pub fn step(&mut self, jm: &mut JavaManager, ok: bool)
        ensures
            final(self).major_spec() == old(self).major_spec(),
            final(self).stage_spec() == next_stage(old(self).stage_spec(), ok),
            final(jm).dir() == old(jm).dir(),
            final(jm).installed_majors() == (if old(self).stage_spec() is Placing && ok {
                old(jm).installed_majors().push(old(self).major_spec())
            } else {
                old(jm).installed_majors()
            }),
    {
        let advancing = match self.stage {
            InstallStage::Resolving => true,
            InstallStage::Downloading => true,
            InstallStage::Extracting => true,
            InstallStage::Placing => true,
            InstallStage::Installed => false,
            InstallStage::Failed => false,
        };
        if advancing {
            if ok {
                let placed = matches!(self.stage, InstallStage::Placing);
                self.stage = match self.stage {
                    InstallStage::Resolving => InstallStage::Downloading,
                    InstallStage::Downloading => InstallStage::Extracting,
                    InstallStage::Extracting => InstallStage::Placing,
                    InstallStage::Placing => InstallStage::Installed,
                    InstallStage::Installed => InstallStage::Installed,
                    InstallStage::Failed => InstallStage::Failed,
                };
                if placed {
                    jm.mark_installed(self.major);
                }
            } else {
                self.stage = InstallStage::Failed;
            }
        }
    }
}

/// A run that never reaches `Installed` never succeeded a placement, so it
/// leaves the recorded runtime set exactly as it was.
pub proof fn lemma_interrupted_run_leaves_set(
    installed: Seq<u32>,
    major: u32,
    s: InstallStage,
    outs: Seq<bool>,
)
    requires
        !(s is Installed),
        !(run_stages(s, outs) is Installed),
    ensures
        run_installed(installed, major, s, outs) == installed,
    decreases outs.len(),
{
    if outs.len() > 0 {
        let s2 = next_stage(s, outs[0]);
        if s is Placing && outs[0] {
            assert(s2 is Installed);
            lemma_run_stays_installed(s2, outs.drop_first());
            assert(false);
        } else {
            lemma_interrupted_run_leaves_set(installed, major, s2, outs.drop_first());
        }
    }
}

proof fn lemma_run_stays_installed(s: InstallStage, outs: Seq<bool>)
    requires
        s is Installed,
    ensures
        run_stages(s, outs) is Installed,
    decreases outs.len(),
{
    if outs.len() > 0 {
        lemma_run_stays_installed(next_stage(s, outs[0]), outs.drop_first());
    }
}

/// An install interrupted before the atomic placement — its outcome run
/// never reached `Installed` — leaves a previously missing runtime missing:
/// the runtime set is unchanged, so a lookup of that major must still
/// report `JavaMissing`.
pub proof fn lemma_interrupted_install_keeps_java_missing(
    installed: Seq<u32>,
    major: u32,
    outs: Seq<bool>,
)
    requires
        !installed.contains(major),
        !(run_stages(InstallStage::Resolving, outs) is Installed),
    ensures
        !run_installed(installed, major, InstallStage::Resolving, outs).contains(major),
{
    lemma_interrupted_run_leaves_set(installed, major, InstallStage::Resolving, outs);
}

} // verus!
