//! The managed kernel parameters and their backup/override state machine.
//!
//! Installing a parameter saves its live value to a backup record and then
//! overrides it; tearing it down writes the backup back and consumes the
//! record. The decision functions here are shared by the real host driver
//! and by [`HostParam`], an in-memory host on which the laws are proved.
use vstd::prelude::*;
use vstd::string::StringExecFns;
use crate::text::{first_line, first_line_of, is_single_line, lemma_first_line_of_printed};

verus! {

/// One of the three host parameters that the agent overrides.
#[derive(PartialEq, Eq, Structural, Clone, Copy, Debug)]
pub enum ManagedParam {
    CorePattern,
    CorePipeLimit,
    SuidDumpable,
}

impl ManagedParam {
    /// The fully qualified parameter name, as the host's setter knows it.
    pub open spec fn spec_name(self) -> Seq<char> {
        match self {
            ManagedParam::CorePattern => "kernel.core_pattern"@,
            ManagedParam::CorePipeLimit => "kernel.core_pipe_limit"@,
            ManagedParam::SuidDumpable => "fs.suid_dumpable"@,
        }
    }

    /// The short name, used for the backup record's file name.
    pub open spec fn spec_key(self) -> Seq<char> {
        match self {
            ManagedParam::CorePattern => "core_pattern"@,
            ManagedParam::CorePipeLimit => "core_pipe_limit"@,
            ManagedParam::SuidDumpable => "suid_dumpable"@,
        }
    }

    pub fn name(&self) -> (r: String)
        ensures
            r@ == self.spec_name(),
    {
        match self {
            ManagedParam::CorePattern => String::from_str("kernel.core_pattern"),
            ManagedParam::CorePipeLimit => String::from_str("kernel.core_pipe_limit"),
            ManagedParam::SuidDumpable => String::from_str("fs.suid_dumpable"),
        }
    }

    pub fn key(&self) -> (r: String)
        ensures
            r@ == self.spec_key(),
    {
        match self {
            ManagedParam::CorePattern => String::from_str("core_pattern"),
            ManagedParam::CorePipeLimit => String::from_str("core_pipe_limit"),
            ManagedParam::SuidDumpable => String::from_str("suid_dumpable"),
        }
    }

    /// Path of the backup record: `<host_dir>/<key>.bak`.
    pub fn backup_path(&self, host_dir: &str) -> (r: String)
        ensures
            r@ == backup_path_of(host_dir@, self.spec_key()),
    {
        let mut r = String::from_str(host_dir);
        r.append("/");
        let k = self.key();
        r.append(k.as_str());
        r.append(".bak");
        r
    }
}

pub open spec fn backup_path_of(host_dir: Seq<char>, key: Seq<char>) -> Seq<char> {
    host_dir + "/"@ + key + ".bak"@
}

/// The three managed parameters, in the order in which they are installed
/// and torn down.
pub open spec fn spec_all_params() -> Seq<ManagedParam> {
    seq![ManagedParam::CorePattern, ManagedParam::CorePipeLimit, ManagedParam::SuidDumpable]
}

pub fn all_params() -> (r: Vec<ManagedParam>)
    ensures
        r@ == spec_all_params(),
{
    let r = vec![ManagedParam::CorePattern, ManagedParam::CorePipeLimit, ManagedParam::SuidDumpable];
    assert(r@ =~= spec_all_params());
    r
}

/// The pipe-to-program value that redirects core dumps to the composer
/// deployed under `host_dir`, with the dumps going to `<host_dir>/core`.
pub open spec fn core_pattern_of(host_dir: Seq<char>) -> Seq<char> {
    "|"@ + host_dir + "/cdc -c=%c -e=%e -p=%p -s=%s -t=%t -d="@ + host_dir
        + "/core -h=%h -E=%E"@
}

pub fn core_pattern(host_dir: &str) -> (r: String)
    ensures
        r@ == core_pattern_of(host_dir@),
{
    let mut r = String::from_str("|");
    r.append(host_dir);
    r.append("/cdc -c=%c -e=%e -p=%p -s=%s -t=%t -d=");
    r.append(host_dir);
    r.append("/core -h=%h -E=%E");
    r
}

/// The core pipe limit that the agent installs.
pub open spec fn spec_pipe_limit() -> Seq<char> {
    "128"@
}

/// The value that install writes for `p`: the core pattern for `host_dir`,
/// the fixed pipe limit, or the configured dumpable mode `suid`.
pub open spec fn managed_value_of(p: ManagedParam, host_dir: Seq<char>, suid: Seq<char>) -> Seq<
    char,
> {
    match p {
        ManagedParam::CorePattern => core_pattern_of(host_dir),
        ManagedParam::CorePipeLimit => spec_pipe_limit(),
        ManagedParam::SuidDumpable => suid,
    }
}

pub fn managed_value(p: ManagedParam, host_dir: &str, suid: &str) -> (r: String)
    ensures
        r@ == managed_value_of(p, host_dir@, suid@),
{
    match p {
        ManagedParam::CorePattern => core_pattern(host_dir),
        ManagedParam::CorePipeLimit => String::from_str("128"),
        ManagedParam::SuidDumpable => String::from_str(suid),
    }
}

/// Why an install is refused.
#[derive(PartialEq, Eq, Structural, Clone, Copy, Debug)]
pub enum InstallError {
    /// A backup record is already present: the live value is the agent's own
    /// override, and saving it would lose the value from before the install.
    BackupPresent,
    /// The parameter query printed nothing.
    EmptyQuery,
    /// The host refused the new value.
    SetRejected,
}

/// Why a restore is refused.
#[derive(PartialEq, Eq, Structural, Clone, Copy, Debug)]
pub enum RestoreError {
    /// There is no backup record to restore from.
    MissingBackup,
    /// The host refused the backed-up value; the record is kept.
    SetRejected,
}

/// Decides the install of one parameter, given whether its backup record is
/// present and what the parameter query printed. On `Ok` the result is the
/// line to save as the backup record; the override follows once it is saved.
pub fn plan_install(backup_present: bool, query_output: &str) -> (r: Result<String, InstallError>)
    ensures
        backup_present ==> r == Err::<String, InstallError>(InstallError::BackupPresent),
        !backup_present && query_output@.len() == 0 ==> r == Err::<String, InstallError>(
            InstallError::EmptyQuery,
        ),
        !backup_present && query_output@.len() > 0 ==> (r matches Ok(l) && l@ == first_line_of(
            query_output@,
        )),
{
    if backup_present {
        return Err(InstallError::BackupPresent);
    }
    match first_line(query_output) {
        Some(l) => Ok(l),
        None => Err(InstallError::EmptyQuery),
    }
}

/// Decides the restore of one parameter from its backup record, if any. On
/// `Ok` the result is the value to write back; the record is deleted only
/// once that write has succeeded.
pub fn plan_restore(record: Option<String>) -> (r: Result<String, RestoreError>)
    ensures
        record is None <==> r == Err::<String, RestoreError>(RestoreError::MissingBackup),
        record matches Some(v) ==> (r matches Ok(w) && w@ == v@),
{
    match record {
        Some(v) => Ok(v),
        None => Err(RestoreError::MissingBackup),
    }
}

/// One parameter of a host: its live value, its backup record if one is
/// present, every value written to it, in order, and whether the host
/// accepts writes to it.
pub struct HostParam {
    pub live: String,
    pub backup: Option<String>,
    pub writes: Vec<String>,
    pub writable: bool,
}

pub struct HostParamView {
    pub live: Seq<char>,
    pub backup: Option<Seq<char>>,
    pub writes: Seq<Seq<char>>,
    pub writable: bool,
}

pub open spec fn opt_view(o: Option<String>) -> Option<Seq<char>> {
    match o {
        Some(s) => Some(s@),
        None => None,
    }
}

impl View for HostParam {
    type V = HostParamView;

    open spec fn view(&self) -> HostParamView {
        HostParamView {
            live: self.live@,
            backup: opt_view(self.backup),
            writes: self.writes@.map_values(|w: String| w@),
            writable: self.writable,
        }
    }
}

/// What the host's query prints for a parameter: its value on a line.
pub open spec fn query_output_of(p: HostParamView) -> Seq<char> {
    p.live.push('\n')
}

/// Install of `managed` on one parameter: refused while a backup record is
/// present; otherwise the first line of the query output is saved and the
/// managed value written. When the host refuses the write, the saved record
/// stays and the live value is unchanged.
pub open spec fn spec_install(p: HostParamView, managed: Seq<char>) -> Result<
    HostParamView,
    InstallError,
> {
    if p.backup is Some {
        Err(InstallError::BackupPresent)
    } else if !p.writable {
        Err(InstallError::SetRejected)
    } else {
        Ok(
            HostParamView {
                live: managed,
                backup: Some(first_line_of(query_output_of(p))),
                writes: p.writes.push(managed),
                writable: true,
            },
        )
    }
}

/// The parameter after an install that was refused: with the record saved
/// if only the write was refused, else as it was.
pub open spec fn after_failed_install(p: HostParamView, e: InstallError) -> HostParamView {
    if e == InstallError::SetRejected {
        HostParamView { backup: Some(first_line_of(query_output_of(p))), ..p }
    } else {
        p
    }
}

/// Restore of one parameter: refused without a backup record; otherwise the
/// record is written back and, once the host has accepted it, consumed.
pub open spec fn spec_restore(p: HostParamView) -> Result<HostParamView, RestoreError> {
    match p.backup {
        None => Err(RestoreError::MissingBackup),
        Some(b) => if p.writable {
            Ok(HostParamView { live: b, backup: None, writes: p.writes.push(b), writable: true })
        } else {
            Err(RestoreError::SetRejected)
        },
    }
}

/// The parameter after a best-effort restore: restored, or left as it was.
pub open spec fn restored_or_kept(p: HostParamView) -> HostParamView {
    match spec_restore(p) {
        Ok(q) => q,
        Err(_) => p,
    }
}

impl HostParam {
    pub fn new(live: &str) -> (r: HostParam)
        ensures
            r@.live == live@,
            r@.backup is None,
            r@.writes.len() == 0,
            r@.writable,
    {
        HostParam { live: String::from_str(live), backup: None, writes: Vec::new(), writable: true }
    }

    /// What the host's query prints for this parameter.
    pub fn query(&self) -> (r: String)
        ensures
            r@ == query_output_of(self@),
    {
        let mut r = self.live.clone();
        r.append("\n");
        proof {
            reveal_strlit("\n");
        }
        r
    }

    /// Writes `value` if the host accepts writes to this parameter.
    fn set(&mut self, value: String) -> (ok: bool)
        ensures
            ok == old(self).writable,
            final(self)@ == if ok {
                HostParamView {
                    live: value@,
                    writes: old(self)@.writes.push(value@),
                    ..old(self)@
                }
            } else {
                old(self)@
            },
    {
        if !self.writable {
            return false;
        }
        self.writes.push(value.clone());
        self.live = value;
        assert(self@.writes =~= old(self)@.writes.push(value@));
        true
    }

    /// Backs up this parameter and overrides it with `managed`.
    pub fn install(&mut self, managed: &str) -> (r: Result<(), InstallError>)
        ensures
            match spec_install(old(self)@, managed@) {
                Ok(q) => r is Ok && final(self)@ == q,
                Err(e) => r == Err::<(), InstallError>(e) && final(self)@ == after_failed_install(
                    old(self)@,
                    e,
                ),
            },
    {
        let out = self.query();
        match plan_install(self.backup.is_some(), out.as_str()) {
            Ok(line) => {
                self.backup = Some(line);
                if self.set(String::from_str(managed)) {
                    Ok(())
                } else {
                    Err(InstallError::SetRejected)
                }
            },
            Err(e) => Err(e),
        }
    }

    /// Writes the backup record back and consumes it.
    pub fn restore(&mut self) -> (r: Result<(), RestoreError>)
        ensures
            match spec_restore(old(self)@) {
                Ok(q) => r is Ok && final(self)@ == q,
                Err(e) => r == Err::<(), RestoreError>(e) && final(self)@ == old(self)@,
            },
    {
        match plan_restore(self.backup.clone()) {
            Ok(v) => {
                if self.set(v) {
                    self.backup = None;
                    Ok(())
                } else {
                    Err(RestoreError::SetRejected)
                }
            },
            Err(e) => Err(e),
        }
    }
}

/// Installing a single-line value and tearing it down again puts back
/// exactly the value that was live before, and leaves no backup record.
pub proof fn lemma_install_then_restore(p: HostParamView, managed: Seq<char>)
    requires
        p.backup is None,
        p.writable,
        is_single_line(p.live),
    ensures
        spec_install(p, managed) matches Ok(q) && spec_restore(q) matches Ok(t) && t.live == p.live
            && t.backup is None,
{
    lemma_first_line_of_printed(p.live);
}

/// Once a backup record is written, a second install is refused and so
/// leaves the record as it is, until a restore consumes it.
pub proof fn lemma_second_install_refused(p: HostParamView, first: Seq<char>, second: Seq<char>)
    requires
        spec_install(p, first) is Ok,
    ensures
        spec_install(spec_install(p, first)->Ok_0, second) == Err::<HostParamView, InstallError>(
            InstallError::BackupPresent,
        ),
{
}

/// A host's three managed parameters.
pub struct Host {
    pub core_pattern: HostParam,
    pub core_pipe_limit: HostParam,
    pub suid_dumpable: HostParam,
}

pub struct HostView {
    pub core_pattern: HostParamView,
    pub core_pipe_limit: HostParamView,
    pub suid_dumpable: HostParamView,
}

impl HostView {
    pub open spec fn param(self, p: ManagedParam) -> HostParamView {
        match p {
            ManagedParam::CorePattern => self.core_pattern,
            ManagedParam::CorePipeLimit => self.core_pipe_limit,
            ManagedParam::SuidDumpable => self.suid_dumpable,
        }
    }
}

impl View for Host {
    type V = HostView;

    open spec fn view(&self) -> HostView {
        HostView {
            core_pattern: self.core_pattern@,
            core_pipe_limit: self.core_pipe_limit@,
            suid_dumpable: self.suid_dumpable@,
        }
    }
}

/// The managed parameters that a teardown cannot restore, in teardown
/// order: those without a backup record, and those whose write is refused.
pub open spec fn unrestorable(h: HostView) -> Seq<ManagedParam> {
    spec_all_params().filter(|p: ManagedParam| spec_restore(h.param(p)) is Err)
}

/// Whether installing `p` on `h` goes through.
pub open spec fn install_ok(h: HostView, p: ManagedParam, host_dir: Seq<char>, suid: Seq<char>) -> bool {
    spec_install(h.param(p), managed_value_of(p, host_dir, suid)) is Ok
}

/// Whether a sequential install reaches `p`: every parameter before it in
/// install order went through.
pub open spec fn install_reaches(h: HostView, p: ManagedParam, host_dir: Seq<char>, suid: Seq<char>) -> bool {
    match p {
        ManagedParam::CorePattern => true,
        ManagedParam::CorePipeLimit => install_ok(h, ManagedParam::CorePattern, host_dir, suid),
        ManagedParam::SuidDumpable => install_ok(h, ManagedParam::CorePattern, host_dir, suid)
            && install_ok(h, ManagedParam::CorePipeLimit, host_dir, suid),
    }
}

/// The parameter after an install attempt, whether it went through or not.
pub open spec fn after_install(p: HostParamView, managed: Seq<char>) -> HostParamView {
    match spec_install(p, managed) {
        Ok(q) => q,
        Err(e) => after_failed_install(p, e),
    }
}

impl Host {
    /// Installs the three parameters in order, stopping at the first refusal,
    /// whose error is returned.
    /// `host_dir` is the managed directory, `suid` the dumpable mode to set.
    pub fn install_all(&mut self, host_dir: &str, suid: &str) -> (r: Result<(), InstallError>)
        ensures
            r is Ok <==> install_reaches(old(self)@, ManagedParam::SuidDumpable, host_dir@, suid@)
                && install_ok(old(self)@, ManagedParam::SuidDumpable, host_dir@, suid@),
            forall|p: ManagedParam|
                #![trigger install_reaches(old(self)@, p, host_dir@, suid@)]
                install_reaches(old(self)@, p, host_dir@, suid@) && !install_ok(
                    old(self)@,
                    p,
                    host_dir@,
                    suid@,
                ) ==> r == Err::<(), InstallError>(
                    spec_install(old(self)@.param(p), managed_value_of(p, host_dir@, suid@))->Err_0,
                ),
            forall|p: ManagedParam|
                #![trigger final(self)@.param(p)]
                final(self)@.param(p) == if install_reaches(old(self)@, p, host_dir@, suid@) {
                    after_install(old(self)@.param(p), managed_value_of(p, host_dir@, suid@))
                } else {
                    old(self)@.param(p)
                },
    {
        let v = managed_value(ManagedParam::CorePattern, host_dir, suid);
        let r = self.core_pattern.install(v.as_str());
        if r.is_err() {
            return r;
        }
        let v = managed_value(ManagedParam::CorePipeLimit, host_dir, suid);
        let r = self.core_pipe_limit.install(v.as_str());
        if r.is_err() {
            return r;
        }
        let v = managed_value(ManagedParam::SuidDumpable, host_dir, suid);
        self.suid_dumpable.install(v.as_str())
    }

    /// Restores every parameter from its backup record. A parameter that
    /// cannot be restored does not stop the others; the result then lists
    /// each such parameter, whose live value is left unwritten and whose
    /// record, if any, is kept.
    pub fn teardown(&mut self) -> (r: Result<(), Vec<ManagedParam>>)
        ensures
            forall|p: ManagedParam|
                #![trigger final(self)@.param(p)]
                final(self)@.param(p) == restored_or_kept(old(self)@.param(p)),
            r is Ok <==> unrestorable(old(self)@).len() == 0,
            r matches Err(m) ==> m@ == unrestorable(old(self)@),
    {
        let ghost h = self@;
        let mut failed: Vec<ManagedParam> = Vec::new();
        if self.core_pattern.restore().is_err() {
            failed.push(ManagedParam::CorePattern);
        }
        if self.core_pipe_limit.restore().is_err() {
            failed.push(ManagedParam::CorePipeLimit);
        }
        if self.suid_dumpable.restore().is_err() {
            failed.push(ManagedParam::SuidDumpable);
        }
        proof {
            let all = spec_all_params();
            reveal_with_fuel(Seq::filter, 4);
            assert(all.drop_last().drop_last().drop_last() =~= Seq::<ManagedParam>::empty());
            assert(all.drop_last().drop_last() =~= seq![ManagedParam::CorePattern]);
            assert(all.drop_last() =~= seq![ManagedParam::CorePattern, ManagedParam::CorePipeLimit]);
            assert(failed@ =~= unrestorable(h));
        }
        if failed.len() == 0 {
            Ok(())
        } else {
            Err(failed)
        }
    }
}

} // verus!
