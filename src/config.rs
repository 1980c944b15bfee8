//! The agent's configuration, gathered once from raw settings, and the
//! small texts and paths that the collaborators are given.
use vstd::prelude::*;
use vstd::string::StrSliceExecFns;
use vstd::string::StringExecFns;
use crate::text::{join_of, join_path};

verus! {

/// The managed directory used when none is configured.
pub open spec fn default_host_dir() -> Seq<char> {
    "/var/mnt/core-dump-handler"@
}

/// The dumpable mode installed when none is configured.
pub open spec fn default_suid() -> Seq<char> {
    "2"@
}

/// The poll interval, in milliseconds, used when none is configured.
pub const DEFAULT_INTERVAL_MS: u64 = 60000;

/// What `str::to_lowercase` makes of a text.
pub uninterp spec fn lower_of(s: Seq<char>) -> Seq<char>;

/// Relies on `str::to_lowercase`: the lower-case form of the text, which
/// depends on its characters alone; an empty text stays empty.
#[verifier::external_body]
fn lowercase(s: &str) -> (r: String)
    ensures
        r@ == lower_of(s@),
        s@.len() == 0 ==> r@.len() == 0,
{
    s.to_lowercase()
}

/// Whether a flag setting means "on": its lower-case form is `true`.
pub open spec fn flag_on(s: Seq<char>) -> bool {
    lower_of(s) == "true"@
}

pub fn flag_enabled(s: &str) -> (r: bool)
    ensures
        r == flag_on(s@),
{
    let l = lowercase(s);
    same_text(l.as_str(), "true")
}

/// What the agent was asked to do.
#[derive(PartialEq, Eq, Structural, Clone, Copy, Debug)]
pub enum Command {
    /// Install the overrides and harvest dumps until stopped.
    Install,
    /// Restore the host and remove the deployed files.
    Remove,
}

/// The command named by the first argument: `remove` tears down; anything
/// else, or no argument, installs.
pub fn command_of(arg: Option<&str>) -> (r: Command)
    ensures
        r == Command::Remove <==> (arg matches Some(a) && a@ == "remove"@),
{
    match arg {
        Some(a) => {
            proof {
                reveal_strlit("remove");
            }
            if same_text(a, "remove") {
                Command::Remove
            } else {
                Command::Install
            }
        },
        None => Command::Install,
    }
}

/// Whether two texts are equal.
pub fn same_text(a: &str, b: &str) -> (r: bool)
    ensures
        r == (a@ == b@),
{
    let n = a.unicode_len();
    if n != b.unicode_len() {
        return false;
    }
    let mut i: usize = 0;
    while i < n
        invariant
            n == a@.len(),
            n == b@.len(),
            0 <= i <= n,
            forall|j: int| 0 <= j < i ==> a@[j] == b@[j],
        decreases n - i,
    {
        if a.get_char(i) != b.get_char(i) {
            return false;
        }
        i = i + 1;
    }
    assert(a@ =~= b@);
    true
}

/// The value of a decimal digit.
pub open spec fn digit_value(c: char) -> nat {
    (c as u32 - '0' as u32) as nat
}

pub open spec fn is_digit(c: char) -> bool {
    '0' <= c && c <= '9'
}

/// The number that a string of decimal digits spells.
pub open spec fn decimal_value(s: Seq<char>) -> nat
    decreases s.len(),
{
    if s.len() == 0 {
        0
    } else {
        decimal_value(s.drop_last()) * 10 + digit_value(s.last())
    }
}

/// The digits of an unsigned number as its text form accepts them: an
/// optional `+`, then one digit or more.
pub open spec fn digits_of(s: Seq<char>) -> Seq<char> {
    if s.len() > 0 && s[0] == '+' {
        s.skip(1)
    } else {
        s
    }
}

pub open spec fn is_number(s: Seq<char>) -> bool {
    let d = digits_of(s);
    d.len() > 0 && forall|i: int| 0 <= i < d.len() ==> is_digit(d[i])
}

proof fn lemma_prefix_value_le(s: Seq<char>, j: int)
    requires
        0 <= j <= s.len(),
    ensures
        decimal_value(s.take(j)) <= decimal_value(s),
    decreases s.len() - j,
{
    if j < s.len() {
        lemma_prefix_value_le(s, j + 1);
        assert(s.take(j + 1).drop_last() =~= s.take(j));
    } else {
        assert(s.take(j) =~= s);
    }
}

/// Why a setting was refused.
#[derive(PartialEq, Eq, Structural, Clone, Copy, Debug)]
pub enum ConfigError {
    /// The poll interval is not an unsigned decimal number.
    BadInterval,
    /// The poll interval does not fit in 64 bits.
    IntervalTooLarge,
    /// The composer vendor is not one that is shipped.
    UnknownVendor,
}

/// Reads a poll interval in milliseconds.
pub fn parse_interval(s: &str) -> (r: Result<u64, ConfigError>)
    ensures
        !is_number(s@) <==> r == Err::<u64, ConfigError>(ConfigError::BadInterval),
        is_number(s@) && decimal_value(digits_of(s@)) > u64::MAX <==> r == Err::<u64, ConfigError>(
            ConfigError::IntervalTooLarge,
        ),
        r is Ok <==> is_number(s@) && decimal_value(digits_of(s@)) <= u64::MAX,
        r matches Ok(v) ==> v == decimal_value(digits_of(s@)),
{
    let n = s.unicode_len();
    let mut start: usize = 0;
    if n > 0 && s.get_char(0) == '+' {
        start = 1;
    }
    let ghost d = digits_of(s@);
    assert(d =~= s@.skip(start as int));
    if start == n {
        return Err(ConfigError::BadInterval);
    }
    let mut i: usize = start;
    while i < n
        invariant
            n == s@.len(),
            start < n,
            start <= i <= n,
            d == s@.skip(start as int),
            d == digits_of(s@),
            forall|j: int| 0 <= j < i - start ==> is_digit(d[j]),
        decreases n - i,
    {
        let c = s.get_char(i);
        if !('0' <= c && c <= '9') {
            assert(d[i - start] == c);
            return Err(ConfigError::BadInterval);
        }
        i = i + 1;
    }
    let mut v: u64 = 0;
    let mut i: usize = start;
    while i < n
        invariant
            n == s@.len(),
            start < n,
            start <= i <= n,
            d == s@.skip(start as int),
            d == digits_of(s@),
            d.len() == n - start,
            forall|j: int| 0 <= j < d.len() ==> is_digit(d[j]),
            v == decimal_value(d.take(i - start)),
        decreases n - i,
    {
        let c = s.get_char(i);
        assert(d[i - start] == c);
        assert(is_digit(d[i - start]));
        let k: u64 = ((c as u32) - ('0' as u32)) as u64;
        assert(d.take(i - start + 1).drop_last() =~= d.take(i - start));
        if v > (u64::MAX - k) / 10 {
            proof {
                assert(v * 10 + k > u64::MAX) by (nonlinear_arith)
                    requires v > (u64::MAX - k) / 10, k <= 9;
                lemma_prefix_value_le(d, i - start + 1);
            }
            return Err(ConfigError::IntervalTooLarge);
        }
        assert(v * 10 + k <= u64::MAX) by (nonlinear_arith)
            requires v <= (u64::MAX - k) / 10, k <= 9;
        v = v * 10 + k;
        i = i + 1;
    }
    assert(d.take(n - start) =~= d);
    Ok(v)
}

/// The build of the composer executable to deploy.
#[derive(PartialEq, Eq, Structural, Clone, Copy, Debug)]
pub enum Vendor {
    Default,
    Rhel7,
}

/// The vendor named by a setting whose lower-case form is `lowered`.
pub open spec fn vendor_named(lowered: Seq<char>) -> Option<Vendor> {
    if lowered == "default"@ {
        Some(Vendor::Default)
    } else if lowered == "rhel7"@ {
        Some(Vendor::Rhel7)
    } else {
        None
    }
}

/// The vendor named by an already lower-cased setting.
pub fn vendor_from_lowered(lowered: &str) -> (r: Option<Vendor>)
    ensures
        r == vendor_named(lowered@),
{
    if same_text(lowered, "default") {
        Some(Vendor::Default)
    } else if same_text(lowered, "rhel7") {
        Some(Vendor::Rhel7)
    } else {
        None
    }
}

impl Vendor {
    pub open spec fn spec_source(self) -> Seq<char> {
        match self {
            Vendor::Default => "./vendor/default/cdc"@,
            Vendor::Rhel7 => "./vendor/rhel7/cdc"@,
        }
    }

    /// Where the shipped composer executable of this vendor lies.
    pub fn composer_source(&self) -> (r: String)
        ensures
            r@ == self.spec_source(),
    {
        match self {
            Vendor::Default => String::from_str("./vendor/default/cdc"),
            Vendor::Rhel7 => String::from_str("./vendor/rhel7/cdc"),
        }
    }
}

/// The raw settings, as the environment gives them; `None` where unset.
pub struct Settings {
    pub host_dir: Option<String>,
    pub suid_dumpable: Option<String>,
    pub interval: Option<String>,
    pub deploy_crio_config: Option<String>,
    pub deploy_crio_exe: Option<String>,
    pub vendor: Option<String>,
}

/// The agent's configuration, fixed for the life of the process.
pub struct AgentConfig {
    pub host_dir: String,
    pub suid_dumpable: String,
    pub interval_ms: u64,
    pub deploy_crio_config: bool,
    pub deploy_crio_exe: bool,
    pub vendor: Vendor,
}

/// The view of a setting, with `default` in its place when it is unset.
pub open spec fn or_default(o: Option<String>, default: Seq<char>) -> Seq<char> {
    match o {
        Some(s) => s@,
        None => default,
    }
}

fn text_or(o: &Option<String>, default: &str) -> (r: String)
    ensures
        r@ == or_default(*o, default@),
{
    match o {
        Some(s) => s.clone(),
        None => String::from_str(default),
    }
}

/// The interval setting, or its default.
pub open spec fn interval_text(s: &Settings) -> Seq<char> {
    or_default(s.interval, "60000"@)
}

/// The vendor that the setting names, the default one when it is unset.
pub open spec fn vendor_setting(s: &Settings) -> Option<Vendor> {
    match s.vendor {
        Some(v) => vendor_named(lower_of(v@)),
        None => Some(Vendor::Default),
    }
}

/// Whether an optional flag setting is present and on.
pub open spec fn flag_set(o: Option<String>) -> bool {
    match o {
        Some(f) => flag_on(f@),
        None => false,
    }
}

/// Gathers the configuration from the raw settings. Unset settings take
/// their defaults: the standard managed directory, dumpable mode `2`, a
/// minute between passes, no optional deployments, the default vendor.
pub fn load_config(s: &Settings) -> (r: Result<AgentConfig, ConfigError>)
    ensures
        !is_number(interval_text(s)) ==> r == Err::<AgentConfig, ConfigError>(
            ConfigError::BadInterval,
        ),
        is_number(interval_text(s)) && decimal_value(digits_of(interval_text(s))) > u64::MAX ==> r
            == Err::<AgentConfig, ConfigError>(ConfigError::IntervalTooLarge),
        is_number(interval_text(s)) && decimal_value(digits_of(interval_text(s))) <= u64::MAX
            && vendor_setting(s) is None ==> r == Err::<AgentConfig, ConfigError>(
            ConfigError::UnknownVendor,
        ),
        r is Ok <==> is_number(interval_text(s)) && decimal_value(digits_of(interval_text(s)))
            <= u64::MAX && vendor_setting(s) is Some,
        r matches Ok(c) ==> c.host_dir@ == or_default(s.host_dir, default_host_dir())
            && c.suid_dumpable@ == or_default(s.suid_dumpable, default_suid()) && c.interval_ms
            == decimal_value(digits_of(interval_text(s))) && c.deploy_crio_config == flag_set(
            s.deploy_crio_config,
        ) && c.deploy_crio_exe == flag_set(s.deploy_crio_exe) && vendor_setting(s) == Some(
            c.vendor,
        ),
{
    let iv = text_or(&s.interval, "60000");
    let interval_ms = match parse_interval(iv.as_str()) {
        Ok(v) => v,
        Err(e) => {
            return Err(e);
        },
    };
    let vendor = match &s.vendor {
        Some(v) => {
            let l = lowercase(v.as_str());
            match vendor_from_lowered(l.as_str()) {
                Some(v) => v,
                None => {
                    return Err(ConfigError::UnknownVendor);
                },
            }
        },
        None => Vendor::Default,
    };
    let deploy_crio_config = match &s.deploy_crio_config {
        Some(f) => flag_enabled(f.as_str()),
        None => false,
    };
    let deploy_crio_exe = match &s.deploy_crio_exe {
        Some(f) => flag_enabled(f.as_str()),
        None => false,
    };
    Ok(
        AgentConfig {
            host_dir: text_or(&s.host_dir, "/var/mnt/core-dump-handler"),
            suid_dumpable: text_or(&s.suid_dumpable, "2"),
            interval_ms,
            deploy_crio_config,
            deploy_crio_exe,
            vendor,
        },
    )
}

/// Where the storage target lies: a region known by name, or a custom
/// endpoint.
pub enum RegionChoice {
    Named(String),
    Custom { region: String, endpoint: String },
}

/// A custom endpoint when one is given, else the region by its name.
pub fn region_choice(region: String, endpoint: String) -> (r: RegionChoice)
    ensures
        endpoint@.len() == 0 ==> (r matches RegionChoice::Named(n) && n@ == region@),
        endpoint@.len() > 0 ==> (r matches RegionChoice::Custom { region: g, endpoint: e } && g@
            == region@ && e@ == endpoint@),
{
    if endpoint.as_str().unicode_len() == 0 {
        RegionChoice::Named(region)
    } else {
        RegionChoice::Custom { region, endpoint }
    }
}

/// The settings file handed to the composer.
pub open spec fn env_file_text_of(
    log_level: Seq<char>,
    ignore_crio: Seq<char>,
    crio_image: Seq<char>,
    use_crio_conf: Seq<char>,
) -> Seq<char> {
    "LOG_LEVEL="@ + log_level + "\nIGNORE_CRIO="@ + lower_of(ignore_crio) + "\nCRIO_IMAGE_CMD="@
        + crio_image + "\nUSE_CRIO_CONF="@ + lower_of(use_crio_conf) + "\n"@
}

/// Writes out the composer's settings; the two flags are given in lower case.
pub fn env_file_text(log_level: &str, ignore_crio: &str, crio_image: &str, use_crio_conf: &str) -> (r:
    String)
    ensures
        r@ == env_file_text_of(log_level@, ignore_crio@, crio_image@, use_crio_conf@),
{
    let mut r = String::from_str("LOG_LEVEL=");
    r.append(log_level);
    r.append("\nIGNORE_CRIO=");
    let l = lowercase(ignore_crio);
    r.append(l.as_str());
    r.append("\nCRIO_IMAGE_CMD=");
    r.append(crio_image);
    r.append("\nUSE_CRIO_CONF=");
    let l = lowercase(use_crio_conf);
    r.append(l.as_str());
    r.append("\n");
    r
}

/// The drop directory under the managed directory.
pub open spec fn core_dir_of(host_dir: Seq<char>) -> Seq<char> {
    join_of(host_dir, "core"@)
}

pub fn core_dir(host_dir: &str) -> (r: String)
    ensures
        r@ == core_dir_of(host_dir@),
{
    join_path(host_dir, "core")
}

/// A file that install deploys under the managed directory, and whether
/// teardown must find it (optional ones are removed only where present).
pub struct DeployedFile {
    pub path: String,
    pub required: bool,
}

/// What teardown removes: the composer and its settings file, which install
/// always deploys, and the runtime CLI, its config and the composer's log,
/// which may be absent.
pub open spec fn deployed_files_of(host_dir: Seq<char>) -> Seq<(Seq<char>, bool)> {
    seq![
        (join_of(host_dir, "cdc"@), true),
        (join_of(host_dir, ".env"@), true),
        (join_of(host_dir, "crictl"@), false),
        (join_of(host_dir, "crictl.yaml"@), false),
        (join_of(host_dir, "composer.log"@), false),
    ]
}

pub fn deployed_files(host_dir: &str) -> (r: Vec<DeployedFile>)
    ensures
        r@.map_values(|f: DeployedFile| (f.path@, f.required)) == deployed_files_of(host_dir@),
{
    let r = vec![
        DeployedFile { path: join_path(host_dir, "cdc"), required: true },
        DeployedFile { path: join_path(host_dir, ".env"), required: true },
        DeployedFile { path: join_path(host_dir, "crictl"), required: false },
        DeployedFile { path: join_path(host_dir, "crictl.yaml"), required: false },
        DeployedFile { path: join_path(host_dir, "composer.log"), required: false },
    ];
    assert(r@.map_values(|f: DeployedFile| (f.path@, f.required)) =~= deployed_files_of(host_dir@));
    r
}

} // verus!
