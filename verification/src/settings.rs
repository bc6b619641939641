//! The application's configuration model: every section with its defaults,
//! the schema migration hook, and the clamping pass that keeps hand-edited
//! values inside their working ranges. Reading and writing the file on disk
//! happens outside the library.

use vstd::prelude::*;

verus! {

#[derive(Clone, Copy, Debug, PartialEq, Eq)]
pub enum Theme {
    Light,
    Dark,
    System,
}

impl Default for Theme {
    fn default() -> (r: Theme)
        ensures
            r is System,
    {
        Theme::System
    }
}

#[derive(Clone, Copy, Debug, PartialEq, Eq)]
pub enum Language {
    System,
    EN,
}

impl Default for Language {
    fn default() -> (r: Language)
        ensures
            r is System,
    {
        Language::System
    }
}

#[derive(Clone, Copy, Debug, PartialEq, Eq)]
pub enum UpdateChannel {
    Stable,
    Beta,
    Nightly,
}

impl Default for UpdateChannel {
    fn default() -> (r: UpdateChannel)
        ensures
            r is Stable,
    {
        UpdateChannel::Stable
    }
}

#[derive(Clone, Copy, Debug, PartialEq, Eq)]
pub enum GitBackend {
    System,
    Libgit2,
}

impl Default for GitBackend {
    fn default() -> (r: GitBackend)
        ensures
            r is System,
    {
        GitBackend::System
    }
}

#[derive(Clone, Copy, Debug, PartialEq, Eq)]
pub enum DefaultBackend {
    Git,
}

impl Default for DefaultBackend {
    fn default() -> (r: DefaultBackend)
        ensures
            r is Git,
    {
        DefaultBackend::Git
    }
}

#[derive(Clone, Copy, Debug, PartialEq, Eq)]
pub enum HookPolicy {
    Deny,
    Ask,
    Allow,
}

impl Default for HookPolicy {
    fn default() -> (r: HookPolicy)
        ensures
            r is Ask,
    {
        HookPolicy::Ask
    }
}

#[derive(Clone, Copy, Debug, PartialEq, Eq)]
pub enum CredentialHelper {
    OsKeychain,
    Disabled,
}

impl Default for CredentialHelper {
    fn default() -> (r: CredentialHelper)
        ensures
            r is OsKeychain,
    {
        CredentialHelper::OsKeychain
    }
}

#[derive(Clone, Copy, Debug, PartialEq, Eq)]
pub enum SshAgent {
    Env,
    OnePassword,
    Pageant,
    Disabled,
}

impl Default for SshAgent {
    fn default() -> (r: SshAgent)
        ensures
            r is Env,
    {
        SshAgent::Env
    }
}

#[derive(Clone, Copy, Debug, PartialEq, Eq)]
pub enum WhitespaceMode {
    Off,
    Eol,
    All,
}

impl Default for WhitespaceMode {
    fn default() -> (r: WhitespaceMode)
        ensures
            r is Off,
    {
        WhitespaceMode::Off
    }
}

#[derive(Clone, Copy, Debug, PartialEq, Eq)]
pub enum EditorChoice {
    System,
    Code,
    Clion,
    Rider,
    Neovim,
    Custom,
}

impl Default for EditorChoice {
    fn default() -> (r: EditorChoice)
        ensures
            r is System,
    {
        EditorChoice::System
    }
}

#[derive(Clone, Copy, Debug, PartialEq, Eq)]
pub enum IssueProvider {
    Auto,
    Github,
    Gitlab,
    Forgejo,
}

impl Default for IssueProvider {
    fn default() -> (r: IssueProvider)
        ensures
            r is Auto,
    {
        IssueProvider::Auto
    }
}

#[derive(Clone, Copy, Debug, PartialEq, Eq)]
pub enum ColorBlindMode {
    Off,
    Protanopia,
    Deuteranopia,
    Tritanopia,
}

impl Default for ColorBlindMode {
    fn default() -> (r: ColorBlindMode)
        ensures
            r is Off,
    {
        ColorBlindMode::Off
    }
}

#[derive(Clone, Copy, Debug, PartialEq, Eq)]
pub enum ForcePushPolicy {
    Always,
    TrackedRemotes,
    Never,
}

impl Default for ForcePushPolicy {
    fn default() -> (r: ForcePushPolicy)
        ensures
            r is Always,
    {
        ForcePushPolicy::Always
    }
}

#[derive(Clone, Copy, Debug, PartialEq, Eq)]
pub enum ProxyMode {
    System,
    Manual,
    Off,
}

impl Default for ProxyMode {
    fn default() -> (r: ProxyMode)
        ensures
            r is System,
    {
        ProxyMode::System
    }
}

#[derive(Clone, Copy, Debug, PartialEq, Eq)]
pub enum LogLevel {
    Trace,
    Debug,
    Info,
    Warn,
    Error,
}

impl Default for LogLevel {
    fn default() -> (r: LogLevel)
        ensures
            r is Info,
    {
        LogLevel::Info
    }
}

/// An external diff or merge tool hook.
#[derive(Clone, Debug, PartialEq, Eq)]
pub struct ExternalTool {
    pub enabled: bool,
    pub path: String,
    pub args: String,
}

impl ExternalTool {
    pub fn disabled() -> (r: ExternalTool)
        ensures
            !r.enabled,
            r.path@.len() == 0,
            r.args@.len() == 0,
    {
        ExternalTool { enabled: false, path: String::new(), args: String::new() }
    }
}

impl Default for ExternalTool {
    fn default() -> (r: ExternalTool)
        ensures
            !r.enabled,
            r.path@.len() == 0,
            r.args@.len() == 0,
    {
        ExternalTool::disabled()
    }
}

#[derive(Clone, Debug, PartialEq, Eq)]
pub struct Proxy {
    pub mode: ProxyMode,
    pub url: String,
}

impl Proxy {
    pub fn system() -> (r: Proxy)
        ensures
            r.mode is System,
            r.url@.len() == 0,
    {
        Proxy { mode: ProxyMode::System, url: String::new() }
    }
}

impl Default for Proxy {
    fn default() -> (r: Proxy)
        ensures
            r.mode is System,
            r.url@.len() == 0,
    {
        Proxy::system()
    }
}

#[derive(Clone, Debug, PartialEq, Eq)]
pub struct General {
    pub theme: Theme,
    pub language: Language,
    pub default_backend: DefaultBackend,
    pub update_channel: UpdateChannel,
    pub reopen_last_repos: bool,
    pub checks_on_launch: bool,
    pub telemetry: bool,
    pub crash_reports: bool,
}

impl Default for General {
    fn default() -> (r: General)
        ensures
            r.theme is System,
            r.language is System,
            r.default_backend is Git,
            r.update_channel is Stable,
            r.reopen_last_repos,
            r.checks_on_launch,
            !r.telemetry,
            !r.crash_reports,
    {
        General {
            theme: Theme::System,
            language: Language::System,
            default_backend: DefaultBackend::Git,
            update_channel: UpdateChannel::Stable,
            reopen_last_repos: true,
            checks_on_launch: true,
            telemetry: false,
            crash_reports: false,
        }
    }
}

#[derive(Clone, Debug, PartialEq, Eq)]
pub struct Git {
    pub backend: GitBackend,
    /// Branch name used when creating new repositories.
    pub default_branch: String,
    pub prune_on_fetch: bool,
    pub allow_hooks: HookPolicy,
    pub respect_core_autocrlf: bool,
}

impl Default for Git {
    fn default() -> (r: Git)
        ensures
            r.backend is System,
            r.default_branch@ == "main"@,
            r.prune_on_fetch,
            r.allow_hooks is Ask,
            r.respect_core_autocrlf,
    {
        Git {
            backend: GitBackend::System,
            default_branch: "main".to_owned(),
            prune_on_fetch: true,
            allow_hooks: HookPolicy::Ask,
            respect_core_autocrlf: true,
        }
    }
}

#[derive(Clone, Debug, PartialEq, Eq)]
pub struct Credentials {
    pub helper: CredentialHelper,
    pub ssh_agent: SshAgent,
    /// Keys to try, in order; tilde expansion happens at use.
    pub ssh_key_paths: Vec<String>,
    pub gpg_program: String,
    pub sign_commits: bool,
    pub signing_key: String,
}

impl Default for Credentials {
    fn default() -> (r: Credentials)
        ensures
            r.helper is OsKeychain,
            r.ssh_agent is Env,
            r.ssh_key_paths@.len() == 2,
            r.gpg_program@ == "gpg"@,
            !r.sign_commits,
            r.signing_key@.len() == 0,
    {
        let mut keys: Vec<String> = Vec::new();
        keys.push("~/.ssh/id_ed25519".to_owned());
        keys.push("~/.ssh/id_rsa".to_owned());
        Credentials {
            helper: CredentialHelper::OsKeychain,
            ssh_agent: SshAgent::Env,
            ssh_key_paths: keys,
            gpg_program: "gpg".to_owned(),
            sign_commits: false,
            signing_key: String::new(),
        }
    }
}

#[derive(Clone, Debug, PartialEq, Eq)]
pub struct DiffPrefs {
    pub tab_width: u8,
    pub ignore_whitespace: WhitespaceMode,
    pub max_file_size_mb: u32,
    pub intraline: bool,
    pub show_binary_placeholders: bool,
    pub external_diff: ExternalTool,
    pub external_merge: ExternalTool,
    /// Extensions (without the dot) treated as binary.
    pub binary_exts: Vec<String>,
}

impl Default for DiffPrefs {
    fn default() -> (r: DiffPrefs)
        ensures
            r.tab_width == 4,
            r.ignore_whitespace is Off,
            r.max_file_size_mb == 10,
            r.intraline,
            r.show_binary_placeholders,
            !r.external_diff.enabled,
            !r.external_merge.enabled,
            r.binary_exts@.len() == 4,
    {
        let mut exts: Vec<String> = Vec::new();
        exts.push("png".to_owned());
        exts.push("jpg".to_owned());
        exts.push("dds".to_owned());
        exts.push("uasset".to_owned());
        DiffPrefs {
            tab_width: 4,
            ignore_whitespace: WhitespaceMode::Off,
            max_file_size_mb: 10,
            intraline: true,
            show_binary_placeholders: true,
            external_diff: ExternalTool::disabled(),
            external_merge: ExternalTool::disabled(),
            binary_exts: exts,
        }
    }
}

#[derive(Clone, Debug, PartialEq, Eq)]
pub struct Lfs {
    pub enabled: bool,
    pub concurrency: u8,
    pub require_lock_before_edit: bool,
    pub background_fetch_on_checkout: bool,
}

impl Default for Lfs {
    fn default() -> (r: Lfs)
        ensures
            r.enabled,
            r.concurrency == 4,
            !r.require_lock_before_edit,
            r.background_fetch_on_checkout,
    {
        Lfs {
            enabled: true,
            concurrency: 4,
            require_lock_before_edit: false,
            background_fetch_on_checkout: true,
        }
    }
}

#[derive(Clone, Debug, PartialEq, Eq)]
pub struct Performance {
    pub progressive_render: bool,
    pub gpu_accel: bool,
}

impl Default for Performance {
    fn default() -> (r: Performance)
        ensures
            r.progressive_render,
            r.gpu_accel,
    {
        Performance { progressive_render: true, gpu_accel: true }
    }
}

#[derive(Clone, Debug, PartialEq, Eq)]
pub struct Integrations {
    pub default_editor: EditorChoice,
    pub issue_provider: IssueProvider,
    /// Host to provider overrides, `host` to provider, one entry per host.
    pub host_overrides: Vec<(String, IssueProvider)>,
}

impl Default for Integrations {
    fn default() -> (r: Integrations)
        ensures
            r.default_editor is System,
            r.issue_provider is Auto,
            r.host_overrides@.len() == 0,
    {
        Integrations {
            default_editor: EditorChoice::System,
            issue_provider: IssueProvider::Auto,
            host_overrides: Vec::new(),
        }
    }
}

#[derive(Clone, Debug, PartialEq, Eq)]
pub struct Ux {
    /// Interface scale in thousandths; 1000 is the native size.
    pub ui_scale_permille: u32,
    pub font_mono: String,
    pub vim_nav: bool,
    pub color_blind_mode: ColorBlindMode,
    /// Bound on the most-recently-used repository list.
    pub recents_limit: u32,
}

impl Default for Ux {
    fn default() -> (r: Ux)
        ensures
            r.ui_scale_permille == 1000,
            r.font_mono@ == "monospace"@,
            !r.vim_nav,
            r.color_blind_mode is Off,
            r.recents_limit == 10,
    {
        Ux {
            ui_scale_permille: 1000,
            font_mono: "monospace".to_owned(),
            vim_nav: false,
            color_blind_mode: ColorBlindMode::Off,
            recents_limit: 10,
        }
    }
}

#[derive(Clone, Debug, PartialEq, Eq)]
pub struct Advanced {
    pub confirm_force_push: ForcePushPolicy,
    pub ssl_verify: bool,
    pub proxy: Proxy,
}

impl Default for Advanced {
    fn default() -> (r: Advanced)
        ensures
            r.confirm_force_push is Always,
            r.ssl_verify,
            r.proxy.mode is System,
    {
        Advanced { confirm_force_push: ForcePushPolicy::Always, ssl_verify: true, proxy: Proxy::system() }
    }
}

#[derive(Clone, Debug, PartialEq, Eq)]
pub struct Experimental {
    pub parallel_history_scan: bool,
    pub background_blame_index: bool,
    pub sparse_checkout_ui: bool,
}

impl Default for Experimental {
    fn default() -> (r: Experimental)
        ensures
            !r.parallel_history_scan,
            !r.background_blame_index,
            !r.sparse_checkout_ui,
    {
        Experimental {
            parallel_history_scan: false,
            background_blame_index: false,
            sparse_checkout_ui: false,
        }
    }
}

#[derive(Clone, Debug, PartialEq, Eq)]
pub struct Logging {
    pub level: LogLevel,
    /// Show a live diagnostics pane in the application.
    pub live_viewer: bool,
    /// Archived log files kept after rotation.
    pub retain_archives: u32,
}

impl Default for Logging {
    fn default() -> (r: Logging)
        ensures
            r.level is Info,
            !r.live_viewer,
            r.retain_archives == 10,
    {
        Logging { level: LogLevel::Info, live_viewer: false, retain_archives: 10 }
    }
}

/// The serde fallback for `retain_archives` when the field is absent.
pub fn default_retain_archives() -> (r: u32)
    ensures
        r == 10,
{
    10
}

#[derive(Clone, Debug, PartialEq, Eq)]
pub struct Network {
    pub http_low_speed_time_secs: u64,
    /// Bytes per second under which a transfer counts as stalled.
    pub http_low_speed_limit: u32,
    pub extra_ssl_roots: Vec<String>,
}

impl Default for Network {
    fn default() -> (r: Network)
        ensures
            r.http_low_speed_time_secs == 30,
            r.http_low_speed_limit == 1024,
            r.extra_ssl_roots@.len() == 0,
    {
        Network {
            http_low_speed_time_secs: 30,
            http_low_speed_limit: 1024,
            extra_ssl_roots: Vec::new(),
        }
    }
}

impl Network {
    /// The stall timeout in whole seconds.
    pub fn http_low_speed_time(&self) -> (r: u64)
        ensures
            r == self.http_low_speed_time_secs,
    {
        self.http_low_speed_time_secs
    }
}

#[derive(Clone, Debug, PartialEq, Eq)]
pub struct AppConfig {
    pub schema_version: u32,
    pub general: General,
    pub git: Git,
    pub credentials: Credentials,
    pub diff: DiffPrefs,
    pub lfs: Lfs,
    pub performance: Performance,
    pub integrations: Integrations,
    pub ux: Ux,
    pub advanced: Advanced,
    pub experimental: Experimental,
    pub logging: Logging,
    pub network: Network,
}

impl Default for AppConfig {
    fn default() -> (r: AppConfig)
        ensures
            r.schema_version == 1,
            config_validated(r),
    {
        AppConfig {
            schema_version: 1,
            general: Default::default(),
            git: Default::default(),
            credentials: Default::default(),
            diff: Default::default(),
            lfs: Default::default(),
            performance: Default::default(),
            integrations: Default::default(),
            ux: Default::default(),
            advanced: Default::default(),
            experimental: Default::default(),
            logging: Default::default(),
            network: Default::default(),
        }
    }
}

/// Clamp to a closed range.
pub open spec fn spec_clamp(x: int, lo: int, hi: int) -> int {
    if x < lo {
        lo
    } else if x > hi {
        hi
    } else {
        x
    }
}

fn clamp_u8(x: u8, lo: u8, hi: u8) -> (r: u8)
    requires
        lo <= hi,
    ensures
        r == spec_clamp(x as int, lo as int, hi as int),
{
    if x < lo {
        lo
    } else if x > hi {
        hi
    } else {
        x
    }
}

fn clamp_u32(x: u32, lo: u32, hi: u32) -> (r: u32)
    requires
        lo <= hi,
    ensures
        r == spec_clamp(x as int, lo as int, hi as int),
{
    if x < lo {
        lo
    } else if x > hi {
        hi
    } else {
        x
    }
}

fn clamp_u64(x: u64, lo: u64, hi: u64) -> (r: u64)
    requires
        lo <= hi,
    ensures
        r == spec_clamp(x as int, lo as int, hi as int),
{
    if x < lo {
        lo
    } else if x > hi {
        hi
    } else {
        x
    }
}

/// Every bounded field sits inside its working range.
pub open spec fn config_validated(c: AppConfig) -> bool {
    &&& 1 <= c.diff.tab_width <= 16
    &&& 1 <= c.diff.max_file_size_mb <= 1024
    &&& 1 <= c.lfs.concurrency <= 16
    &&& 1 <= c.network.http_low_speed_time_secs <= 600
    &&& 128 <= c.network.http_low_speed_limit <= 10000000
    &&& 1 <= c.ux.recents_limit <= 100
    &&& 1 <= c.logging.retain_archives <= 100
}

impl AppConfig {
    /// Step the schema forward; version 1 is current, nothing moves yet.
    pub fn migrate(&mut self)
        ensures
            *final(self) == *old(self),
    {
    }

    /// Clamp every bounded field into its working range; everything else is
    /// kept as it stands.
    pub fn validate(&mut self)
        ensures
            final(self).diff.tab_width == spec_clamp(old(self).diff.tab_width as int, 1, 16),
            final(self).diff.max_file_size_mb == spec_clamp(
                old(self).diff.max_file_size_mb as int,
                1,
                1024,
            ),
            final(self).lfs.concurrency == spec_clamp(old(self).lfs.concurrency as int, 1, 16),
            final(self).network.http_low_speed_time_secs == spec_clamp(
                old(self).network.http_low_speed_time_secs as int,
                1,
                600,
            ),
            final(self).network.http_low_speed_limit == spec_clamp(
                old(self).network.http_low_speed_limit as int,
                128,
                10000000,
            ),
            final(self).ux.recents_limit == spec_clamp(old(self).ux.recents_limit as int, 1, 100),
            final(self).logging.retain_archives == spec_clamp(
                old(self).logging.retain_archives as int,
                1,
                100,
            ),
            config_validated(*final(self)),
            final(self).schema_version == old(self).schema_version,
            final(self).general == old(self).general,
            final(self).git == old(self).git,
            final(self).credentials == old(self).credentials,
            final(self).integrations == old(self).integrations,
            final(self).advanced == old(self).advanced,
            final(self).experimental == old(self).experimental,
            final(self).diff.ignore_whitespace == old(self).diff.ignore_whitespace,
            final(self).ux.ui_scale_permille == old(self).ux.ui_scale_permille,
            final(self).logging.level == old(self).logging.level,
    {
        self.diff.tab_width = clamp_u8(self.diff.tab_width, 1, 16);
        self.diff.max_file_size_mb = clamp_u32(self.diff.max_file_size_mb, 1, 1024);
        self.lfs.concurrency = clamp_u8(self.lfs.concurrency, 1, 16);
        self.network.http_low_speed_time_secs = clamp_u64(
            self.network.http_low_speed_time_secs,
            1,
            600,
        );
        self.network.http_low_speed_limit = clamp_u32(
            self.network.http_low_speed_limit,
            128,
            10000000,
        );
        self.ux.recents_limit = clamp_u32(self.ux.recents_limit, 1, 100);
        if self.logging.retain_archives == 0 {
            self.logging.retain_archives = 1;
        }
        self.logging.retain_archives = clamp_u32(self.logging.retain_archives, 1, 100);
    }
}

} // verus!
