//! The registry model: service records, settings and the registry aggregate.

use vstd::prelude::*;
use crate::text::{chars_of, string_of, text_eq};

verus! {

/// Schema version written by this library.
pub const CURRENT_CONFIG_VERSION: u32 = 1;

/// Default restart timeout in seconds.
pub const DEFAULT_RESTART_TIMEOUT_SECS: u64 = 10;

/// A point in time: whole seconds since the Unix epoch and the nanoseconds past them.
#[derive(Debug, Clone, Copy, PartialEq, Eq, Structural)]
pub struct Timestamp {
    pub secs: i64,
    pub nanos: u32,
}

/// Relies on `chrono::Utc::now`, read as seconds and sub-second nanoseconds.
#[verifier::external_body]
pub(crate) fn now() -> (r: Timestamp) {
    let t = chrono::Utc::now();
    Timestamp { secs: t.timestamp(), nanos: t.timestamp_subsec_nanos() }
}

/// Relies on `uuid::Uuid::new_v4`: a random identifier, as its 128-bit value.
#[verifier::external_body]
pub(crate) fn new_service_id() -> (r: u128) {
    uuid::Uuid::new_v4().as_u128()
}

/// The lower-case hexadecimal digit of a value below sixteen.
pub open spec fn hex_char(d: nat) -> char {
    if d < 10 {
        ((d + 48) as u32) as char
    } else {
        ((d + 87) as u32) as char
    }
}

/// The last `n` hexadecimal digits of `v`, most significant first.
pub open spec fn hex_digits(v: nat, n: nat) -> Seq<char>
    decreases n,
{
    if n == 0 {
        seq![]
    } else {
        hex_digits(v / 16, (n - 1) as nat).push(hex_char(v % 16))
    }
}

pub open spec fn pow16(n: nat) -> nat
    decreases n,
{
    if n == 0 { 1 } else { 16 * pow16((n - 1) as nat) }
}

/// The hyphenated lower-case text of an identifier: its 32 hexadecimal
/// digits, most significant first, in groups of 8, 4, 4, 4 and 12.
pub open spec fn uuid_text(id: u128) -> Seq<char> {
    let d = hex_digits(id as nat, 32);
    d.subrange(0, 8) + seq!['-'] + d.subrange(8, 12) + seq!['-'] + d.subrange(12, 16) + seq!['-']
        + d.subrange(16, 20) + seq!['-'] + d.subrange(20, 32)
}

proof fn lemma_hex_digits_len(v: nat, n: nat)
    ensures
        hex_digits(v, n).len() == n,
    decreases n,
{
    if n > 0 {
        lemma_hex_digits_len(v / 16, (n - 1) as nat);
    }
}

proof fn lemma_hex_char_injective(a: nat, b: nat)
    requires
        a < 16,
        b < 16,
        hex_char(a) == hex_char(b),
    ensures
        a == b,
{
}

proof fn lemma_hex_digits_injective(a: nat, b: nat, n: nat)
    requires
        a < pow16(n),
        b < pow16(n),
        hex_digits(a, n) == hex_digits(b, n),
    ensures
        a == b,
    decreases n,
{
    if n > 0 {
        let m = (n - 1) as nat;
        let p = pow16(m);
        assert(a / 16 < p) by (nonlinear_arith)
            requires a < 16 * p;
        assert(b / 16 < p) by (nonlinear_arith)
            requires b < 16 * p;
        assert(hex_digits(a / 16, m) == hex_digits(a, n).drop_last());
        assert(hex_digits(b / 16, m) == hex_digits(b, n).drop_last());
        lemma_hex_digits_injective(a / 16, b / 16, m);
        assert(hex_digits(a, n).last() == hex_char(a % 16));
        assert(hex_digits(b, n).last() == hex_char(b % 16));
        lemma_hex_char_injective(a % 16, b % 16);
    }
}

/// Distinct identities have distinct texts.
pub proof fn lemma_uuid_text_injective(a: u128, b: u128)
    requires
        uuid_text(a) == uuid_text(b),
    ensures
        a == b,
{
    let da = hex_digits(a as nat, 32);
    let db = hex_digits(b as nat, 32);
    lemma_hex_digits_len(a as nat, 32);
    lemma_hex_digits_len(b as nat, 32);
    let ta = uuid_text(a);
    let tb = uuid_text(b);
    assert forall|i: int| 0 <= i < 32 implies da[i] == db[i] by {
        let k = if i < 8 { i } else if i < 12 { i + 1 } else if i < 16 { i + 2 } else if i < 20 { i + 3 } else { i + 4 };
        assert(ta[k] == da[i]);
        assert(tb[k] == db[i]);
    }
    assert(da =~= db);
    reveal_with_fuel(pow16, 33);
    assert(pow16(32) == 0x1_0000_0000_0000_0000_0000_0000_0000_0000);
    lemma_hex_digits_injective(a as nat, b as nat, 32);
}

/// Relies on `uuid::Uuid::from_u128` (the value's bytes, most significant
/// first) and `Uuid`'s `Display`: the hyphenated lower-case hexadecimal form.
#[verifier::external_body]
pub(crate) fn id_text(id: u128) -> (r: String)
    ensures
        r@ == uuid_text(id),
{
    uuid::Uuid::from_u128(id).to_string()
}

/// The session backend a service runs under.
#[derive(Debug, Clone, Copy, PartialEq, Eq, Structural)]
pub enum RunnerType {
    Tmux,
    Screen,
    Direct,
}

/// The lower-case form of a text.
pub uninterp spec fn lowercase(s: Seq<char>) -> Seq<char>;

/// Whether every character of `s` is ASCII.
pub open spec fn all_ascii(s: Seq<char>) -> bool {
    forall|i: int| 0 <= i < s.len() ==> (#[trigger] s[i] as u32) < 128
}

/// The lower-case form of `s`, spelled out for ASCII text.
pub open spec fn case_folded(s: Seq<char>) -> Seq<char> {
    if all_ascii(s) {
        s.map_values(|c: char| ascii_lower(c))
    } else {
        lowercase(s)
    }
}

/// `c` with an ASCII capital letter made small.
pub open spec fn ascii_lower(c: char) -> char {
    if 'A' <= c && c <= 'Z' {
        ((c as u32) + 32) as char
    } else {
        c
    }
}

/// Relies on `str::to_lowercase`: the result depends on the characters
/// alone, and on ASCII text it makes `A`-`Z` small and keeps the rest.
#[verifier::external_body]
pub(crate) fn to_lower(s: &str) -> (r: String)
    ensures
        r@ == lowercase(s@),
        all_ascii(s@) ==> r@ == s@.map_values(|c: char| ascii_lower(c)),
{
    s.to_lowercase()
}

/// The name a runner type is written as.
pub open spec fn runner_type_name(t: RunnerType) -> Seq<char> {
    match t {
        RunnerType::Tmux => "tmux"@,
        RunnerType::Screen => "screen"@,
        RunnerType::Direct => "direct"@,
    }
}

/// The runner type a lower-case name denotes.
pub open spec fn runner_type_named(s: Seq<char>) -> Option<RunnerType> {
    if s == "tmux"@ {
        Some(RunnerType::Tmux)
    } else if s == "screen"@ {
        Some(RunnerType::Screen)
    } else if s == "direct"@ {
        Some(RunnerType::Direct)
    } else {
        None
    }
}

impl RunnerType {
    /// The name the type is written as: `tmux`, `screen` or `direct`.
    pub fn to_string(&self) -> (r: String)
        ensures
            r@ == runner_type_name(*self),
    {
        match self {
            RunnerType::Tmux => String::from_str("tmux"),
            RunnerType::Screen => String::from_str("screen"),
            RunnerType::Direct => String::from_str("direct"),
        }
    }

    /// The type named by an already lower-cased text.
    pub fn from_lowercase(s: &str) -> (r: Option<RunnerType>)
        ensures
            r == runner_type_named(s@),
    {
        if text_eq(s, "tmux") {
            Some(RunnerType::Tmux)
        } else if text_eq(s, "screen") {
            Some(RunnerType::Screen)
        } else if text_eq(s, "direct") {
            Some(RunnerType::Direct)
        } else {
            None
        }
    }

    /// Reads a runner type, ignoring case; the error names the rejected text.
    pub fn parse(s: &str) -> (r: Result<RunnerType, String>)
        ensures
            match runner_type_named(case_folded(s@)) {
                Some(t) => r == Ok::<RunnerType, String>(t),
                None => r.is_err() && r->Err_0@ == "Invalid runner type: "@ + s@,
            },
    {
        let lower = to_lower(s);
        match RunnerType::from_lowercase(lower.as_str()) {
            Some(t) => Ok(t),
            None => Err(String::from_str("Invalid runner type: ").concat(s)),
        }
    }

    /// The default backend, tmux.
    pub fn default_type() -> (r: RunnerType)
        ensures
            r == RunnerType::Tmux,
    {
        RunnerType::Tmux
    }
}

impl std::str::FromStr for RunnerType {
    type Err = String;

    fn from_str(s: &str) -> Result<RunnerType, String> {
        RunnerType::parse(s)
    }
}

/// What happens to running services when the supervisor shuts down.
#[derive(Debug, Clone, Copy, PartialEq, Eq, Structural)]
pub enum ShutdownBehavior {
    StopAll,
    LeaveRunning,
}

/// `s` with every `-` written as `_`.
pub open spec fn dashes_to_underscores(s: Seq<char>) -> Seq<char> {
    s.map_values(|c: char| if c == '-' { '_' } else { c })
}

pub open spec fn shutdown_behavior_name(b: ShutdownBehavior) -> Seq<char> {
    match b {
        ShutdownBehavior::StopAll => "stop_all"@,
        ShutdownBehavior::LeaveRunning => "leave_running"@,
    }
}

/// The behaviour a normalised name denotes.
pub open spec fn shutdown_behavior_named(s: Seq<char>) -> Option<ShutdownBehavior> {
    if s == "stop_all"@ || s == "stopall"@ {
        Some(ShutdownBehavior::StopAll)
    } else if s == "leave_running"@ || s == "leaverunning"@ {
        Some(ShutdownBehavior::LeaveRunning)
    } else {
        None
    }
}

fn underscored(s: &str) -> (r: String)
    ensures
        r@ == dashes_to_underscores(s@),
{
    let cs = chars_of(s);
    let mut out: Vec<char> = Vec::new();
    let mut i: usize = 0;
    while i < cs.len()
        invariant
            cs@ == s@,
            i <= cs@.len(),
            out@ == dashes_to_underscores(s@.take(i as int)),
        decreases cs@.len() - i,
    {
        out.push(if cs[i] == '-' { '_' } else { cs[i] });
        i = i + 1;
        assert(out@ =~= dashes_to_underscores(s@.take(i as int)));
    }
    assert(s@.take(s@.len() as int) =~= s@);
    string_of(&out)
}

impl ShutdownBehavior {
    /// The name the behaviour is written as: `stop_all` or `leave_running`.
    pub fn to_string(&self) -> (r: String)
        ensures
            r@ == shutdown_behavior_name(*self),
    {
        match self {
            ShutdownBehavior::StopAll => String::from_str("stop_all"),
            ShutdownBehavior::LeaveRunning => String::from_str("leave_running"),
        }
    }

    /// The behaviour named by a lower-cased text with `_` for `-`.
    pub fn from_normalized(s: &str) -> (r: Option<ShutdownBehavior>)
        ensures
            r == shutdown_behavior_named(s@),
    {
        if text_eq(s, "stop_all") || text_eq(s, "stopall") {
            Some(ShutdownBehavior::StopAll)
        } else if text_eq(s, "leave_running") || text_eq(s, "leaverunning") {
            Some(ShutdownBehavior::LeaveRunning)
        } else {
            None
        }
    }

    /// Reads a behaviour, ignoring case and accepting `-` for `_`.
    pub fn parse(s: &str) -> (r: Result<ShutdownBehavior, String>)
        ensures
            match shutdown_behavior_named(dashes_to_underscores(case_folded(s@))) {
                Some(b) => r == Ok::<ShutdownBehavior, String>(b),
                None => r.is_err() && r->Err_0@ == "Invalid shutdown behavior: "@ + s@,
            },
    {
        let lower = to_lower(s);
        let norm = underscored(lower.as_str());
        match ShutdownBehavior::from_normalized(norm.as_str()) {
            Some(b) => Ok(b),
            None => Err(String::from_str("Invalid shutdown behavior: ").concat(s)),
        }
    }
}

impl std::str::FromStr for ShutdownBehavior {
    type Err = String;

    fn from_str(s: &str) -> Result<ShutdownBehavior, String> {
        ShutdownBehavior::parse(s)
    }
}

/// Supervisor-wide settings.
#[derive(Debug, Clone, Copy, PartialEq, Eq, Structural)]
pub struct AppSettings {
    /// Backend for new services.
    pub default_runner: RunnerType,
    /// Behaviour on shutdown; read by the command layer.
    pub shutdown_behavior: ShutdownBehavior,
    /// Seconds a restart waits for the service to stop; positive.
    pub restart_timeout_secs: u64,
}

pub open spec fn default_settings() -> AppSettings {
    AppSettings {
        default_runner: RunnerType::Tmux,
        shutdown_behavior: ShutdownBehavior::StopAll,
        restart_timeout_secs: DEFAULT_RESTART_TIMEOUT_SECS,
    }
}

impl AppSettings {
    /// tmux, stop all on shutdown, a ten-second restart timeout.
    pub fn new() -> (r: AppSettings)
        ensures
            r == default_settings(),
    {
        AppSettings {
            default_runner: RunnerType::Tmux,
            shutdown_behavior: ShutdownBehavior::StopAll,
            restart_timeout_secs: DEFAULT_RESTART_TIMEOUT_SECS,
        }
    }
}

impl Default for AppSettings {
    fn default() -> (r: AppSettings)
        ensures
            r == default_settings(),
    {
        AppSettings::new()
    }
}

/// Value of an absent `enabled` field in a stored record.
pub fn default_true() -> (r: bool)
    ensures
        r,
{
    true
}

/// Value of an absent restart timeout in stored settings.
pub fn default_restart_timeout() -> (r: u64)
    ensures
        r == DEFAULT_RESTART_TIMEOUT_SECS,
{
    DEFAULT_RESTART_TIMEOUT_SECS
}

/// Value of an absent schema version in a stored registry.
pub fn default_config_version() -> (r: u32)
    ensures
        r == CURRENT_CONFIG_VERSION,
{
    CURRENT_CONFIG_VERSION
}

/// A registered service.
#[derive(Debug, Clone)]
pub struct Service {
    /// Identity, fixed at creation; names the session and the log file.
    pub id: u128,
    /// Unique display name.
    pub name: String,
    /// Shell command line to run.
    pub command: String,
    /// Working directory, if any.
    pub cwd: Option<String>,
    /// Environment overrides, one entry per variable.
    pub env: Vec<(String, String)>,
    pub enabled: bool,
    /// Whether the command layer starts it with the others.
    pub autostart: bool,
    pub runner_type: RunnerType,
    pub created_at: Timestamp,
    pub updated_at: Timestamp,
}

/// Whether no variable is overridden twice in `env`.
pub open spec fn env_keys_unique(env: Seq<(String, String)>) -> bool {
    forall|i: int, j: int| 0 <= i < j < env.len() ==> env[i].0@ != env[j].0@
}

/// Index of the entry of variable `key`, searching from the front.
pub open spec fn env_index(env: Seq<(String, String)>, key: Seq<char>) -> Option<int>
    decreases env.len(),
{
    if env.len() == 0 {
        None
    } else if env[0].0@ == key {
        Some(0)
    } else {
        match env_index(env.drop_first(), key) {
            Some(i) => Some(i + 1),
            None => None,
        }
    }
}

proof fn lemma_env_index(env: Seq<(String, String)>, key: Seq<char>, k: int)
    requires
        0 <= k <= env.len(),
        forall|j: int| 0 <= j < k ==> #[trigger] env[j].0@ != key,
        k == env.len() || env[k].0@ == key,
    ensures
        env_index(env, key) == if k == env.len() { None } else { Some(k) },
    decreases env.len(),
{
    if env.len() > 0 && env[0].0@ != key {
        let t = env.drop_first();
        assert forall|j: int| 0 <= j < k - 1 implies #[trigger] t[j].0@ != key by {
            assert(t[j] == env[j + 1]);
        }
        lemma_env_index(t, key, k - 1);
    }
}

/// A well-formed record: no variable is overridden twice.
pub open spec fn valid_service(s: Service) -> bool {
    env_keys_unique(s.env@)
}

impl Service {
    /// A fresh, enabled record with a new identity, no working directory,
    /// no overrides, the tmux backend, and both timestamps set to now.
    pub fn new(name: String, command: String) -> (r: Service)
        ensures
            r.name == name,
            r.command == command,
            r.cwd.is_none(),
            r.env@.len() == 0,
            r.enabled,
            !r.autostart,
            r.runner_type == RunnerType::Tmux,
            r.created_at == r.updated_at,
            valid_service(r),
    {
        let t = now();
        Service {
            id: new_service_id(),
            name,
            command,
            cwd: None,
            env: Vec::new(),
            enabled: true,
            autostart: false,
            runner_type: RunnerType::Tmux,
            created_at: t,
            updated_at: t,
        }
    }

    /// Sets the update time to now.
    pub fn touch(&mut self)
        ensures
            same_but_update_time(*final(self), *old(self)),
    {
        self.touch_at(now());
    }

    /// Sets the update time to `t`, leaving every other field as it was.
    pub fn touch_at(&mut self, t: Timestamp)
        ensures
            *final(self) == (Service { updated_at: t, ..*old(self) }),
    {
        self.updated_at = t;
    }

    /// Overrides variable `key` with `value`: replaces the value of its
    /// entry when there is one, otherwise appends an entry.
    pub fn set_env(&mut self, key: String, value: String)
        ensures
            match env_index(old(self).env@, key@) {
                Some(i) => final(self).env@ == old(self).env@.update(i, (key, value)),
                None => final(self).env@ == old(self).env@.push((key, value)),
            },
            *final(self) == (Service { env: final(self).env, ..*old(self) }),
            env_keys_unique(old(self).env@) ==> env_keys_unique(final(self).env@),
    {
        let mut i: usize = 0;
        while i < self.env.len()
            invariant
                *self == *old(self),
                i <= self.env@.len(),
                forall|j: int| 0 <= j < i ==> #[trigger] self.env@[j].0@ != key@,
            decreases self.env@.len() - i,
        {
            if text_eq(self.env[i].0.as_str(), key.as_str()) {
                let ghost before = self.env@;
                self.env.set(i, (key, value));
                assert(env_index(before, key@) == Some(i as int)) by {
                    lemma_env_index(before, key@, i as int);
                }
                return;
            }
            i = i + 1;
        }
        proof {
            lemma_env_index(self.env@, key@, self.env@.len() as int);
        }
        self.env.push((key, value));
    }

    /// The identity as hyphenated text.
    pub fn id_string(&self) -> (r: String)
        ensures
            r@ == uuid_text(self.id),
    {
        id_text(self.id)
    }

    /// Whether the record is named `name`.
    pub fn is_named(&self, name: &str) -> (r: bool)
        ensures
            r == (self.name@ == name@),
    {
        text_eq(self.name.as_str(), name)
    }
}

impl Default for Service {
    /// A record named `default` that runs `echo hello`.
    fn default() -> (r: Service)
        ensures
            r.name@ == "default"@,
            r.command@ == "echo hello"@,
            r.enabled,
    {
        Service::new(String::from_str("default"), String::from_str("echo hello"))
    }
}

/// Records that differ at most in their update time.
pub open spec fn same_but_update_time(a: Service, b: Service) -> bool {
    a == Service { updated_at: a.updated_at, ..b }
}

/// The durable aggregate: schema version, records in insertion order, settings.
#[derive(Debug, Clone)]
pub struct AppConfig {
    pub config_version: u32,
    pub services: Vec<Service>,
    pub settings: AppSettings,
}

impl Default for AppConfig {
    fn default() -> (r: AppConfig)
        ensures
            r.config_version == CURRENT_CONFIG_VERSION,
            r.services@.len() == 0,
            r.settings == default_settings(),
    {
        AppConfig::new()
    }
}

/// Whether no two records share a name.
pub open spec fn names_unique(s: Seq<Service>) -> bool {
    forall|i: int, j: int| 0 <= i < j < s.len() ==> s[i].name@ != s[j].name@
}

/// A well-formed registry: its names are unique and its records well-formed.
pub open spec fn valid_registry(services: Seq<Service>) -> bool {
    names_unique(services) && forall|i: int| 0 <= i < services.len() ==> valid_service(#[trigger] services[i])
}

/// Whether some record is named `name`.
pub open spec fn has_name(s: Seq<Service>, name: Seq<char>) -> bool {
    exists|i: int| 0 <= i < s.len() && #[trigger] s[i].name@ == name
}

/// Index `i` holds the first record named `name`.
pub open spec fn first_named(s: Seq<Service>, name: Seq<char>, i: int) -> bool {
    0 <= i < s.len() && s[i].name@ == name && forall|j: int| 0 <= j < i ==> #[trigger] s[j].name@ != name
}

impl AppConfig {
    /// The current schema version, default settings and no records.
    pub fn new() -> (r: AppConfig)
        ensures
            r.config_version == CURRENT_CONFIG_VERSION,
            r.services@.len() == 0,
            r.settings == default_settings(),
            valid_registry(r.services@),
    {
        AppConfig { config_version: CURRENT_CONFIG_VERSION, services: Vec::new(), settings: AppSettings::new() }
    }

    /// Index of the first record named `name`.
    pub fn position_by_name(&self, name: &str) -> (r: Option<usize>)
        ensures
            match r {
                Some(i) => first_named(self.services@, name@, i as int),
                None => !has_name(self.services@, name@),
            },
    {
        let mut i: usize = 0;
        while i < self.services.len()
            invariant
                i <= self.services@.len(),
                forall|j: int| 0 <= j < i ==> #[trigger] self.services@[j].name@ != name@,
            decreases self.services@.len() - i,
        {
            if self.services[i].is_named(name) {
                return Some(i);
            }
            i = i + 1;
        }
        None
    }

    /// The first record named `name`.
    pub fn find_service_by_name(&self, name: &str) -> (r: Option<&Service>)
        ensures
            match r {
                Some(s) => exists|i: int| first_named(self.services@, name@, i) && *s == self.services@[i],
                None => !has_name(self.services@, name@),
            },
    {
        match self.position_by_name(name) {
            Some(i) => Some(&self.services[i]),
            None => None,
        }
    }

    /// The first record with identity `id`.
    pub fn find_service_by_id(&self, id: u128) -> (r: Option<&Service>)
        ensures
            match r {
                Some(s) => exists|i: int|
                    0 <= i < self.services@.len() && *s == self.services@[i] && s.id == id
                        && forall|j: int| 0 <= j < i ==> #[trigger] self.services@[j].id != id,
                None => forall|j: int| 0 <= j < self.services@.len() ==> #[trigger] self.services@[j].id != id,
            },
    {
        let mut i: usize = 0;
        while i < self.services.len()
            invariant
                i <= self.services@.len(),
                forall|j: int| 0 <= j < i ==> #[trigger] self.services@[j].id != id,
            decreases self.services@.len() - i,
        {
            if self.services[i].id == id {
                return Some(&self.services[i]);
            }
            i = i + 1;
        }
        None
    }

    /// Appends a record.
    pub fn add_service(&mut self, service: Service)
        ensures
            final(self).services@ == old(self).services@.push(service),
            final(self).config_version == old(self).config_version,
            final(self).settings == old(self).settings,
    {
        self.services.push(service);
    }

    /// Removes and returns the first record named `name`.
    pub fn remove_service_by_name(&mut self, name: &str) -> (r: Option<Service>)
        ensures
            final(self).config_version == old(self).config_version,
            final(self).settings == old(self).settings,
            match r {
                Some(s) => exists|i: int|
                    first_named(old(self).services@, name@, i) && s == old(self).services@[i]
                        && final(self).services@ == old(self).services@.remove(i),
                None => !has_name(old(self).services@, name@) && final(self).services@ == old(self).services@,
            },
    {
        match self.position_by_name(name) {
            Some(i) => Some(self.services.remove(i)),
            None => None,
        }
    }

    /// Whether some record is named `name`.
    pub fn service_name_exists(&self, name: &str) -> (r: bool)
        ensures
            r == has_name(self.services@, name@),
    {
        self.position_by_name(name).is_some()
    }
}

} // verus!
