//! The configuration store: where the registry lives, how it is replaced
//! on disk, and the registry operations of each load-modify-save cycle.
//!
//! Reading and writing files is left to the caller; the store decides what
//! is read, what is written, and where.

use vstd::prelude::*;
use crate::error::{decimal_of, decimal_string, is_already_exists, is_not_found, lemma_decimal_injective, LarsError};
use crate::text::{chars_of, decimal_value, parse_decimal};
use crate::validation::{name_verdict, validate_service_name};
use crate::models::{
    dashes_to_underscores, default_settings, first_named, has_name, id_text, case_folded,
    names_unique, now, runner_type_named, shutdown_behavior_named, uuid_text, valid_registry,
    valid_service, Timestamp,
    AppConfig, AppSettings, RunnerType, Service, ShutdownBehavior, CURRENT_CONFIG_VERSION,
};

verus! {

/// File name of the registry.
pub open spec fn config_file_name() -> Seq<char> {
    "config.json"@
}

/// File name the registry is written to before it replaces the canonical file.
pub open spec fn temp_file_name() -> Seq<char> {
    "config.json.tmp"@
}

/// `name` placed in directory `dir`.
pub open spec fn join_path(dir: Seq<char>, name: Seq<char>) -> Seq<char> {
    if dir.len() == 0 {
        name
    } else if dir.last() == '/' {
        dir + name
    } else {
        dir + "/"@ + name
    }
}

/// Joins a relative file name onto a directory.
pub fn join(dir: &str, name: &str) -> (r: String)
    ensures
        r@ == join_path(dir@, name@),
{
    let n = dir.unicode_len();
    if n == 0 {
        name.to_owned()
    } else if dir.get_char(n - 1) == '/' {
        dir.to_owned().concat(name)
    } else {
        dir.to_owned().concat("/").concat(name)
    }
}

/// Where the registry file and the log files live.
#[derive(Debug, Clone)]
pub struct ConfigManager {
    config_dir: String,
    log_dir: String,
}

impl ConfigManager {
    pub closed spec fn spec_config_dir(&self) -> Seq<char> {
        self.config_dir@
    }

    pub closed spec fn spec_log_dir(&self) -> Seq<char> {
        self.log_dir@
    }

    /// A store rooted at the given directories.
    pub fn new(config_dir: String, log_dir: String) -> (r: ConfigManager)
        ensures
            r.spec_config_dir() == config_dir@,
            r.spec_log_dir() == log_dir@,
    {
        ConfigManager { config_dir, log_dir }
    }

    /// A store rooted at one base directory, with the logs in its `logs`
    /// subdirectory.
    pub fn with_base(base: &str) -> (r: ConfigManager)
        ensures
            r.spec_config_dir() == base@,
            r.spec_log_dir() == join_path(base@, "logs"@),
    {
        ConfigManager { config_dir: base.to_owned(), log_dir: join(base, "logs") }
    }

    /// A store in the platform's configuration directory, with the logs in
    /// the `logs` subdirectory of its state directory when it has one, and
    /// of the configuration directory otherwise.
    pub fn for_platform(config_dir: &str, state_dir: Option<&str>) -> (r: ConfigManager)
        ensures
            r.spec_config_dir() == config_dir@,
            r.spec_log_dir() == match state_dir {
                Some(d) => join_path(d@, "logs"@),
                None => join_path(config_dir@, "logs"@),
            },
    {
        let log_dir = match state_dir {
            Some(d) => join(d, "logs"),
            None => join(config_dir, "logs"),
        };
        ConfigManager { config_dir: config_dir.to_owned(), log_dir }
    }

    /// The canonical registry file.
    pub fn config_path(&self) -> (r: String)
        ensures
            r@ == join_path(self.spec_config_dir(), config_file_name()),
    {
        join(self.config_dir.as_str(), "config.json")
    }

    /// The file a save writes before renaming it over the canonical one.
    pub fn temp_path(&self) -> (r: String)
        ensures
            r@ == join_path(self.spec_config_dir(), temp_file_name()),
    {
        join(self.config_dir.as_str(), "config.json.tmp")
    }

    pub fn config_dir(&self) -> (r: &str)
        ensures
            r@ == self.spec_config_dir(),
    {
        self.config_dir.as_str()
    }

    pub fn log_dir(&self) -> (r: &str)
        ensures
            r@ == self.spec_log_dir(),
    {
        self.log_dir.as_str()
    }

    /// The log file of the service with identity `id`: `<id>.log` in the log directory.
    pub fn log_path_for_service(&self, id: u128) -> (r: String)
        ensures
            r@ == join_path(self.spec_log_dir(), uuid_text(id) + ".log"@),
    {
        let file = id_text(id).concat(".log");
        join(self.log_dir.as_str(), file.as_str())
    }

    /// The paths of a save, in order: the registry is written in full to the
    /// first, which is then renamed over the second. The canonical file is
    /// never written in place, and the two paths differ, so an interrupted
    /// save leaves the canonical file as it was.
    pub fn save_paths(&self) -> (r: (String, String))
        ensures
            r.0@ == join_path(self.spec_config_dir(), temp_file_name()),
            r.1@ == join_path(self.spec_config_dir(), config_file_name()),
            r.0@ != r.1@,
    {
        proof {
            reveal_strlit("config.json");
            reveal_strlit("config.json.tmp");
            reveal_strlit("/");
        }
        let t = self.temp_path();
        let c = self.config_path();
        assert(t@.len() == c@.len() + 4);
        (t, c)
    }

    /// Brings a registry read from an older schema up to the current one.
    pub fn migrate(&self, config: &mut AppConfig)
        ensures
            final(config).config_version == if old(config).config_version < CURRENT_CONFIG_VERSION {
                CURRENT_CONFIG_VERSION
            } else {
                old(config).config_version
            },
            final(config).services@ == old(config).services@,
            final(config).settings == old(config).settings,
    {
        if config.config_version < CURRENT_CONFIG_VERSION {
            config.config_version = CURRENT_CONFIG_VERSION;
        }
    }

    /// The registry a load yields: the default one when no file exists,
    /// otherwise the stored one, migrated.
    pub fn load(&self, stored: Option<AppConfig>) -> (r: AppConfig)
        ensures
            match stored {
                None => r.config_version == CURRENT_CONFIG_VERSION && r.services@.len() == 0
                    && r.settings == default_settings() && valid_registry(r.services@),
                Some(c) => r.services@ == c.services@ && r.settings == c.settings
                    && r.config_version == if c.config_version < CURRENT_CONFIG_VERSION {
                        CURRENT_CONFIG_VERSION
                    } else {
                        c.config_version
                    },
            },
    {
        match stored {
            None => AppConfig::new(),
            Some(c) => {
                let mut c = c;
                self.migrate(&mut c);
                c
            },
        }
    }

    /// Registers `service` in a loaded registry: fails with
    /// `ServiceAlreadyExists` and changes nothing when the name is taken,
    /// otherwise appends it.
    pub fn add_service(&self, config: &mut AppConfig, service: Service) -> (r: Result<(), LarsError>)
        ensures
            final(config).config_version == old(config).config_version,
            final(config).settings == old(config).settings,
            has_name(old(config).services@, service.name@) ==> {
                &&& r matches Err(e) && is_already_exists(e, service.name@)
                &&& final(config).services@ == old(config).services@
            },
            !has_name(old(config).services@, service.name@) ==> {
                &&& r is Ok
                &&& final(config).services@ == old(config).services@.push(service)
            },
            valid_registry(old(config).services@) && valid_service(service)
                ==> valid_registry(final(config).services@),
    {
        if config.service_name_exists(service.name.as_str()) {
            return Err(LarsError::ServiceAlreadyExists(service.name));
        }
        proof {
            if valid_registry(config.services@) && valid_service(service) {
                lemma_add_keeps_registry_valid(config.services@, service);
            }
        }
        config.add_service(service);
        Ok(())
    }

    /// Unregisters the record named `name` from a loaded registry and returns
    /// it; fails with `ServiceNotFound` and changes nothing when there is none.
    pub fn remove_service(&self, config: &mut AppConfig, name: &str) -> (r: Result<Service, LarsError>)
        ensures
            final(config).config_version == old(config).config_version,
            final(config).settings == old(config).settings,
            match r {
                Ok(s) => exists|i: int|
                    first_named(old(config).services@, name@, i) && s == old(config).services@[i]
                        && final(config).services@ == old(config).services@.remove(i),
                Err(e) => !has_name(old(config).services@, name@)
                    && final(config).services@ == old(config).services@
                    && is_not_found(e, name@),
            },
            r is Ok <==> has_name(old(config).services@, name@),
            valid_registry(old(config).services@) ==> valid_registry(final(config).services@),
    {
        let ghost before = config.services@;
        match config.remove_service_by_name(name) {
            Some(s) => {
                proof {
                    if valid_registry(before) {
                        let i = choose|i: int|
                            first_named(before, name@, i) && s == before[i]
                                && config.services@ == before.remove(i);
                        lemma_remove_keeps_registry_valid(before, i);
                    }
                }
                Ok(s)
            },
            None => Err(LarsError::ServiceNotFound(name.to_owned())),
        }
    }

    /// The record named `name` in a loaded registry.
    pub fn get_service(&self, config: AppConfig, name: &str) -> (r: Result<Service, LarsError>)
        ensures
            match r {
                Ok(s) => exists|i: int| first_named(config.services@, name@, i) && s == config.services@[i],
                Err(e) => !has_name(config.services@, name@) && is_not_found(e, name@),
            },
            r is Ok <==> has_name(config.services@, name@),
    {
        let mut config = config;
        match config.position_by_name(name) {
            Some(i) => Ok(config.services.remove(i)),
            None => Err(LarsError::ServiceNotFound(name.to_owned())),
        }
    }

    /// Applies `update_fn` to the record named `name` in a loaded registry,
    /// keeps its identity, and refreshes its update time to now; fails with
    /// `ServiceNotFound` and changes nothing when there is none.
    pub fn update_service<F: FnOnce(Service) -> Service>(
        &self,
        config: &mut AppConfig,
        name: &str,
        update_fn: F,
    ) -> (r: Result<(), LarsError>)
        requires
            forall|s: Service| update_fn.requires((s,)),
        ensures
            final(config).config_version == old(config).config_version,
            final(config).settings == old(config).settings,
            r is Ok <==> has_name(old(config).services@, name@),
            r matches Err(e) ==> final(config).services@ == old(config).services@ && is_not_found(e, name@),
            r is Ok ==> exists|i: int, u: Service, t: Timestamp|
                first_named(old(config).services@, name@, i)
                    && update_fn.ensures((old(config).services@[i],), u)
                    && final(config).services@.len() == old(config).services@.len()
                    && final(config).services@[i] == (Service { updated_at: t, id: old(config).services@[i].id, ..u })
                    && forall|j: int| 0 <= j < old(config).services@.len() && j != i
                        ==> #[trigger] final(config).services@[j] == old(config).services@[j],
            valid_registry(old(config).services@)
                && (forall|x: Service, u: Service| #[trigger] update_fn.ensures((x,), u)
                    ==> u.name@ == x.name@ && (valid_service(x) ==> valid_service(u)))
                ==> valid_registry(final(config).services@),
    {
        self.update_service_at(config, name, update_fn, now())
    }

    /// Applies `update_fn` to the record named `name` in a loaded registry,
    /// keeps its identity, and sets its update time to `at`; fails with
    /// `ServiceNotFound` and changes nothing when there is none.
    pub fn update_service_at<F: FnOnce(Service) -> Service>(
        &self,
        config: &mut AppConfig,
        name: &str,
        update_fn: F,
        at: Timestamp,
    ) -> (r: Result<(), LarsError>)
        requires
            forall|s: Service| update_fn.requires((s,)),
        ensures
            final(config).config_version == old(config).config_version,
            final(config).settings == old(config).settings,
            r is Ok <==> has_name(old(config).services@, name@),
            r matches Err(e) ==> final(config).services@ == old(config).services@ && is_not_found(e, name@),
            r is Ok ==> exists|i: int, u: Service|
                first_named(old(config).services@, name@, i)
                    && update_fn.ensures((old(config).services@[i],), u)
                    && final(config).services@.len() == old(config).services@.len()
                    && final(config).services@[i] == (Service { updated_at: at, id: old(config).services@[i].id, ..u })
                    && forall|j: int| 0 <= j < old(config).services@.len() && j != i
                        ==> #[trigger] final(config).services@[j] == old(config).services@[j],
            valid_registry(old(config).services@)
                && (forall|x: Service, u: Service| #[trigger] update_fn.ensures((x,), u)
                    ==> u.name@ == x.name@ && (valid_service(x) ==> valid_service(u)))
                ==> valid_registry(final(config).services@),
    {
        match config.position_by_name(name) {
            None => Err(LarsError::ServiceNotFound(name.to_owned())),
            Some(i) => {
                let ghost before = config.services@;
                let current = config.services.remove(i);
                let id = current.id;
                let mut updated = update_fn(current);
                let ghost u = updated;
                updated.id = id;
                updated.touch_at(at);
                config.services.insert(i, updated);
                assert forall|j: int| 0 <= j < before.len() && j != i
                    implies #[trigger] config.services@[j] == before[j] by {
                    if j < i {
                        assert(config.services@[j] == before[j]);
                    } else {
                        assert(config.services@[j] == before[j]);
                    }
                }
                assert(update_fn.ensures((before[i as int],), u));
                assert(config.services@[i as int] == (Service { updated_at: at, id: before[i as int].id, ..u }));
                assert(first_named(before, name@, i as int));
                assert(config.services@.len() == before.len());
                proof {
                    let fin = config.services@;
                    if valid_registry(before)
                        && (forall|x: Service, u: Service| #[trigger] update_fn.ensures((x,), u)
                            ==> u.name@ == x.name@ && (valid_service(x) ==> valid_service(u))) {
                        assert(fin[i as int].name@ == before[i as int].name@);
                        assert(valid_service(fin[i as int]));
                        assert forall|a: int, b: int| 0 <= a < b < fin.len() implies fin[a].name@ != fin[b].name@ by {
                            assert(fin[a].name@ == before[a].name@);
                            assert(fin[b].name@ == before[b].name@);
                        }
                        assert forall|a: int| 0 <= a < fin.len() implies valid_service(#[trigger] fin[a]) by {
                            if a != i {
                                assert(fin[a] == before[a]);
                            }
                        }
                    }
                }
                Ok(())
            },
        }
    }

    /// All records of a loaded registry, in insertion order.
    pub fn list_services(&self, config: AppConfig) -> (r: Vec<Service>)
        ensures
            r@ == config.services@,
    {
        config.services
    }
}

/// Adding a record whose name is new keeps the names of a registry unique.
pub proof fn lemma_add_keeps_names_unique(services: Seq<Service>, service: Service)
    requires
        names_unique(services),
        !has_name(services, service.name@),
    ensures
        names_unique(services.push(service)),
{
    let s2 = services.push(service);
    assert forall|i: int, j: int| 0 <= i < j < s2.len() implies s2[i].name@ != s2[j].name@ by {
        if j == services.len() {
            assert(services[i].name@ != service.name@);
        }
    }
}

/// Adding a well-formed record whose name is new keeps a registry well-formed.
pub proof fn lemma_add_keeps_registry_valid(services: Seq<Service>, service: Service)
    requires
        valid_registry(services),
        valid_service(service),
        !has_name(services, service.name@),
    ensures
        valid_registry(services.push(service)),
{
    lemma_add_keeps_names_unique(services, service);
    let s2 = services.push(service);
    assert forall|i: int| 0 <= i < s2.len() implies valid_service(#[trigger] s2[i]) by {
        if i < services.len() {
            assert(s2[i] == services[i]);
        }
    }
}

/// Removing a record keeps a registry well-formed.
pub proof fn lemma_remove_keeps_registry_valid(services: Seq<Service>, i: int)
    requires
        valid_registry(services),
        0 <= i < services.len(),
    ensures
        valid_registry(services.remove(i)),
{
    lemma_remove_keeps_names_unique(services, i);
    let s2 = services.remove(i);
    assert forall|a: int| 0 <= a < s2.len() implies valid_service(#[trigger] s2[a]) by {
        let a0 = if a < i { a } else { a + 1 };
        assert(s2[a] == services[a0]);
    }
}

/// Removing a record keeps the names of a registry unique.
pub proof fn lemma_remove_keeps_names_unique(services: Seq<Service>, i: int)
    requires
        names_unique(services),
        0 <= i < services.len(),
    ensures
        names_unique(services.remove(i)),
{
    let s2 = services.remove(i);
    assert forall|a: int, b: int| 0 <= a < b < s2.len() implies s2[a].name@ != s2[b].name@ by {
        let a0 = if a < i { a } else { a + 1 };
        let b0 = if b < i { b } else { b + 1 };
        assert(s2[a] == services[a0] && s2[b] == services[b0]);
    }
}

/// The settings after `key = value`, or the message of its rejection.
pub open spec fn setting_result(settings: AppSettings, key: Seq<char>, value: Seq<char>) -> Result<AppSettings, Seq<char>> {
    if key == "default_runner"@ {
        match runner_type_named(case_folded(value)) {
            Some(t) => Ok(AppSettings { default_runner: t, ..settings }),
            None => Err("Invalid runner type: "@ + value),
        }
    } else if key == "shutdown_behavior"@ {
        match shutdown_behavior_named(dashes_to_underscores(case_folded(value))) {
            Some(b) => Ok(AppSettings { shutdown_behavior: b, ..settings }),
            None => Err("Invalid shutdown behavior: "@ + value),
        }
    } else if key == "restart_timeout_secs"@ {
        match decimal_value(value, u64::MAX as nat) {
            None => Err("Invalid timeout value: must be a positive integer"@),
            Some(v) => if v == 0 {
                Err("Restart timeout must be greater than 0"@)
            } else {
                Ok(AppSettings { restart_timeout_secs: v as u64, ..settings })
            },
        }
    } else {
        Err("Unknown config key: "@ + key + ". Valid keys: default_runner, shutdown_behavior, restart_timeout_secs"@)
    }
}

/// Sets the setting named `key` from its text `value`: `default_runner`
/// takes a runner type, `shutdown_behavior` a shutdown behaviour, and
/// `restart_timeout_secs` a positive number of seconds. Settings are left
/// unchanged on rejection.
pub fn apply_setting(settings: &mut AppSettings, key: &str, value: &str) -> (r: Result<(), String>)
    ensures
        match setting_result(*old(settings), key@, value@) {
            Ok(s) => r is Ok && *final(settings) == s,
            Err(m) => r is Err && r->Err_0@ == m && *final(settings) == *old(settings),
        },
{
    if crate::text::text_eq(key, "default_runner") {
        match RunnerType::parse(value) {
            Ok(t) => {
                settings.default_runner = t;
                Ok(())
            },
            Err(m) => Err(m),
        }
    } else if crate::text::text_eq(key, "shutdown_behavior") {
        match ShutdownBehavior::parse(value) {
            Ok(b) => {
                settings.shutdown_behavior = b;
                Ok(())
            },
            Err(m) => Err(m),
        }
    } else if crate::text::text_eq(key, "restart_timeout_secs") {
        let cs = chars_of(value);
        assert(cs@.subrange(0, cs@.len() as int) =~= value@);
        match parse_decimal(&cs, 0, cs.len(), u64::MAX) {
            None => Err(String::from_str("Invalid timeout value: must be a positive integer")),
            Some(v) => {
                if v == 0 {
                    Err(String::from_str("Restart timeout must be greater than 0"))
                } else {
                    settings.restart_timeout_secs = v;
                    Ok(())
                }
            },
        }
    } else {
        Err(String::from_str("Unknown config key: ").concat(key).concat(
            ". Valid keys: default_runner, shutdown_behavior, restart_timeout_secs",
        ))
    }
}

/// The `k`-th name tried for a new service derived from `base`: `base`
/// itself, then `base-1`, `base-2`, ...
pub open spec fn name_candidate(base: Seq<char>, k: nat) -> Seq<char> {
    if k == 0 {
        base
    } else {
        base + "-"@ + decimal_of(k)
    }
}

proof fn lemma_candidates_distinct(base: Seq<char>, j: nat, k: nat)
    requires
        j < k,
    ensures
        name_candidate(base, j) != name_candidate(base, k),
{
    let ck = name_candidate(base, k);
    reveal_strlit("-");
    if j == 0 {
        assert(ck.len() > base.len());
    } else if name_candidate(base, j) == ck {
        let cj = name_candidate(base, j);
        let lo = base.len() + 1;
        assert(cj.subrange(lo as int, cj.len() as int) =~= decimal_of(j));
        assert(ck.subrange(lo as int, ck.len() as int) =~= decimal_of(k));
        lemma_decimal_injective(j, k);
    }
}

/// The first of `base`, `base-1`, `base-2`, ... that no record of `config`
/// is named.
pub fn unique_service_name(config: &AppConfig, base: &str) -> (r: String)
    ensures
        !has_name(config.services@, r@),
        exists|k: nat|
            r@ == name_candidate(base@, k) && forall|j: nat| j < k ==> has_name(config.services@, #[trigger] name_candidate(base@, j)),
{
    let ghost services = config.services@;
    let len = config.services.len();
    let ghost n = services.len();
    let mut k: usize = 0;
    let mut cand = base.to_owned();
    let ghost mut used: Set<int> = Set::empty();
    proof {
        vstd::set_lib::lemma_int_range(0, n as int);
    }
    loop
        invariant
            services == config.services@,
            n == services.len(),
            n == len,
            cand@ == name_candidate(base@, k as nat),
            used.finite(),
            used.len() == k,
            used.subset_of(vstd::set_lib::set_int_range(0, n as int)),
            vstd::set_lib::set_int_range(0, n as int).finite(),
            vstd::set_lib::set_int_range(0, n as int).len() == n,
            forall|i: int| used.contains(i) ==> exists|j: nat| j < k && services[i].name@ == #[trigger] name_candidate(base@, j),
            forall|j: nat| j < k ==> has_name(services, #[trigger] name_candidate(base@, j)),
        decreases n - k,
    {
        proof {
            vstd::set_lib::lemma_len_subset(used, vstd::set_lib::set_int_range(0, n as int));
        }
        match config.position_by_name(cand.as_str()) {
            None => {
                return cand;
            },
            Some(i) => {
                proof {
                    if used.contains(i as int) {
                        let j = choose|j: nat| j < k && services[i as int].name@ == #[trigger] name_candidate(base@, j);
                        lemma_candidates_distinct(base@, j, k as nat);
                    }
                    let used2 = used.insert(i as int);
                    assert(used2.len() == k + 1);
                    assert(used2.subset_of(vstd::set_lib::set_int_range(0, n as int)));
                    vstd::set_lib::lemma_len_subset(used2, vstd::set_lib::set_int_range(0, n as int));
                    assert forall|x: int| used2.contains(x) implies exists|j: nat| j < k + 1 && services[x].name@ == #[trigger] name_candidate(base@, j) by {
                        if x == i as int {
                            assert(services[x].name@ == name_candidate(base@, k as nat));
                        } else {
                            let j = choose|j: nat| j < k && services[x].name@ == #[trigger] name_candidate(base@, j);
                            assert(j < k + 1);
                        }
                    }
                    assert(has_name(services, name_candidate(base@, k as nat)));
                    assert(k + 1 <= n);
                    used = used2;
                }
                k = k + 1;
                cand = base.to_owned().concat("-").concat(decimal_string(k).as_str());
            },
        }
    }
}

/// Records that differ at most in their identity.
pub open spec fn same_but_id(a: Service, b: Service) -> bool {
    a == Service { id: a.id, ..b }
}

/// The records of a merge of `imported` into `existing`, identities aside:
/// each imported record is appended unless its name is taken by then.
pub open spec fn merged(existing: Seq<Service>, imported: Seq<Service>) -> Seq<Service>
    decreases imported.len(),
{
    if imported.len() == 0 {
        existing
    } else {
        let prev = merged(existing, imported.drop_last());
        if has_name(prev, imported.last().name@) {
            prev
        } else {
            prev.push(imported.last())
        }
    }
}

/// The names of the imported records a merge skips, in order.
pub open spec fn skipped_names(existing: Seq<Service>, imported: Seq<Service>) -> Seq<Seq<char>>
    decreases imported.len(),
{
    if imported.len() == 0 {
        seq![]
    } else {
        let prev = skipped_names(existing, imported.drop_last());
        if has_name(merged(existing, imported.drop_last()), imported.last().name@) {
            prev.push(imported.last().name@)
        } else {
            prev
        }
    }
}

impl ConfigManager {
    /// Merges `imported` into a loaded registry: a record whose name is
    /// already taken is skipped, and its name returned; the others are
    /// appended in order under fresh identities.
    pub fn merge_services(&self, config: &mut AppConfig, imported: Vec<Service>) -> (r: Vec<String>)
        ensures
            final(config).config_version == old(config).config_version,
            final(config).settings == old(config).settings,
            final(config).services@.len() == merged(old(config).services@, imported@).len(),
            forall|k: int| 0 <= k < final(config).services@.len()
                ==> same_but_id(#[trigger] final(config).services@[k], merged(old(config).services@, imported@)[k]),
            forall|k: int| 0 <= k < old(config).services@.len()
                ==> #[trigger] final(config).services@[k] == old(config).services@[k],
            crate::runner::texts(r@) == skipped_names(old(config).services@, imported@),
            valid_registry(old(config).services@)
                && (forall|k: int| 0 <= k < imported@.len() ==> valid_service(#[trigger] imported@[k]))
                ==> valid_registry(final(config).services@),
    {
        let ghost start = config.services@;
        let ghost all = imported@;
        let mut skipped: Vec<String> = Vec::new();
        let mut i: usize = 0;
        let total = imported.len();
        let mut rest = imported;
        while rest.len() > 0
            invariant
                all.len() == total,
                i <= all.len(),
                rest@.len() == all.len() - i,
                rest@ == all.subrange(i as int, all.len() as int),
                config.config_version == old(config).config_version,
                config.settings == old(config).settings,
                config.services@.len() == merged(start, all.take(i as int)).len(),
                forall|k: int| 0 <= k < config.services@.len()
                    ==> same_but_id(#[trigger] config.services@[k], merged(start, all.take(i as int))[k]),
                forall|k: int| 0 <= k < start.len() ==> #[trigger] config.services@[k] == start[k],
                merged(start, all.take(i as int)).len() >= start.len(),
                crate::runner::texts(skipped@) == skipped_names(start, all.take(i as int)),
                valid_registry(start) && (forall|k: int| 0 <= k < all.len() ==> valid_service(#[trigger] all[k]))
                    ==> valid_registry(config.services@),
            decreases rest@.len(),
        {
            let mut service = rest.remove(0);
            let ghost prev = merged(start, all.take(i as int));
            proof {
                assert(all.take(i + 1).drop_last() =~= all.take(i as int));
                assert(all.take(i + 1).last() == all[i as int]);
                assert(service == all[i as int]);
            }
            let taken = config.service_name_exists(service.name.as_str());
            proof {
                if taken != has_name(prev, service.name@) {
                    if taken {
                        let k = choose|k: int| 0 <= k < config.services@.len() && #[trigger] config.services@[k].name@ == service.name@;
                        assert(prev[k].name@ == service.name@);
                    } else {
                        let k = choose|k: int| 0 <= k < prev.len() && #[trigger] prev[k].name@ == service.name@;
                        assert(config.services@[k].name@ == service.name@);
                    }
                }
            }
            if taken {
                let ghost k0 = crate::runner::texts(skipped@);
                skipped.push(service.name);
                assert(crate::runner::texts(skipped@) =~= k0.push(all[i as int].name@));
            } else {
                service.id = crate::models::new_service_id();
                let ghost before = config.services@;
                proof {
                    if valid_registry(start) && (forall|k: int| 0 <= k < all.len() ==> valid_service(#[trigger] all[k])) {
                        assert(valid_service(all[i as int]));
                        assert(valid_service(service));
                        lemma_add_keeps_registry_valid(before, service);
                    }
                }
                config.services.push(service);
                assert forall|k: int| 0 <= k < config.services@.len()
                    implies same_but_id(#[trigger] config.services@[k], prev.push(all[i as int])[k]) by {
                    if k < before.len() {
                        assert(config.services@[k] == before[k]);
                    }
                }
            }
            i = i + 1;
        }
        assert(all.take(all.len() as int) =~= all);
        skipped
    }

    /// Gives every record of an imported registry a fresh identity.
    pub fn refresh_identities(&self, config: &mut AppConfig)
        ensures
            final(config).config_version == old(config).config_version,
            final(config).settings == old(config).settings,
            final(config).services@.len() == old(config).services@.len(),
            forall|k: int| 0 <= k < old(config).services@.len()
                ==> same_but_id(#[trigger] final(config).services@[k], old(config).services@[k]),
            valid_registry(old(config).services@) ==> valid_registry(final(config).services@),
    {
        let n = config.services.len();
        let mut ids: Vec<u128> = Vec::new();
        while ids.len() < n
            invariant
                ids@.len() <= n,
            decreases n - ids@.len(),
        {
            ids.push(crate::models::new_service_id());
        }
        self.assign_identities(config, ids);
    }

    /// Gives the `k`-th record of a loaded registry the identity `ids[k]`.
    pub fn assign_identities(&self, config: &mut AppConfig, ids: Vec<u128>)
        requires
            ids@.len() == old(config).services@.len(),
        ensures
            final(config).config_version == old(config).config_version,
            final(config).settings == old(config).settings,
            final(config).services@.len() == old(config).services@.len(),
            forall|k: int| 0 <= k < old(config).services@.len()
                ==> #[trigger] final(config).services@[k] == (Service { id: ids@[k], ..old(config).services@[k] }),
            valid_registry(old(config).services@) ==> valid_registry(final(config).services@),
    {
        let ghost start = config.services@;
        let mut i: usize = 0;
        while i < config.services.len()
            invariant
                i <= config.services@.len(),
                config.services@.len() == start.len(),
                ids@.len() == start.len(),
                config.config_version == old(config).config_version,
                config.settings == old(config).settings,
                forall|k: int| 0 <= k < i ==> #[trigger] config.services@[k] == (Service { id: ids@[k], ..start[k] }),
                forall|k: int| i <= k < start.len() ==> #[trigger] config.services@[k] == start[k],
            decreases config.services@.len() - i,
        {
            let mut service = config.services.remove(i);
            service.id = ids[i];
            config.services.insert(i, service);
            i = i + 1;
        }
        proof {
            let fin = config.services@;
            assert forall|k: int| 0 <= k < start.len() implies same_but_id(#[trigger] fin[k], start[k]) by {
                assert(fin[k] == (Service { id: ids@[k], ..start[k] }));
            }
            if valid_registry(start) {
                assert forall|a: int, b: int| 0 <= a < b < fin.len() implies fin[a].name@ != fin[b].name@ by {
                    assert(same_but_id(fin[a], start[a]) && same_but_id(fin[b], start[b]));
                }
                assert forall|a: int| 0 <= a < fin.len() implies valid_service(#[trigger] fin[a]) by {
                    assert(same_but_id(fin[a], start[a]));
                    assert(valid_service(start[a]));
                }
            }
        }
    }

    /// The enabled records of a loaded registry, in order.
    pub fn enabled_services(&self, config: AppConfig) -> (r: Vec<Service>)
        ensures
            r@ == config.services@.filter(|s: Service| s.enabled),
    {
        let ghost all = config.services@;
        let ghost pred = |s: Service| s.enabled;
        let mut r: Vec<Service> = Vec::new();
        let total = config.services.len();
        let mut rest = config.services;
        let mut i: usize = 0;
        while rest.len() > 0
            invariant
                all.len() == total,
                i <= all.len(),
                rest@ == all.subrange(i as int, all.len() as int),
                pred == (|s: Service| s.enabled),
                r@ == all.take(i as int).filter(pred),
            decreases rest@.len(),
        {
            let s = rest.remove(0);
            proof {
                reveal(Seq::filter);
                assert(all.take(i + 1).drop_last() =~= all.take(i as int));
                assert(all.take(i + 1).last() == s);
            }
            if s.enabled {
                r.push(s);
            }
            i = i + 1;
        }
        assert(all.take(all.len() as int) =~= all);
        r
    }

    /// Renames the record named `name` to `new_name` in a loaded registry;
    /// the renamed record moves to the end. Fails, changing nothing, with a
    /// validation error for an invalid new name, `ServiceNotFound` when no
    /// record is named `name`, and `ServiceAlreadyExists` when `new_name` is
    /// taken.
    pub fn rename_service(&self, config: &mut AppConfig, name: &str, new_name: &str) -> (r: Result<(), LarsError>)
        ensures
            final(config).config_version == old(config).config_version,
            final(config).settings == old(config).settings,
            r is Err ==> final(config).services@ == old(config).services@,
            name_verdict(new_name@) matches Err(v)
                ==> r == Err::<(), LarsError>(LarsError::Validation(v)),
            name_verdict(new_name@) is Ok && !has_name(old(config).services@, name@)
                ==> (r matches Err(e) && is_not_found(e, name@)),
            name_verdict(new_name@) is Ok && has_name(old(config).services@, name@)
                && has_name(old(config).services@, new_name@)
                ==> (r matches Err(e) && is_already_exists(e, new_name@)),
            r is Ok ==> exists|i: int|
                first_named(old(config).services@, name@, i)
                    && final(config).services@ == old(config).services@.remove(i).push(
                        Service { name: final(config).services@.last().name, ..old(config).services@[i] })
                    && final(config).services@.last().name@ == new_name@,
            name_verdict(new_name@) is Ok && has_name(old(config).services@, name@)
                && !has_name(old(config).services@, new_name@) ==> r is Ok,
            valid_registry(old(config).services@) ==> valid_registry(final(config).services@),
    {
        match validate_service_name(new_name) {
            Err(v) => return Err(LarsError::Validation(v)),
            Ok(()) => {},
        }
        let i = match config.position_by_name(name) {
            None => return Err(LarsError::ServiceNotFound(name.to_owned())),
            Some(i) => i,
        };
        if config.service_name_exists(new_name) {
            return Err(LarsError::ServiceAlreadyExists(new_name.to_owned()));
        }
        let ghost before = config.services@;
        let mut service = config.services.remove(i);
        service.name = new_name.to_owned();
        proof {
            if valid_registry(before) {
                lemma_remove_keeps_registry_valid(before, i as int);
                let rest = before.remove(i as int);
                if has_name(rest, new_name@) {
                    let k = choose|k: int| 0 <= k < rest.len() && #[trigger] rest[k].name@ == new_name@;
                    let k0 = if k < i { k } else { k + 1 };
                    assert(before[k0].name@ == new_name@);
                }
                assert(valid_service(service));
                lemma_add_keeps_registry_valid(rest, service);
            }
        }
        config.services.push(service);
        assert(config.services@ == before.remove(i as int).push(
            Service { name: config.services@.last().name, ..before[i as int] }));
        Ok(())
    }
}

} // verus!
