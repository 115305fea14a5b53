//! Error types of the supervisor.

use vstd::prelude::*;

verus! {

/// Errors of local input checks, raised before anything reaches the store.
#[derive(Debug, Clone, Copy, PartialEq, Eq, Structural)]
pub enum ValidationError {
    /// The name is empty or longer than the limit; carries its length in characters.
    InvalidNameLength(usize),
    /// The name holds a character outside letters, digits, `_` and `-`.
    InvalidNameCharacters,
    /// The input holds a NUL character.
    NullByteInInput,
    /// The input is empty or only whitespace.
    EmptyInput,
}

/// Errors of the registry file's persistence.
#[derive(Debug, Clone)]
pub enum ConfigError {
    /// No platform configuration directory could be determined.
    NoConfigDirectory,
    /// The registry file does not hold a valid registry; carries the parser's message.
    ParseError(String),
    /// The directory cannot be written; carries the path.
    NotWritable(String),
    /// Reading or writing the file failed; carries the system's message.
    Io(String),
}

/// Errors of every store and runner operation.
#[derive(Debug, Clone)]
pub enum LarsError {
    /// No service has this name.
    ServiceNotFound(String),
    /// A service with this name is already registered.
    ServiceAlreadyExists(String),
    /// The session backend is missing or not implemented.
    RunnerNotAvailable(String),
    /// The backend lacks the requested capability.
    OperationNotSupported(String),
    /// A local input check failed.
    Validation(ValidationError),
    /// The registry could not be read or written.
    Config(ConfigError),
    /// An I/O operation failed; carries the system's message.
    Io(String),
    /// A restart gave up waiting for the service to stop; carries its name.
    StopTimeout(String),
    /// A path is not representable as text.
    InvalidPath,
    /// An external command reported failure.
    ProcessFailed(String),
}

/// `e` reports that no service is named `name`.
pub open spec fn is_not_found(e: LarsError, name: Seq<char>) -> bool {
    match e {
        LarsError::ServiceNotFound(n) => n@ == name,
        _ => false,
    }
}

/// `e` reports that a service named `name` already exists.
pub open spec fn is_already_exists(e: LarsError, name: Seq<char>) -> bool {
    match e {
        LarsError::ServiceAlreadyExists(n) => n@ == name,
        _ => false,
    }
}

/// Decimal digits of `n`, most significant first.
pub open spec fn decimal_of(n: nat) -> Seq<char>
    decreases n,
{
    if n < 10 {
        seq![digit_char(n)]
    } else {
        decimal_of(n / 10).push(digit_char(n % 10))
    }
}

/// The ASCII digit for a value below ten.
pub open spec fn digit_char(d: nat) -> char {
    if d == 0 { '0' } else if d == 1 { '1' } else if d == 2 { '2' } else if d == 3 { '3' }
    else if d == 4 { '4' } else if d == 5 { '5' } else if d == 6 { '6' } else if d == 7 { '7' }
    else if d == 8 { '8' } else { '9' }
}

proof fn lemma_digit_char_injective(a: nat, b: nat)
    requires
        a < 10,
        b < 10,
        digit_char(a) == digit_char(b),
    ensures
        a == b,
{
}

proof fn lemma_decimal_nonempty(n: nat)
    ensures
        decimal_of(n).len() >= 1,
        n >= 10 ==> decimal_of(n).len() >= 2,
    decreases n,
{
    if n >= 10 {
        lemma_decimal_nonempty(n / 10);
    }
}

/// Distinct numbers have distinct decimal texts.
pub proof fn lemma_decimal_injective(a: nat, b: nat)
    requires
        decimal_of(a) == decimal_of(b),
    ensures
        a == b,
    decreases a,
{
    lemma_decimal_nonempty(a);
    lemma_decimal_nonempty(b);
    if a < 10 && b < 10 {
        assert(decimal_of(a)[0] == digit_char(a));
        assert(decimal_of(b)[0] == digit_char(b));
        lemma_digit_char_injective(a, b);
    } else if a >= 10 && b >= 10 {
        let da = decimal_of(a);
        let db = decimal_of(b);
        assert(da.drop_last() =~= decimal_of(a / 10));
        assert(db.drop_last() =~= decimal_of(b / 10));
        lemma_decimal_injective(a / 10, b / 10);
        assert(da.last() == digit_char(a % 10));
        assert(db.last() == digit_char(b % 10));
        lemma_digit_char_injective(a % 10, b % 10);
    }
}

fn digit_string(d: usize) -> (r: String)
    requires
        d < 10,
    ensures
        r@ == seq![digit_char(d as nat)],
{
    let s = if d == 0 { "0" } else if d == 1 { "1" } else if d == 2 { "2" } else if d == 3 { "3" }
    else if d == 4 { "4" } else if d == 5 { "5" } else if d == 6 { "6" } else if d == 7 { "7" }
    else if d == 8 { "8" } else { "9" };
    proof {
        reveal_strlit("0"); reveal_strlit("1"); reveal_strlit("2"); reveal_strlit("3");
        reveal_strlit("4"); reveal_strlit("5"); reveal_strlit("6"); reveal_strlit("7");
        reveal_strlit("8"); reveal_strlit("9");
    }
    String::from_str(s)
}

/// Decimal text of an unsigned integer.
pub fn decimal_string(n: usize) -> (r: String)
    ensures
        r@ == decimal_of(n as nat),
    decreases n,
{
    if n < 10 {
        digit_string(n)
    } else {
        let head = decimal_string(n / 10);
        let tail = digit_string(n % 10);
        let r = head.concat(tail.as_str());
        r
    }
}

/// The description of a validation error.
pub open spec fn validation_message(e: ValidationError) -> Seq<char> {
    match e {
        ValidationError::InvalidNameLength(n) => "Name must be 1-64 characters, got "@ + decimal_of(n as nat),
        ValidationError::InvalidNameCharacters => "Name can only contain alphanumeric characters, underscores, and hyphens"@,
        ValidationError::NullByteInInput => "Input contains null byte"@,
        ValidationError::EmptyInput => "Input cannot be empty"@,
    }
}

/// The description of a persistence error.
pub open spec fn config_message(e: ConfigError) -> Seq<char> {
    match e {
        ConfigError::NoConfigDirectory => "Could not determine config directory"@,
        ConfigError::ParseError(m) => "Failed to parse config: "@ + m@,
        ConfigError::NotWritable(m) => "Config directory is not writable: "@ + m@,
        ConfigError::Io(m) => "Config IO error: "@ + m@,
    }
}

/// The description of an error.
pub open spec fn lars_message(e: LarsError) -> Seq<char> {
    match e {
        LarsError::ServiceNotFound(n) => "Service not found: "@ + n@,
        LarsError::ServiceAlreadyExists(n) => "Service already exists: "@ + n@,
        LarsError::RunnerNotAvailable(m) => "Runner not available: "@ + m@,
        LarsError::OperationNotSupported(m) => "Operation not supported by runner: "@ + m@,
        LarsError::Validation(v) => "Validation error: "@ + validation_message(v),
        LarsError::Config(c) => "Config error: "@ + config_message(c),
        LarsError::Io(m) => "IO error: "@ + m@,
        LarsError::StopTimeout(n) => "Timeout waiting for service to stop: "@ + n@,
        LarsError::InvalidPath => "Invalid path"@,
        LarsError::ProcessFailed(m) => "Process execution failed: "@ + m@,
    }
}

fn prefixed(prefix: &str, rest: &str) -> (r: String)
    ensures
        r@ == prefix@ + rest@,
{
    prefix.to_owned().concat(rest)
}

impl ValidationError {
    /// Human-readable description.
    pub fn to_string(&self) -> (r: String)
        ensures
            r@ == validation_message(*self),
    {
        match self {
            ValidationError::InvalidNameLength(n) => prefixed("Name must be 1-64 characters, got ", decimal_string(*n).as_str()),
            ValidationError::InvalidNameCharacters => String::from_str(
                "Name can only contain alphanumeric characters, underscores, and hyphens",
            ),
            ValidationError::NullByteInInput => String::from_str("Input contains null byte"),
            ValidationError::EmptyInput => String::from_str("Input cannot be empty"),
        }
    }
}

impl ConfigError {
    /// Human-readable description.
    pub fn to_string(&self) -> (r: String)
        ensures
            r@ == config_message(*self),
    {
        match self {
            ConfigError::NoConfigDirectory => String::from_str("Could not determine config directory"),
            ConfigError::ParseError(m) => prefixed("Failed to parse config: ", m.as_str()),
            ConfigError::NotWritable(m) => prefixed("Config directory is not writable: ", m.as_str()),
            ConfigError::Io(m) => prefixed("Config IO error: ", m.as_str()),
        }
    }
}

impl LarsError {
    /// Human-readable description.
    pub fn to_string(&self) -> (r: String)
        ensures
            r@ == lars_message(*self),
    {
        match self {
            LarsError::ServiceNotFound(n) => prefixed("Service not found: ", n.as_str()),
            LarsError::ServiceAlreadyExists(n) => prefixed("Service already exists: ", n.as_str()),
            LarsError::RunnerNotAvailable(m) => prefixed("Runner not available: ", m.as_str()),
            LarsError::OperationNotSupported(m) => prefixed("Operation not supported by runner: ", m.as_str()),
            LarsError::Validation(v) => prefixed("Validation error: ", v.to_string().as_str()),
            LarsError::Config(c) => prefixed("Config error: ", c.to_string().as_str()),
            LarsError::Io(m) => prefixed("IO error: ", m.as_str()),
            LarsError::StopTimeout(n) => prefixed("Timeout waiting for service to stop: ", n.as_str()),
            LarsError::InvalidPath => String::from_str("Invalid path"),
            LarsError::ProcessFailed(m) => prefixed("Process execution failed: ", m.as_str()),
        }
    }
}

impl From<ValidationError> for LarsError {
    fn from(e: ValidationError) -> (r: LarsError)
        ensures
            r == LarsError::Validation(e),
    {
        LarsError::Validation(e)
    }
}

impl vstd::std_specs::convert::FromSpecImpl<ValidationError> for LarsError {
    open spec fn obeys_from_spec() -> bool {
        true
    }

    open spec fn from_spec(e: ValidationError) -> LarsError {
        LarsError::Validation(e)
    }
}

} // verus!
