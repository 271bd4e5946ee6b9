use vstd::prelude::*;
use vstd::string::*;

verus! {

/// The directory that is searched when nothing names one.
pub const DEFAULT_BASE_DIR: &'static str = "/var/log";

/// The address that the service listens on when nothing names one.
pub const DEFAULT_LISTEN: &'static str = "0.0.0.0:5000";

/// The number of searches at a time when nothing names one.
pub const DEFAULT_CONCURRENT: usize = 4;

/// What is logged when nothing says so.
pub const DEFAULT_LOG_FILTER: &'static str = "ripgrep_web=info,tower_http=info";

/// What the command line says of a configuration file.
#[derive(Debug, PartialEq, Eq)]
pub enum ConfigArgument {
    /// Nothing.
    Absent,
    /// That the file with this path holds the configuration.
    File(String),
    /// `--config`, but no path behind it.
    MissingPath,
}

/// Whether a text begins with another.
pub open spec fn begins_with(text: Seq<char>, start: Seq<char>) -> bool {
    text.len() >= start.len() && text.take(start.len() as int) == start
}

/// Whether this is what the arguments of the command line say of a configuration file:
/// the first one that is `--config`, with the path in the next, or that begins with
/// `--config=`, with the path behind it, counts.
pub open spec fn is_config_argument(r: ConfigArgument, args: Seq<String>) -> bool
    decreases args.len(),
{
    if args.len() == 0 {
        r is Absent
    } else if args[0]@ == "--config"@ {
        if args.len() == 1 {
            r is MissingPath
        } else {
            r matches ConfigArgument::File(path) && path@ == args[1]@
        }
    } else if begins_with(args[0]@, "--config="@) {
        r matches ConfigArgument::File(path) && path@ == args[0]@.skip("--config="@.len() as int)
    } else {
        is_config_argument(r, args.drop_first())
    }
}

/// Looks for a configuration file in the arguments of the command line, which come
/// without the name of the program.
pub fn config_argument(args: &[String]) -> (r: ConfigArgument)
    ensures
        is_config_argument(r, args@),
{
    let mut at: usize = 0;
    assert(args@.skip(0) =~= args@);
    while at < args.len()
        invariant
            at <= args@.len(),
            forall|r: ConfigArgument| #[trigger]
                is_config_argument(r, args@) == is_config_argument(r, args@.skip(at as int)),
        decreases args@.len() - at,
    {
        let ghost rest = args@.skip(at as int);
        if args[at] == "--config".to_owned() {
            if at + 1 == args.len() {
                return ConfigArgument::MissingPath;
            }
            return ConfigArgument::File(args[at + 1].clone());
        }
        if let Some(path) = text_behind(args[at].as_str(), "--config=") {
            return ConfigArgument::File(path);
        }
        assert(rest.drop_first() =~= args@.skip(at + 1));
        at = at + 1;
    }
    ConfigArgument::Absent
}

/// What follows `start` in a text that begins with it.
fn text_behind(text: &str, start: &str) -> (r: Option<String>)
    ensures
        match r {
            Some(rest) => begins_with(text@, start@) && rest@ == text@.skip(
                start@.len() as int,
            ),
            None => !begins_with(text@, start@),
        },
{
    let length: usize = text.unicode_len();
    let needed: usize = start.unicode_len();
    if length < needed {
        return None;
    }
    let front = text.substring_char(0, needed).to_owned();
    if front == start.to_owned() {
        let rest = text.substring_char(needed, length);
        Some(rest.to_owned())
    } else {
        None
    }
}

/// The number that a list of decimal digits stands for.
pub open spec fn value_of(digits: Seq<char>) -> int
    decreases digits.len(),
{
    if digits.len() == 0 {
        0
    } else {
        value_of(digits.drop_last()) * 10 + (digits.last() as int - '0' as int)
    }
}

/// Whether a text is made of decimal digits, one at least.
pub open spec fn is_number(text: Seq<char>) -> bool {
    text.len() > 0 && forall|i: int| 0 <= i < text.len() ==> '0' <= #[trigger] text[i] <= '9'
}

/// The number in a text: decimal digits, with or without a `+` in front of them. `None`
/// where the text is no such number, or one that is 0 or does not fit.
pub open spec fn count_of(text: Seq<char>) -> Option<int> {
    let digits = if text.len() > 0 && text[0] == '+' {
        text.skip(1)
    } else {
        text
    };
    if is_number(digits) && 0 < value_of(digits) <= usize::MAX {
        Some(value_of(digits))
    } else {
        None
    }
}

/// Computes `count_of`.
pub fn parse_count(text: &str) -> (r: Option<usize>)
    ensures
        match r {
            Some(n) => count_of(text@) == Some(n as int),
            None => count_of(text@) is None,
        },
{
    let length: usize = text.unicode_len();
    let from: usize = if length > 0 && text.get_char(0) == '+' {
        1
    } else {
        0
    };
    let digits = text.substring_char(from, length);
    if from == length {
        return None;
    }
    let mut total: usize = 0;
    let mut fits = true;
    for c in it: digits.chars()
        invariant
            it.seq() == digits@,
            forall|i: int| 0 <= i < it.index() ==> '0' <= #[trigger] digits@[i] <= '9',
            fits == (value_of(digits@.take(it.index() as int)) <= usize::MAX),
            fits ==> total == value_of(digits@.take(it.index() as int)),
            digits@ == (if text@.len() > 0 && text@[0] == '+' {
                text@.skip(1)
            } else {
                text@
            }),
    {
        let ghost prefix = digits@.take(it.index() + 1);
        assert(prefix.drop_last() =~= digits@.take(it.index() as int));
        if c < '0' || c > '9' {
            return None;
        }
        let digit: u128 = (c as u32 - 48) as u128;
        let next: u128 = total as u128 * 10 + digit;
        if fits && next <= usize::MAX as u128 {
            total = next as usize;
        } else {
            fits = false;
        }
    }
    assert(digits@.take(digits@.len() as int) =~= digits@);
    if fits && total > 0 {
        Some(total)
    } else {
        None
    }
}

/// What a configuration file says; a field that it leaves out is `None`.
#[derive(Debug)]
pub struct ConfigFile {
    pub base_dir: Option<String>,
    pub listen_addr: Option<String>,
    pub max_concurrent_searches: Option<usize>,
    pub rust_log: Option<String>,
}

impl Default for ConfigFile {
    fn default() -> (config: ConfigFile)
        ensures
            config.base_dir is None,
            config.listen_addr is None,
            config.max_concurrent_searches is None,
            config.rust_log is None,
    {
        ConfigFile {
            base_dir: None,
            listen_addr: None,
            max_concurrent_searches: None,
            rust_log: None,
        }
    }
}

/// What the environment says, variable by variable; one that is not set is `None`.
#[derive(Debug)]
pub struct Environment {
    /// `LOG_BASE_DIR`.
    pub base_dir: Option<String>,
    /// `LISTEN_ADDR`.
    pub listen_addr: Option<String>,
    /// `MAX_CONCURRENT_SEARCHES`.
    pub max_concurrent_searches: Option<String>,
    /// `RUST_LOG`.
    pub rust_log: Option<String>,
}

/// What the service runs with.
#[derive(Debug)]
pub struct Settings {
    pub base_dir: String,
    pub listen_addr: String,
    pub max_concurrent_searches: usize,
    pub rust_log: String,
}

/// The first of two texts that is there, or else the third.
pub open spec fn preferred(
    one: Option<String>,
    other: Option<String>,
    default: Seq<char>,
) -> Seq<char> {
    match (one, other) {
        (Some(text), _) => text@,
        (None, Some(text)) => text@,
        (None, None) => default,
    }
}

/// Computes `preferred`.
fn prefer(one: Option<String>, other: Option<String>, default: &str) -> (r: String)
    ensures
        r@ == preferred(one, other, default@),
{
    match (one, other) {
        (Some(text), _) => text,
        (None, Some(text)) => text,
        (None, None) => default.to_owned(),
    }
}

/// How many searches run at a time: what the configuration file says if that is more
/// than 0, else what the environment says if that is such a number, else the default.
pub open spec fn concurrent_searches(config: Option<usize>, variable: Option<String>) -> int {
    if config is Some && config->0 > 0 {
        config->0 as int
    } else if variable is Some && count_of(variable->0@) is Some {
        count_of(variable->0@)->0
    } else {
        DEFAULT_CONCURRENT as int
    }
}

/// Whether this is what the service runs with. What the configuration file says comes
/// first, the environment next and the defaults last; for the log filter the
/// environment comes first.
pub open spec fn are_settings(
    settings: Settings,
    config: ConfigFile,
    environment: Environment,
) -> bool {
    &&& settings.base_dir@ == preferred(
        config.base_dir,
        environment.base_dir,
        DEFAULT_BASE_DIR@,
    )
    &&& settings.listen_addr@ == preferred(
        config.listen_addr,
        environment.listen_addr,
        DEFAULT_LISTEN@,
    )
    &&& settings.max_concurrent_searches == concurrent_searches(
        config.max_concurrent_searches,
        environment.max_concurrent_searches,
    )
    &&& settings.rust_log@ == preferred(
        environment.rust_log,
        config.rust_log,
        DEFAULT_LOG_FILTER@,
    )
}

/// Puts together what the service runs with.
pub fn resolve_settings(config: ConfigFile, environment: Environment) -> (settings: Settings)
    ensures
        are_settings(settings, config, environment),
        settings.max_concurrent_searches > 0,
{
    let from_environment = match environment.max_concurrent_searches {
        Some(text) => parse_count(text.as_str()),
        None => None,
    };
    let max_concurrent_searches: usize = match config.max_concurrent_searches {
        Some(n) if n > 0 => n,
        _ => match from_environment {
            Some(n) => n,
            None => DEFAULT_CONCURRENT,
        },
    };
    Settings {
        base_dir: prefer(config.base_dir, environment.base_dir, DEFAULT_BASE_DIR),
        listen_addr: prefer(config.listen_addr, environment.listen_addr, DEFAULT_LISTEN),
        max_concurrent_searches,
        rust_log: prefer(environment.rust_log, config.rust_log, DEFAULT_LOG_FILTER),
    }
}

/// Where no argument is `--config` or begins with `--config=`, there is no configuration file.
pub proof fn without_the_argument_there_is_no_file(r: ConfigArgument, args: Seq<String>)
    requires
        is_config_argument(r, args),
        forall|i: int|
            0 <= i < args.len() ==> (#[trigger] args[i])@ != "--config"@ && !("--config="@.len()
                <= args[i]@.len() && args[i]@.take("--config="@.len() as int) == "--config="@),
    ensures
        r is Absent,
    decreases args.len(),
{
    if args.len() > 0 {
        assert(args[0]@ != "--config"@);
        without_the_argument_there_is_no_file(r, args.drop_first());
    }
}

/// The first argument that is `--config` or begins with `--config=` names the file: the one
/// counts with the argument behind it, the other with what follows its sign.
pub proof fn the_first_argument_names_the_file(r: ConfigArgument, args: Seq<String>, k: int)
    requires
        is_config_argument(r, args),
        0 <= k < args.len(),
        args[k]@ == "--config"@ || ("--config="@.len() <= args[k]@.len() && args[k]@.take(
            "--config="@.len() as int,
        ) == "--config="@),
        forall|i: int|
            0 <= i < k ==> (#[trigger] args[i])@ != "--config"@ && !("--config="@.len()
                <= args[i]@.len() && args[i]@.take("--config="@.len() as int) == "--config="@),
    ensures
        args[k]@ == "--config"@ && k + 1 < args.len() ==> r is File && r->File_0@ == args[k
            + 1]@,
        args[k]@ == "--config"@ && k + 1 == args.len() ==> r is MissingPath,
        args[k]@ != "--config"@ ==> r is File && "--config="@ + r->File_0@ == args[k]@,
    decreases k,
{
    if k > 0 {
        assert(args[0]@ != "--config"@);
        the_first_argument_names_the_file(r, args.drop_first(), k - 1);
    } else if args[0]@ != "--config"@ {
        let n = "--config="@.len() as int;
        assert(args[0]@.take(n) + args[0]@.skip(n) =~= args[0]@);
    }
}

/// A number is read digit by digit, from the left.
pub proof fn a_digit_counts_ten_times_what_follows_it(digits: Seq<char>, digit: char)
    requires
        '0' <= digit <= '9',
    ensures
        value_of(Seq::empty()) == 0,
        value_of(digits.push(digit)) == 10 * value_of(digits) + (digit as int - 48),
{
    assert(digits.push(digit).drop_last() =~= digits);
}

/// A text is a number of searches exactly if it is made of digits, behind a `+` or not, and
/// stands for a number that is not 0 and fits.
pub proof fn a_count_is_a_number_in_digits(digits: Seq<char>)
    requires
        digits.len() > 0 ==> digits[0] != '+',
    ensures
        ({
            let is_count = digits.len() > 0 && (forall|i: int|
                0 <= i < digits.len() ==> '0' <= #[trigger] digits[i] <= '9') && 0 < value_of(
                digits,
            ) <= usize::MAX;
            &&& count_of(digits) == if is_count {
                Some(value_of(digits))
            } else {
                None
            }
            &&& count_of(seq!['+'] + digits) == count_of(digits)
        }),
{
    assert((seq!['+'] + digits).skip(1) =~= digits);
}

/// What the service runs with: for each text what the configuration file says, else the
/// environment, else the default; the log filter goes by the environment first. A number of
/// searches that is 0 or none is passed over.
pub proof fn settings_go_by_precedence(
    settings: Settings,
    config: ConfigFile,
    environment: Environment,
)
    requires
        are_settings(settings, config, environment),
    ensures
        config.base_dir matches Some(text) ==> settings.base_dir@ == text@,
        config.base_dir is None ==> (environment.base_dir matches Some(text) ==> settings.base_dir@
            == text@),
        config.base_dir is None && environment.base_dir is None ==> settings.base_dir@
            == "/var/log"@,
        config.listen_addr matches Some(text) ==> settings.listen_addr@ == text@,
        config.listen_addr is None ==> (environment.listen_addr matches Some(text)
            ==> settings.listen_addr@ == text@),
        config.listen_addr is None && environment.listen_addr is None ==> settings.listen_addr@
            == "0.0.0.0:5000"@,
        environment.rust_log matches Some(text) ==> settings.rust_log@ == text@,
        environment.rust_log is None ==> (config.rust_log matches Some(text) ==> settings.rust_log@
            == text@),
        environment.rust_log is None && config.rust_log is None ==> settings.rust_log@
            == "ripgrep_web=info,tower_http=info"@,
        config.max_concurrent_searches matches Some(n) ==> n > 0
            ==> settings.max_concurrent_searches == n,
        config.max_concurrent_searches is None || config.max_concurrent_searches->0 == 0 ==> {
            match environment.max_concurrent_searches {
                Some(text) => settings.max_concurrent_searches == match count_of(text@) {
                    Some(n) => n,
                    None => 4,
                },
                None => settings.max_concurrent_searches == 4,
            }
        },
{
}

/// A text with anything but digits behind its first character, or with a first one that is
/// neither a digit nor a `+` before one, is no number of searches.
pub proof fn a_count_holds_digits_alone(text: Seq<char>)
    requires
        count_of(text) is Some,
    ensures
        text.len() > 0,
        '0' <= text[0] <= '9' || (text[0] == '+' && text.len() > 1),
        forall|i: int| 1 <= i < text.len() ==> '0' <= #[trigger] text[i] <= '9',
        0 < count_of(text)->0 <= usize::MAX,
{
    if text[0] == '+' {
        let digits = text.skip(1);
        assert forall|i: int| 1 <= i < text.len() implies '0' <= #[trigger] text[i] <= '9' by {
            assert(digits[i - 1] == text[i]);
        }
    }
}

} // verus!
