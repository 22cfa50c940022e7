//! Settings of a mining run, resolved from the command line and the environment.

use vstd::prelude::*;

verus! {

/// The address of the HASH256 contract on Ethereum mainnet.
pub const CONTRACT_ADDRESS: &'static str = "0xAC7b5d06fa1e77D08aea40d46cB7C5923A87A0cc";

/// Which device searches for solutions.
#[derive(Clone, Copy, Debug, PartialEq, Eq)]
pub enum Backend {
    /// OpenCL first, the CPU when OpenCL is not available or fails.
    Auto,
    Cpu,
    Opencl,
}

impl Backend {
    /// Whether the OpenCL backend is tried at all.
    pub fn tries_opencl(self) -> (r: bool)
        ensures
            r == (self == Backend::Opencl || self == Backend::Auto),
    {
        match self {
            Backend::Cpu => false,
            _ => true,
        }
    }

    /// Whether a failure of the OpenCL backend gives way to the CPU search instead
    /// of ending the run.
    pub fn falls_back_to_cpu(self) -> (r: bool)
        ensures
            r == (self == Backend::Auto),
    {
        match self {
            Backend::Auto => true,
            _ => false,
        }
    }
}

/// What the search for a solution does next.
#[derive(Clone, Copy, Debug, PartialEq, Eq)]
pub enum SearchAction {
    /// Start the OpenCL backend and search with it.
    TryOpenCl,
    /// Search on the CPU.
    RunCpu,
    /// End the run with the OpenCL error.
    GiveUp,
}

/// The order of the backends: the first action of a search (`opencl_failed`
/// false), and the action after the OpenCL backend failed to start or to search
/// (`opencl_failed` true). `Auto` tries OpenCL and falls back to the CPU, `Opencl`
/// tries OpenCL and gives up when it fails, `Cpu` goes to the CPU at once.
pub open spec fn search_action(backend: Backend, opencl_failed: bool) -> SearchAction {
    if !opencl_failed {
        match backend {
            Backend::Cpu => SearchAction::RunCpu,
            _ => SearchAction::TryOpenCl,
        }
    } else {
        match backend {
            Backend::Auto => SearchAction::RunCpu,
            _ => SearchAction::GiveUp,
        }
    }
}

pub fn next_search_action(backend: Backend, opencl_failed: bool) -> (r: SearchAction)
    ensures
        r == search_action(backend, opencl_failed),
{
    if !opencl_failed {
        if backend.tries_opencl() {
            SearchAction::TryOpenCl
        } else {
            SearchAction::RunCpu
        }
    } else if backend.falls_back_to_cpu() {
        SearchAction::RunCpu
    } else {
        SearchAction::GiveUp
    }
}

/// A subcommand.
#[derive(Clone, Copy, Debug, PartialEq, Eq)]
pub enum Command {
    /// Read the contract state and stop; no wallet is needed.
    Check,
}

/// The command line, as parsed.
#[derive(Clone, Debug)]
pub struct Cli {
    pub command: Option<Command>,
    pub backend: Backend,
    pub workers: Option<usize>,
    pub cpu_batch: u64,
    pub gpu_batch: usize,
    pub priority_fee_gwei: String,
    pub once: bool,
}

/// The environment variables that a run reads; `None` where a variable is unset
/// or not valid Unicode.
#[derive(Clone, Debug)]
pub struct Environment {
    pub rpc_url: Option<String>,
    pub private_key: Option<String>,
    pub keep_mining: Option<String>,
    pub telegram_bot_token: Option<String>,
    pub telegram_chat_id: Option<String>,
}

/// Where to send a notice when a solution has been mined.
#[derive(Clone, Debug)]
pub struct TelegramConfig {
    pub bot_token: String,
    pub chat_id: String,
}

/// The settings of a run.
#[derive(Clone, Debug)]
pub struct Config {
    pub rpc_url: String,
    pub private_key: String,
    pub backend: Backend,
    pub workers: usize,
    pub cpu_batch: u64,
    pub gpu_batch: usize,
    pub priority_fee_gwei: String,
    pub keep_mining: bool,
    pub telegram: Option<TelegramConfig>,
}

/// Why the settings could not be made.
#[derive(Clone, Copy, Debug, PartialEq, Eq)]
pub enum ConfigError {
    /// `RPC_URL` is not set.
    MissingRpcUrl,
    /// A wallet is needed and `PRIVATE_KEY` is empty or not set.
    MissingPrivateKey,
    /// A wallet is needed and `PRIVATE_KEY` does not start with `0x`.
    PrivateKeyWithoutPrefix,
}

impl ConfigError {
    /// The message shown for the error.
    pub fn message(&self) -> (r: &'static str)
        ensures
            r@ == config_error_message(*self),
    {
        match self {
            ConfigError::MissingRpcUrl => "Isi RPC_URL di file .env dulu",
            ConfigError::MissingPrivateKey => "Isi PRIVATE_KEY di file .env dulu",
            ConfigError::PrivateKeyWithoutPrefix => "PRIVATE_KEY harus diawali 0x",
        }
    }
}

pub open spec fn config_error_message(e: ConfigError) -> Seq<char> {
    match e {
        ConfigError::MissingRpcUrl => "Isi RPC_URL di file .env dulu"@,
        ConfigError::MissingPrivateKey => "Isi PRIVATE_KEY di file .env dulu"@,
        ConfigError::PrivateKeyWithoutPrefix => "PRIVATE_KEY harus diawali 0x"@,
    }
}

/// Whether `c` is white space in the sense of Unicode's `White_Space` property,
/// as `char::is_whitespace` and `str::trim` take it.
pub open spec fn is_unicode_whitespace(c: char) -> bool {
    let u = c as u32;
    ||| 0x9 <= u <= 0xd
    ||| u == 0x20
    ||| u == 0x85
    ||| u == 0xa0
    ||| u == 0x1680
    ||| 0x2000 <= u <= 0x200a
    ||| u == 0x2028
    ||| u == 0x2029
    ||| u == 0x202f
    ||| u == 0x205f
    ||| u == 0x3000
}

/// A text is blank when nothing is left of it once white space is trimmed.
pub open spec fn is_blank_text(s: Seq<char>) -> bool {
    forall|i: int| 0 <= i < s.len() ==> #[trigger] is_unicode_whitespace(s[i])
}

pub fn is_whitespace_char(c: char) -> (r: bool)
    ensures
        r == is_unicode_whitespace(c),
{
    let u = c as u32;
    (0x9 <= u && u <= 0xd) || u == 0x20 || u == 0x85 || u == 0xa0 || u == 0x1680 || (0x2000 <= u
        && u <= 0x200a) || u == 0x2028 || u == 0x2029 || u == 0x202f || u == 0x205f || u == 0x3000
}

/// Whether `s.trim()` is empty.
pub fn is_blank(s: &str) -> (r: bool)
    ensures
        r == is_blank_text(s@),
{
    let n = s.unicode_len();
    let mut i: usize = 0;
    while i < n
        invariant
            n == s@.len(),
            i <= n,
            forall|j: int| 0 <= j < i ==> #[trigger] is_unicode_whitespace(s@[j]),
        decreases n - i,
    {
        if !is_whitespace_char(s.get_char(i)) {
            return false;
        }
        i = i + 1;
    }
    true
}

/// Whether `s` starts with `0x`.
pub fn starts_with_0x(s: &str) -> (r: bool)
    ensures
        r == "0x"@.is_prefix_of(s@),
{
    proof {
        reveal_strlit("0x");
    }
    let n = s.unicode_len();
    if n < 2 {
        return false;
    }
    let r = s.get_char(0) == '0' && s.get_char(1) == 'x';
    assert(r ==> "0x"@ =~= s@.subrange(0, 2));
    assert("0x"@.is_prefix_of(s@) ==> r) by {
        if "0x"@.is_prefix_of(s@) {
            assert(s@.subrange(0, 2)[0] == s@[0]);
            assert(s@.subrange(0, 2)[1] == s@[1]);
        }
    }
    r
}

/// Whether `s` is exactly `false`.
pub fn is_false_text(s: &str) -> (r: bool)
    ensures
        r == (s@ == "false"@),
{
    proof {
        reveal_strlit("false");
    }
    let n = s.unicode_len();
    if n != 5 {
        return false;
    }
    let r = s.get_char(0) == 'f' && s.get_char(1) == 'a' && s.get_char(2) == 'l' && s.get_char(3)
        == 's' && s.get_char(4) == 'e';
    assert(r ==> s@ =~= "false"@);
    r
}

/// The Telegram settings, when both the bot token and the chat id are given and
/// neither is blank.
pub open spec fn telegram_wanted(bot_token: Option<String>, chat_id: Option<String>) -> bool {
    &&& bot_token is Some
    &&& chat_id is Some
    &&& !is_blank_text(bot_token->0@)
    &&& !is_blank_text(chat_id->0@)
}

pub fn read_telegram_config(bot_token: Option<String>, chat_id: Option<String>) -> (r: Option<
    TelegramConfig,
>)
    ensures
        r is Some <==> telegram_wanted(bot_token, chat_id),
        r matches Some(t) ==> t.bot_token == bot_token->0 && t.chat_id == chat_id->0,
{
    let bot_token = match bot_token {
        Some(t) => t,
        None => return None,
    };
    let chat_id = match chat_id {
        Some(c) => c,
        None => return None,
    };
    if is_blank(bot_token.as_str()) || is_blank(chat_id.as_str()) {
        return None;
    }
    Some(TelegramConfig { bot_token, chat_id })
}

/// Rounds the GPU batch up to at least 65536 and down to a multiple of 64.
pub open spec fn normalized_gpu_batch(batch: usize) -> usize {
    let b = if batch < 65_536 {
        65_536usize
    } else {
        batch
    };
    (b - b % 64) as usize
}

pub fn normalize_gpu_batch(batch: usize) -> (r: usize)
    ensures
        r == normalized_gpu_batch(batch),
{
    let batch = if batch < 65_536 {
        65_536
    } else {
        batch
    };
    batch - (batch % 64)
}

/// The number of CPU workers when none is asked for: one less than the CPUs,
/// but at least one.
pub open spec fn default_workers(cpus: usize) -> usize {
    if cpus <= 1 {
        1
    } else {
        (cpus - 1) as usize
    }
}

/// `w` brought into 1 ..= 64.
pub open spec fn clamp_workers(w: usize) -> usize {
    if w < 1 {
        1
    } else if w > 64 {
        64
    } else {
        w
    }
}

/// Whether the settings can be resolved, and if not, why.
pub open spec fn config_outcome(cli: Cli, env: Environment) -> Result<(), ConfigError> {
    let private_key = match env.private_key {
        Some(k) => k@,
        None => Seq::empty(),
    };
    if env.rpc_url is None {
        Err(ConfigError::MissingRpcUrl)
    } else if cli.command is None && private_key.len() == 0 {
        Err(ConfigError::MissingPrivateKey)
    } else if cli.command is None && !"0x"@.is_prefix_of(private_key) {
        Err(ConfigError::PrivateKeyWithoutPrefix)
    } else {
        Ok(())
    }
}

/// The settings resolved from `cli` and `env` are `c`.
pub open spec fn config_matches(c: Config, cli: Cli, env: Environment, cpus: usize) -> bool {
    &&& c.rpc_url == env.rpc_url->0
    &&& c.private_key@ == (match env.private_key {
        Some(k) => k@,
        None => Seq::empty(),
    })
    &&& c.backend == cli.backend
    &&& c.workers == clamp_workers(
        match cli.workers {
            Some(w) => w,
            None => default_workers(cpus),
        },
    )
    &&& c.cpu_batch == (if cli.cpu_batch == 0 {
        1
    } else {
        cli.cpu_batch
    })
    &&& c.gpu_batch == normalized_gpu_batch(cli.gpu_batch)
    &&& c.priority_fee_gwei == cli.priority_fee_gwei
    &&& c.keep_mining == (!cli.once && !(env.keep_mining matches Some(k) && k@ == "false"@))
    &&& c.telegram is Some <==> telegram_wanted(env.telegram_bot_token, env.telegram_chat_id)
    &&& c.telegram matches Some(t) ==> t.bot_token == env.telegram_bot_token->0 && t.chat_id
        == env.telegram_chat_id->0
}

/// Trusted: `num_cpus::get` counts the CPUs that this process may run on. The count
/// depends on the machine, so nothing is claimed of it.
#[verifier::external_body]
fn logical_cpus() -> usize {
    num_cpus::get()
}

impl Config {
    /// Resolves the settings; the number of CPU workers, when the command line asks
    /// for none, follows from the CPUs of the machine.
    pub fn from_cli(cli: &Cli, env: Environment) -> (r: Result<Config, ConfigError>)
        ensures
            match r {
                Ok(c) => {
                    &&& config_outcome(*cli, env) == Ok::<(), ConfigError>(())
                    &&& exists|cpus: usize| #[trigger] config_matches(c, *cli, env, cpus)
                    &&& 1 <= c.workers <= 64
                },
                Err(e) => config_outcome(*cli, env) == Err::<(), ConfigError>(e),
            },
    {
        let cpus = logical_cpus();
        let r = Self::from_cli_with_cpus(cli, env, cpus);
        assert(r matches Ok(c) ==> config_matches(c, *cli, env, cpus));
        r
    }

    /// Resolves the settings for a machine with `cpus` CPUs.
    pub fn from_cli_with_cpus(cli: &Cli, env: Environment, cpus: usize) -> (r: Result<
        Config,
        ConfigError,
    >)
        ensures
            match r {
                Ok(c) => config_outcome(*cli, env) == Ok::<(), ConfigError>(()) && config_matches(
                    c,
                    *cli,
                    env,
                    cpus,
                ),
                Err(e) => config_outcome(*cli, env) == Err::<(), ConfigError>(e),
            },
    {
        let rpc_url = match env.rpc_url {
            Some(u) => u,
            None => return Err(ConfigError::MissingRpcUrl),
        };
        let private_key = match env.private_key {
            Some(k) => k,
            None => String::new(),
        };
        let needs_wallet = match cli.command {
            Some(Command::Check) => false,
            None => true,
        };
        if needs_wallet {
            if private_key.as_str().is_empty() {
                return Err(ConfigError::MissingPrivateKey);
            }
            if !starts_with_0x(private_key.as_str()) {
                return Err(ConfigError::PrivateKeyWithoutPrefix);
            }
        }
        let fallback = if cpus <= 1 {
            1
        } else {
            cpus - 1
        };
        let requested = match cli.workers {
            Some(w) => w,
            None => fallback,
        };
        let workers = if requested < 1 {
            1
        } else if requested > 64 {
            64
        } else {
            requested
        };
        let keep_requested = match &env.keep_mining {
            Some(k) => !is_false_text(k.as_str()),
            None => true,
        };
        let telegram = read_telegram_config(env.telegram_bot_token, env.telegram_chat_id);
        Ok(
            Config {
                rpc_url,
                private_key,
                backend: cli.backend,
                workers,
                cpu_batch: if cli.cpu_batch == 0 {
                    1
                } else {
                    cli.cpu_batch
                },
                gpu_batch: normalize_gpu_batch(cli.gpu_batch),
                priority_fee_gwei: cli.priority_fee_gwei.clone(),
                keep_mining: !cli.once && keep_requested,
                telegram,
            },
        )
    }
}

} // verus!
