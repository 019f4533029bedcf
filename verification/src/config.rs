//! The application's settings: how many worker threads process invoices.
use vstd::prelude::*;
use vstd::string::*;

verus! {

/// Fewest worker threads a run is given.
pub const MIN_THREADS: usize = 1;

/// Most worker threads a run is given.
pub const MAX_THREADS: usize = 128;

/// Worker threads of a fresh configuration.
pub const DEFAULT_THREADS: usize = 32;

/// Application settings, kept next to the executable in `config.toml`.
#[derive(Debug, Clone, Copy)]
pub struct Config {
    /// Size of the thread pool that processes invoice files in parallel.
    pub thread_pool_size: usize,
}

/// `n` limited to the range from `MIN_THREADS` to `MAX_THREADS`.
pub open spec fn clamp_threads(n: int) -> int {
    if n < MIN_THREADS {
        MIN_THREADS as int
    } else if n > MAX_THREADS {
        MAX_THREADS as int
    } else {
        n
    }
}

/// Limiting a thread count keeps every count from 1 to 128 as it is,
/// raises smaller counts to 1 and lowers larger ones to 128; limiting
/// twice is limiting once, and a larger count never gets fewer threads.
pub proof fn lemma_clamp_threads(n: int, m: int)
    ensures
        MIN_THREADS <= n <= MAX_THREADS ==> clamp_threads(n) == n,
        n < MIN_THREADS ==> clamp_threads(n) == MIN_THREADS,
        n > MAX_THREADS ==> clamp_threads(n) == MAX_THREADS,
        MIN_THREADS <= clamp_threads(n) <= MAX_THREADS,
        clamp_threads(clamp_threads(n)) == clamp_threads(n),
        n <= m ==> clamp_threads(n) <= clamp_threads(m),
{
}

/// The configuration a fresh installation starts with.
pub open spec fn default_config() -> Config {
    Config { thread_pool_size: DEFAULT_THREADS }
}

impl Default for Config {
    fn default() -> (r: Self)
        ensures
            r == default_config(),
            r.thread_pool_size == 32,
    {
        Config { thread_pool_size: DEFAULT_THREADS }
    }
}

/// The step of saving the configuration that failed.
#[derive(Debug, Clone, Copy, PartialEq, Eq)]
pub enum SaveStage {
    /// Rendering the configuration as TOML.
    Serialize,
    /// Writing the rendered text to the file.
    Write,
}

/// The message prefix that names a failed save step.
pub open spec fn save_error_prefix(stage: SaveStage) -> Seq<char> {
    match stage {
        SaveStage::Serialize => "序列化配置失败: "@,
        SaveStage::Write => "写入配置文件失败: "@,
    }
}

impl Config {
    /// The thread pool size to use: the configured size limited to the
    /// range 1..=128.
    pub fn get_thread_pool_size(&self) -> (r: usize)
        ensures
            r == clamp_threads(self.thread_pool_size as int),
            MIN_THREADS <= r <= MAX_THREADS,
            MIN_THREADS <= self.thread_pool_size <= MAX_THREADS ==> r == self.thread_pool_size,
            self.thread_pool_size < MIN_THREADS ==> r == MIN_THREADS,
            self.thread_pool_size > MAX_THREADS ==> r == MAX_THREADS,
    {
        let n = self.thread_pool_size;
        if n < MIN_THREADS {
            MIN_THREADS
        } else if n > MAX_THREADS {
            MAX_THREADS
        } else {
            n
        }
    }

    /// The configuration that loading settles on, given what was read from
    /// the configuration file (`None` when the file is missing, unreadable
    /// or not a valid configuration), and whether that configuration has to
    /// be written back: a configuration read from the file is used as it is;
    /// otherwise the default is used and written back.
    pub fn from_loaded(parsed: Option<Config>) -> (r: (Config, bool))
        ensures
            match parsed {
                Some(c) => r == (c, false),
                None => r == (default_config(), true),
            },
            parsed is None ==> r.0.thread_pool_size == 32 && r.1,
    {
        match parsed {
            Some(c) => (c, false),
            None => (Config::default(), true),
        }
    }

    /// The error message for a failed save step, with the failure's own
    /// description appended.
    pub fn save_error(stage: SaveStage, detail: &str) -> (r: String)
        ensures
            r@ == save_error_prefix(stage) + detail@,
            stage == SaveStage::Serialize ==> r@ == "序列化配置失败: "@ + detail@,
            stage == SaveStage::Write ==> r@ == "写入配置文件失败: "@ + detail@,
    {
        let prefix = match stage {
            SaveStage::Serialize => "序列化配置失败: ",
            SaveStage::Write => "写入配置文件失败: ",
        };
        String::from_str(prefix).concat(detail)
    }
}

} // verus!
