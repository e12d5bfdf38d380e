//! The settings of the logging backend, which prints each finished context.
use vstd::prelude::*;
use vstd::string::*;

verus! {

/// Where the logging backend writes: a log file, standard output, standard
/// error.
#[derive(Debug, Clone)]
pub struct Logger {
    pub path: Option<String>,
    pub stdout: bool,
    pub stderr: bool,
}

impl Logger {
    /// A logger that writes nowhere yet.
    pub fn builder() -> (r: Logger)
        ensures
            r.path is None,
            !r.stdout,
            !r.stderr,
    {
        Logger { path: None, stdout: false, stderr: false }
    }

    /// Also writes to standard output.
    pub fn with_stdout(self) -> (r: Logger)
        ensures
            r.stdout,
            r.stderr == self.stderr,
            r.path == self.path,
    {
        Logger { stdout: true, ..self }
    }

    /// Also writes to standard error.
    pub fn with_stderr(self) -> (r: Logger)
        ensures
            r.stderr,
            r.stdout == self.stdout,
            r.path == self.path,
    {
        Logger { stderr: true, ..self }
    }

    /// Also writes to the log file at `path`.
    pub fn with_path(self, path: &str) -> (r: Logger)
        ensures
            r.path matches Some(p) && p@ == path@,
            r.stdout == self.stdout,
            r.stderr == self.stderr,
    {
        Logger { path: Some(String::from_str(path)), ..self }
    }
}

/// The text `{:?}` writes for a string: quoted, with escapes.
pub uninterp spec fn debug_str(s: Seq<char>) -> Seq<char>;

/// Relies on the Debug impl of `str`: the text depends on the characters alone.
#[verifier::external_body]
fn debug_quote(s: &str) -> (r: String)
    ensures
        r@ == debug_str(s@),
{
    format!("{:?}", s)
}

/// The line that reports the log directory.
pub fn check_path(log_dir: &str) -> (r: String)
    ensures
        r@ == "OBSERVER LOGDIR "@ + debug_str(log_dir@),
{
    let mut r = String::from_str("OBSERVER LOGDIR ");
    let q = debug_quote(log_dir);
    r.append(q.as_str());
    r
}

} // verus!
