//! What a finished process shows.

use vstd::prelude::*;

use crate::bytes::lossy_text;

verus! {

/// How a process ended, and what it wrote.
#[derive(Debug)]
pub struct ProcessOutput {
    /// The exit code; none where a signal ended the process.
    pub code: Option<i32>,
    /// The exit status in words.
    pub status: String,
    /// What the process wrote to its standard output.
    pub stdout: Vec<u8>,
    /// What the process wrote to its standard error.
    pub stderr: Vec<u8>,
}

/// What a finished process shows.
#[verifier::ext_equal]
pub struct OutputModel {
    pub code: Option<i32>,
    pub status: Seq<char>,
    pub stdout: Seq<char>,
    pub stderr: Seq<char>,
}

impl View for ProcessOutput {
    type V = OutputModel;

    open spec fn view(&self) -> OutputModel {
        OutputModel {
            code: self.code,
            status: self.status@,
            stdout: lossy_text(self.stdout@),
            stderr: lossy_text(self.stderr@),
        }
    }
}

/// The outcome of spawning a process.
pub open spec fn spawned(r: Result<ProcessOutput, String>) -> Result<OutputModel, Seq<char>> {
    match r {
        Ok(out) => Ok(out@),
        Err(e) => Err(e@),
    }
}

/// Whether a process succeeded.
pub open spec fn success(code: Option<i32>) -> bool {
    code == Some(0i32)
}

/// Whether a process succeeded.
pub fn succeeded(code: Option<i32>) -> (b: bool)
    ensures
        b == success(code),
{
    match code {
        Some(c) => c == 0,
        None => false,
    }
}

/// How a process ended.
#[derive(Debug)]
pub struct Exit {
    /// The exit code; none where a signal ended the process.
    pub code: Option<i32>,
    /// The exit status in words.
    pub status: String,
}

/// How a process ended.
#[verifier::ext_equal]
pub struct ExitModel {
    pub code: Option<i32>,
    pub status: Seq<char>,
}

impl View for Exit {
    type V = ExitModel;

    open spec fn view(&self) -> ExitModel {
        ExitModel { code: self.code, status: self.status@ }
    }
}

/// The outcome of running a process to its end.
pub open spec fn ended(r: Result<Exit, String>) -> Result<ExitModel, Seq<char>> {
    match r {
        Ok(exit) => Ok(exit@),
        Err(e) => Err(e@),
    }
}

/// What a process shows is what it was: its code and status, and each of its
/// streams as text.
pub proof fn law_output_view(out: ProcessOutput, exit: Exit, error: String)
    ensures
        out@.code == out.code,
        out@.status == out.status@,
        out@.stdout == lossy_text(out.stdout@),
        out@.stderr == lossy_text(out.stderr@),
        spawned(Ok(out)) == Ok::<OutputModel, Seq<char>>(out@),
        spawned(Err(error)) == Err::<OutputModel, Seq<char>>(error@),
        exit@.code == exit.code,
        exit@.status == exit.status@,
        ended(Ok(exit)) == Ok::<ExitModel, Seq<char>>(exit@),
        ended(Err(error)) == Err::<ExitModel, Seq<char>>(error@),
{
}

} // verus!
