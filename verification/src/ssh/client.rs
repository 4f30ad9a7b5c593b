//! The SSH session's decisions: bounding the output of a command, and what
//! is recorded for each command of a session.
use vstd::prelude::*;

use crate::error::AppError;
use crate::ssh::executor::CmdOutput;
use crate::text::owned;

verus! {

/// The executor that connects to real devices.
pub struct RusshExecutor;

/// The largest output, in bytes, kept from one command.
pub const SSH_MAX_OUTPUT_BYTES: usize = 524288;

/// Appends a chunk of command output, refusing to let the output grow past
/// `SSH_MAX_OUTPUT_BYTES`; on refusal the buffer is left unchanged.
pub fn append_output(buf: &mut Vec<u8>, data: &[u8]) -> (r: Result<(), AppError>)
    ensures
        old(buf)@.len() + data@.len() <= SSH_MAX_OUTPUT_BYTES ==> r is Ok && final(buf)@
            == old(buf)@ + data@,
        old(buf)@.len() + data@.len() > SSH_MAX_OUTPUT_BYTES ==> (r matches Err(
            AppError::Validation(m),
        ) && m@ == "SSH 指令輸出超過 512 KiB 上限"@ && final(buf)@ == old(buf)@),
{
    if buf.len().saturating_add(data.len()) > SSH_MAX_OUTPUT_BYTES {
        return Err(AppError::Validation(owned("SSH 指令輸出超過 512 KiB 上限")));
    }
    let mut i: usize = 0;
    assert(old(buf)@ + data@.take(0) =~= old(buf)@);
    while i < data.len()
        invariant
            i <= data@.len(),
            buf@ == old(buf)@ + data@.take(i as int),
        decreases data.len() - i,
    {
        buf.push(data[i]);
        i = i + 1;
        assert(buf@ =~= old(buf)@ + data@.take(i as int));
    }
    assert(data@.take(i as int) =~= data@);
    Ok(())
}

/// The answer to the password authentication.
pub fn check_authenticated(authenticated: bool) -> (r: Result<(), AppError>)
    ensures
        authenticated ==> r is Ok,
        !authenticated ==> (r matches Err(AppError::Validation(m)) && m@
            == "SSH 認證失敗（帳號或密碼錯誤）"@),
{
    if authenticated {
        Ok(())
    } else {
        Err(AppError::Validation(owned("SSH 認證失敗（帳號或密碼錯誤）")))
    }
}

/// How one command of a session ended.
#[derive(Debug, Clone)]
pub enum CommandOutcome {
    /// The command ran; its output.
    Output(String),
    /// Running the command failed.
    Failed(AppError),
    /// The command did not finish in time.
    TimedOut,
}

/// The record of a command that was not run because an earlier one timed
/// out.
pub open spec fn skipped_output(o: CmdOutput) -> bool {
    !o.ok && o.text@ == "SSH 指令未執行：前一個指令逾時"@
}

/// `new` is `old` with one failed command whose message is `text`.
pub open spec fn failure_recorded(old: Seq<CmdOutput>, new: Seq<CmdOutput>, text: Seq<char>) -> bool {
    &&& new.len() == old.len() + 1
    &&& new.take(old.len() as int) == old
    &&& !new.last().ok
    &&& new.last().text@ == text
}

/// `new` is `old` with a timed-out command, then `remaining` commands
/// recorded as not run.
pub open spec fn timeout_recorded(old: Seq<CmdOutput>, new: Seq<CmdOutput>, remaining: nat) -> bool {
    &&& new.len() == old.len() + 1 + remaining
    &&& new.take(old.len() as int) == old
    &&& !new[old.len() as int].ok
    &&& new[old.len() as int].text@ == "SSH 指令逾時"@
    &&& forall|k: int| old.len() < k < new.len() ==> skipped_output(#[trigger] new[k])
}

/// Records how a command ended. After a timeout the session stops: the
/// `remaining` commands after it are recorded as not run, and `true` is
/// returned.
pub fn record_command(outputs: &mut Vec<CmdOutput>, outcome: CommandOutcome, remaining: usize) -> (stop: bool)
    ensures
        match outcome {
            CommandOutcome::Output(text) => !stop && final(outputs)@ == old(outputs)@.push(
                CmdOutput { ok: true, text },
            ),
            CommandOutcome::Failed(e) => !stop && failure_recorded(
                old(outputs)@,
                final(outputs)@,
                e.spec_prefix() + e.spec_detail(),
            ),
            CommandOutcome::TimedOut => stop && timeout_recorded(
                old(outputs)@,
                final(outputs)@,
                remaining as nat,
            ),
        },
{
    let ghost start = outputs@;
    match outcome {
        CommandOutcome::Output(text) => {
            outputs.push(CmdOutput { ok: true, text });
            false
        },
        CommandOutcome::Failed(e) => {
            outputs.push(CmdOutput { ok: false, text: e.message() });
            assert(outputs@.take(start.len() as int) =~= start);
            false
        },
        CommandOutcome::TimedOut => {
            outputs.push(CmdOutput { ok: false, text: owned("SSH 指令逾時") });
            let mut k: usize = 0;
            while k < remaining
                invariant
                    k <= remaining,
                    outputs@.len() == start.len() + 1 + k,
                    outputs@.take(start.len() as int) == start,
                    !outputs@[start.len() as int].ok,
                    outputs@[start.len() as int].text@ == "SSH 指令逾時"@,
                    forall|j: int|
                        start.len() < j < outputs@.len() ==> skipped_output(#[trigger] outputs@[j]),
                decreases remaining - k,
            {
                let ghost before = outputs@;
                outputs.push(CmdOutput { ok: false, text: owned("SSH 指令未執行：前一個指令逾時") });
                assert(outputs@.take(start.len() as int) =~= before.take(start.len() as int));
                assert forall|j: int| start.len() < j < outputs@.len() implies skipped_output(
                    #[trigger] outputs@[j],
                ) by {
                    if j < before.len() {
                        assert(outputs@[j] == before[j]);
                    }
                }
                k = k + 1;
            }
            true
        },
    }
}

} // verus!
