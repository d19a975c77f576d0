//! The messages of failures.
use crate::executable::{self, codex_app_server_help};
use crate::settings::Platform;
use vstd::prelude::*;

verus! {

/// What failed.
#[derive(Clone, Copy, Debug, PartialEq, Eq, Structural)]
pub enum Failure {
    CacheLock,
    ServerTask,
    ServerInput,
    ServerOutput,
    WriteRequest,
    FlushRequest,
    ReadReply,
    StartServer,
    OpenRegistry,
    ProgramPath,
    WriteRegistry,
}

/// What the message of a failure says before its cause.
pub open spec fn prefix(failure: Failure) -> Seq<char> {
    match failure {
        Failure::CacheLock => "缓存锁定失败"@,
        Failure::ServerTask => "Codex app-server 任务失败: "@,
        Failure::ServerInput => "无法打开 Codex app-server stdin"@,
        Failure::ServerOutput => "无法打开 Codex app-server stdout"@,
        Failure::WriteRequest => "写入 Codex app-server 请求失败: "@,
        Failure::FlushRequest => "刷新 Codex app-server stdin 失败: "@,
        Failure::ReadReply => "读取 Codex app-server 响应失败: "@,
        Failure::StartServer => "启动 `codex app-server` 失败: "@,
        Failure::OpenRegistry => "打开开机启动注册表失败: "@,
        Failure::ProgramPath => "获取当前程序路径失败: "@,
        Failure::WriteRegistry => "写入开机启动失败: "@,
    }
}

/// Whether the message of a failure names its cause.
pub open spec fn names_cause(failure: Failure) -> bool {
    !(failure is CacheLock || failure is ServerInput || failure is ServerOutput)
}

/// The message of a failure: what failed, its cause, and advice where the server did not start.
pub open spec fn message(failure: Failure, cause: Seq<char>, platform: Platform) -> Seq<char> {
    if !names_cause(failure) {
        prefix(failure)
    } else if failure is StartServer {
        prefix(failure) + cause + "。"@ + executable::help(platform)
    } else {
        prefix(failure) + cause
    }
}

/// The message of a failure.
pub fn failure_message(failure: Failure, cause: &str, platform: Platform) -> (r: String)
    ensures
        r@ == message(failure, cause@, platform),
{
    let mut out = match failure {
        Failure::CacheLock => {
            return "缓存锁定失败".to_owned();
        },
        Failure::ServerInput => {
            return "无法打开 Codex app-server stdin".to_owned();
        },
        Failure::ServerOutput => {
            return "无法打开 Codex app-server stdout".to_owned();
        },
        Failure::ServerTask => "Codex app-server 任务失败: ".to_owned(),
        Failure::WriteRequest => "写入 Codex app-server 请求失败: ".to_owned(),
        Failure::FlushRequest => "刷新 Codex app-server stdin 失败: ".to_owned(),
        Failure::ReadReply => "读取 Codex app-server 响应失败: ".to_owned(),
        Failure::StartServer => "启动 `codex app-server` 失败: ".to_owned(),
        Failure::OpenRegistry => "打开开机启动注册表失败: ".to_owned(),
        Failure::ProgramPath => "获取当前程序路径失败: ".to_owned(),
        Failure::WriteRegistry => "写入开机启动失败: ".to_owned(),
    };
    out.append(cause);
    if let Failure::StartServer = failure {
        out.append("。");
        out.append(codex_app_server_help(platform));
    }
    out
}

/// Law: the message of a failure does not depend on the system unless the server did not start; then it
/// ends with the advice for the system. Every other message that tells a cause ends with it, and the
/// rest are the same for every cause.
pub proof fn law_messages(
    failure: Failure,
    cause: Seq<char>,
    other: Seq<char>,
    platform: Platform,
    another: Platform,
)
    ensures
        ({
            let said = message(failure, cause, platform);
            let fixed = failure is CacheLock || failure is ServerInput || failure is ServerOutput;
            &&& !(failure is StartServer) ==> said == message(failure, cause, another)
            &&& failure is StartServer ==> executable::help(platform).is_suffix_of(said)
            &&& failure is StartServer ==> said.len() == message(
                failure,
                seq![],
                platform,
            ).len() + cause.len()
            &&& fixed ==> said == message(failure, other, platform)
            &&& !fixed && !(failure is StartServer) ==> cause.is_suffix_of(said)
            &&& !fixed && !(failure is StartServer) ==> said == message(failure, seq![], platform)
                + cause
        }),
{
    let said = message(failure, cause, platform);
    let advice = executable::help(platform);
    let none: Seq<char> = seq![];
    if failure is StartServer {
        assert(said.skip(said.len() - advice.len()) =~= advice);
    } else if names_cause(failure) {
        assert(said.skip(said.len() - cause.len()) =~= cause);
        assert(prefix(failure) + none =~= prefix(failure));
    }
}

} // verus!
