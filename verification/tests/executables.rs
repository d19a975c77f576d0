use codex_usage_tray::executable::{
    codex_app_server_help, codex_bin_text, executable_names, find_in_path,
    find_openai_codex_runtime, is_windowsapps_path, normalize_codex_bin_path,
    resolve_codex_executable, Candidate, Choice, CodexBin, Runtime,
};
use codex_usage_tray::messages::{failure_message, Failure};
use codex_usage_tray::settings::Platform;

const STORE: &str = "C:\\Program Files\\WindowsApps\\OpenAI.Codex_1.2\\codex.exe";
const ALIAS: &str = "C:\\Users\\u\\AppData\\Local\\Microsoft\\WindowsApps\\codex.exe";

fn candidate(path: &str, is_file: bool) -> Candidate {
    Candidate { path: path.to_string(), is_file }
}

fn runtime(name: &str, exists: bool, modified: Option<i128>) -> Runtime {
    Runtime { name: name.to_string(), path: format!("C:\\bin\\{}\\codex.exe", name), exists, modified }
}

#[test]
fn store_paths_are_recognised() {
    assert!(is_windowsapps_path(STORE));
    assert!(is_windowsapps_path(ALIAS));
    assert!(is_windowsapps_path(&ALIAS.to_uppercase()));
    assert!(!is_windowsapps_path("C:\\WindowsApps\\codex.exe"));
    assert!(!is_windowsapps_path("/windowsapps/openai.codex_1"));
    assert!(!is_windowsapps_path(""));
}

#[test]
fn setting_is_unquoted() {
    assert_eq!(codex_bin_text("  \"C:\\a b\\codex.exe\" \r\n"), "C:\\a b\\codex.exe");
    assert_eq!(codex_bin_text("\" x \""), " x ");
    assert_eq!(codex_bin_text(" "), "");
}

#[test]
fn directory_stands_for_the_executable_in_it() {
    assert_eq!(
        normalize_codex_bin_path("C:\\d".to_string(), Some("C:\\d\\codex.exe".to_string())),
        "C:\\d\\codex.exe"
    );
    assert_eq!(normalize_codex_bin_path("C:\\f.exe".to_string(), None), "C:\\f.exe");
}

#[test]
fn names_to_look_for() {
    assert_eq!(executable_names(Platform::Windows), vec!["codex.exe", "codex.cmd", "codex.bat"]);
    assert_eq!(executable_names(Platform::MacOs), vec!["codex"]);
    assert_eq!(executable_names(Platform::Other), vec!["codex"]);
}

#[test]
fn first_usable_candidate_is_found() {
    let list = vec![candidate("a", false), candidate(STORE, true), candidate("b", true), candidate("c", true)];
    assert_eq!(find_in_path(Platform::Windows, &list), Some(2));
    assert_eq!(find_in_path(Platform::Other, &list), Some(1));
    assert_eq!(find_in_path(Platform::Windows, &vec![candidate(ALIAS, true)]), None);
    assert_eq!(find_in_path(Platform::Other, &Vec::new()), None);
}

#[test]
fn newest_runtime_is_found() {
    assert_eq!(find_openai_codex_runtime(&Vec::new()), None);
    let list = vec![
        runtime("a", true, Some(5)),
        runtime("b", true, Some(9)),
        runtime("z", true, None),
        runtime("c", false, Some(99)),
        runtime("OpenAI.Codex_1", true, Some(7)),
    ];
    assert_eq!(find_openai_codex_runtime(&list), Some(1));
    let ties = vec![runtime("b", true, Some(9)), runtime("c", true, Some(9)), runtime("a", true, Some(9))];
    assert_eq!(find_openai_codex_runtime(&ties), Some(1));
    let unknown = vec![runtime("b", true, None), runtime("a", true, None)];
    assert_eq!(find_openai_codex_runtime(&unknown), Some(0));
    let before_epoch = vec![runtime("b", true, None), runtime("a", true, Some(-7))];
    assert_eq!(find_openai_codex_runtime(&before_epoch), Some(1));
    let mut store = runtime("x", true, Some(1));
    store.path = STORE.to_string();
    assert_eq!(find_openai_codex_runtime(&vec![store]), None);
}

#[test]
fn setting_decides_alone() {
    let searches = vec![vec![candidate("/bin/codex", true)]];
    let runtimes = vec![runtime("a", true, None)];
    let bin = |path: &str, exists: bool| Some(CodexBin { path: path.to_string(), exists });
    assert_eq!(
        resolve_codex_executable(Platform::Other, &bin("/x", true), &searches, &runtimes),
        Ok(Choice::CodexBin)
    );
    assert_eq!(
        resolve_codex_executable(Platform::Other, &bin("/x", false), &searches, &runtimes),
        Err("CODEX_BIN 指向的文件不存在: /x".to_string())
    );
    assert_eq!(
        resolve_codex_executable(Platform::Windows, &bin(STORE, false), &searches, &runtimes),
        Err(format!("CODEX_BIN 指向的文件不存在: {}", STORE))
    );
    assert_eq!(
        resolve_codex_executable(Platform::Windows, &bin(STORE, true), &searches, &runtimes),
        Err(format!("CODEX_BIN 指向 WindowsApps 包内程序，普通桌面程序无法直接启动: {}", STORE))
    );
    assert_eq!(
        resolve_codex_executable(Platform::MacOs, &bin(STORE, true), &searches, &runtimes),
        Ok(Choice::CodexBin)
    );
}

#[test]
fn searches_come_before_runtimes() {
    let runtimes = vec![runtime("a", true, Some(1)), runtime("b", true, Some(2))];
    let searches = vec![
        vec![candidate(ALIAS, true), candidate("D:\\codex.exe", false)],
        vec![candidate("D:\\codex.cmd", true)],
    ];
    assert_eq!(
        resolve_codex_executable(Platform::Windows, &None, &searches, &runtimes),
        Ok(Choice::OnPath { search: 1, index: 0 })
    );
    let blocked = vec![vec![candidate(ALIAS, true)]];
    assert_eq!(
        resolve_codex_executable(Platform::Windows, &None, &blocked, &runtimes),
        Ok(Choice::Runtime(1))
    );
    let windows = resolve_codex_executable(Platform::Windows, &None, &blocked, &Vec::new()).unwrap_err();
    assert!(windows.starts_with("未找到可直接执行的 Codex CLI。官方 app-server 启动方式是"));
    assert!(windows.ends_with("不要指向 WindowsApps 包内路径。"));
    let other = resolve_codex_executable(Platform::Other, &None, &Vec::new(), &runtimes).unwrap_err();
    assert_eq!(
        other,
        "未找到可直接执行的 Codex CLI。请先在终端运行 `which codex`；如果找不到命令，请安装 Codex CLI，或设置 CODEX_BIN 指向 Codex CLI 的绝对路径。"
    );
}

#[test]
fn advice_differs_by_system() {
    assert!(codex_app_server_help(Platform::Windows).starts_with("请先在普通 PowerShell 运行"));
    assert!(codex_app_server_help(Platform::MacOs).starts_with("请先在 Terminal 运行"));
    assert!(codex_app_server_help(Platform::Other).starts_with("请先在终端运行"));
}

#[test]
fn messages_of_failures() {
    let messages = [
        (Failure::CacheLock, "缓存锁定失败"),
        (Failure::ServerTask, "Codex app-server 任务失败: c"),
        (Failure::ServerInput, "无法打开 Codex app-server stdin"),
        (Failure::ServerOutput, "无法打开 Codex app-server stdout"),
        (Failure::WriteRequest, "写入 Codex app-server 请求失败: c"),
        (Failure::FlushRequest, "刷新 Codex app-server stdin 失败: c"),
        (Failure::ReadReply, "读取 Codex app-server 响应失败: c"),
        (Failure::OpenRegistry, "打开开机启动注册表失败: c"),
        (Failure::ProgramPath, "获取当前程序路径失败: c"),
        (Failure::WriteRegistry, "写入开机启动失败: c"),
    ];
    for (failure, message) in messages {
        assert_eq!(failure_message(failure, "c", Platform::Other), message);
    }
    assert_eq!(
        failure_message(Failure::StartServer, "c", Platform::Other),
        format!("启动 `codex app-server` 失败: c。{}", codex_app_server_help(Platform::Other))
    );
}
