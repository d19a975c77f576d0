//! Which Codex executable to start.
use crate::settings::Platform;
use crate::text::{self, chars_of, contains_text, is_before, lower_text, strip, CharClass};
use vstd::prelude::*;

verus! {

/// The advice for a user whose Codex cannot be started.
pub open spec fn help(platform: Platform) -> Seq<char> {
    match platform {
        Platform::Windows => "请先在普通 PowerShell 运行 `codex app-server`；如果看到 Access is denied，请不要使用 WindowsApps 包内 codex.exe，改用可执行的 Codex CLI wrapper 或设置 CODEX_BIN。"@,
        Platform::MacOs => "请先在 Terminal 运行 `which codex` 和 `codex app-server`；如果找不到命令，请安装 Codex CLI，或设置 CODEX_BIN 指向 Codex CLI 的绝对路径。"@,
        Platform::Other => "请先在终端运行 `codex app-server`；如果找不到命令，请安装 Codex CLI，或设置 CODEX_BIN 指向 Codex CLI 的绝对路径。"@,
    }
}

/// The advice for a user whose Codex cannot be started.
pub fn codex_app_server_help(platform: Platform) -> (r: &'static str)
    ensures
        r@ == help(platform),
{
    match platform {
        Platform::Windows => "请先在普通 PowerShell 运行 `codex app-server`；如果看到 Access is denied，请不要使用 WindowsApps 包内 codex.exe，改用可执行的 Codex CLI wrapper 或设置 CODEX_BIN。",
        Platform::MacOs => "请先在 Terminal 运行 `which codex` 和 `codex app-server`；如果找不到命令，请安装 Codex CLI，或设置 CODEX_BIN 指向 Codex CLI 的绝对路径。",
        Platform::Other => "请先在终端运行 `codex app-server`；如果找不到命令，请安装 Codex CLI，或设置 CODEX_BIN 指向 Codex CLI 的绝对路径。",
    }
}

/// A path into the store packages of Windows, whose programs cannot be started directly.
pub open spec fn store_path(path: Seq<char>) -> bool {
    let lower = text::ascii_lowered(path);
    ||| text::occurs("\\windowsapps\\openai.codex_"@, lower)
    ||| text::occurs("\\microsoft\\windowsapps\\codex.exe"@, lower)
}

/// Whether a path leads into the store packages of Windows.
pub fn is_windowsapps_path(path: &str) -> (r: bool)
    ensures
        r == store_path(path@),
{
    let lower = lower_text(&chars_of(path));
    contains_text(lower.as_str(), "\\windowsapps\\openai.codex_") || contains_text(
        lower.as_str(),
        "\\microsoft\\windowsapps\\codex.exe",
    )
}

/// The path that the setting `CODEX_BIN` names: without white space and then without quotes around
/// it.
pub open spec fn bin_text(setting: Seq<char>) -> Seq<char> {
    text::stripped(text::stripped(setting, CharClass::WhiteSpace), CharClass::Quote)
}

/// The path that the setting `CODEX_BIN` names.
pub fn codex_bin_text(setting: &str) -> (r: String)
    ensures
        r@ == bin_text(setting@),
{
    strip(strip(setting, CharClass::WhiteSpace).as_str(), CharClass::Quote)
}

/// The executable that a path stands for: where the path is a directory, `codex_exe` is the path of
/// `codex.exe` in it, and is meant.
pub fn normalize_codex_bin_path(path: String, codex_exe: Option<String>) -> (r: String)
    ensures
        r@ == (match codex_exe {
            Some(inside) => inside@,
            None => path@,
        }),
{
    match codex_exe {
        Some(inside) => inside,
        None => path,
    }
}

/// The contents of a list of names.
pub open spec fn names(v: Seq<&'static str>) -> Seq<Seq<char>> {
    v.map_values(|s: &'static str| s@)
}

/// The names of the executable to look for in the search path, the preferred ones first.
pub fn executable_names(platform: Platform) -> (r: Vec<&'static str>)
    ensures
        names(r@) == (match platform {
            Platform::Windows => seq!["codex.exe"@, "codex.cmd"@, "codex.bat"@],
            _ => seq!["codex"@],
        }),
{
    let mut r: Vec<&'static str> = Vec::new();
    match platform {
        Platform::Windows => {
            r.push("codex.exe");
            r.push("codex.cmd");
            r.push("codex.bat");
            assert(names(r@) =~= seq!["codex.exe"@, "codex.cmd"@, "codex.bat"@]);
        },
        _ => {
            r.push("codex");
            assert(names(r@) =~= seq!["codex"@]);
        },
    }
    r
}

/// A place in the search path where the executable may be.
#[derive(Debug)]
pub struct Candidate {
    pub path: String,
    pub is_file: bool,
}

/// Whether a candidate can be started: a file, and on Windows not one of a store package.
pub open spec fn usable(platform: Platform, candidate: Candidate) -> bool {
    candidate.is_file && !(platform is Windows && store_path(candidate.path@))
}

pub open spec fn none_usable(platform: Platform, list: Seq<Candidate>) -> bool {
    forall|i: int| 0 <= i < list.len() ==> !usable(platform, #[trigger] list[i])
}

/// `index` is the place of the first usable candidate.
pub open spec fn first_usable(platform: Platform, list: Seq<Candidate>, index: int) -> bool {
    &&& 0 <= index < list.len()
    &&& usable(platform, list[index])
    &&& forall|i: int| 0 <= i < index ==> !usable(platform, #[trigger] list[i])
}

/// The place of the first usable candidate.
pub fn find_in_path(platform: Platform, list: &Vec<Candidate>) -> (r: Option<usize>)
    ensures
        match r {
            Some(index) => first_usable(platform, list@, index as int),
            None => none_usable(platform, list@),
        },
{
    let windows = match platform {
        Platform::Windows => true,
        _ => false,
    };
    let mut i: usize = 0;
    while i < list.len()
        invariant
            windows == (platform is Windows),
            i <= list.len(),
            forall|k: int| 0 <= k < i ==> !usable(platform, #[trigger] list@[k]),
        decreases list.len() - i,
    {
        if list[i].is_file && !(windows && is_windowsapps_path(list[i].path.as_str())) {
            return Some(i);
        }
        i += 1;
    }
    None
}

/// A runtime that the Codex desktop application keeps: a directory by its name, and the executable
/// in it.
#[derive(Debug)]
pub struct Runtime {
    pub name: String,
    pub path: String,
    pub exists: bool,
    /// When the executable was last changed, in nanoseconds since the Unix epoch.
    pub modified: Option<i128>,
}

/// Whether a runtime can be started.
pub open spec fn usable_runtime(runtime: Runtime) -> bool {
    runtime.exists && !store_path(runtime.path@)
}

/// Whether `a` is older than `b`. An unknown age is the oldest; names decide between equal ages.
pub open spec fn older(a: Runtime, b: Runtime) -> bool {
    match (a.modified, b.modified) {
        (Some(x), Some(y)) => x < y || (x == y && text::text_before(a.name@, b.name@)),
        (None, Some(_)) => true,
        (Some(_), None) => false,
        (None, None) => text::text_before(a.name@, b.name@),
    }
}

fn is_older(a: &Runtime, b: &Runtime) -> (r: bool)
    ensures
        r == older(*a, *b),
{
    match (a.modified, b.modified) {
        (Some(x), Some(y)) => x < y || (x == y && is_before(a.name.as_str(), b.name.as_str())),
        (None, Some(_)) => true,
        (Some(_), None) => false,
        (None, None) => is_before(a.name.as_str(), b.name.as_str()),
    }
}

/// `index` is the place of the newest usable runtime: none before it is newer, and all after it are
/// older.
pub open spec fn newest(list: Seq<Runtime>, index: int) -> bool {
    &&& 0 <= index < list.len()
    &&& usable_runtime(list[index])
    &&& forall|i: int|
        0 <= i < index && usable_runtime(#[trigger] list[i]) ==> !older(list[index], list[i])
    &&& forall|i: int|
        index < i < list.len() && usable_runtime(#[trigger] list[i]) ==> older(
            list[i],
            list[index],
        )
}

/// The place of the newest usable runtime.
pub fn find_openai_codex_runtime(list: &Vec<Runtime>) -> (r: Option<usize>)
    ensures
        match r {
            Some(index) => newest(list@, index as int),
            None => forall|i: int| 0 <= i < list@.len() ==> !usable_runtime(#[trigger] list@[i]),
        },
{
    let mut best: Option<usize> = None;
    let mut i: usize = 0;
    while i < list.len()
        invariant
            i <= list.len(),
            match best {
                Some(index) => newest(list@.take(i as int), index as int),
                None => forall|k: int| 0 <= k < i ==> !usable_runtime(#[trigger] list@[k]),
            },
        decreases list.len() - i,
    {
        let ghost seen = list@.take(i as int);
        let ghost next = list@.take(i + 1);
        assert(forall|k: int| 0 <= k < i ==> seen[k] == list@[k] && next[k] == list@[k]);
        assert(next[i as int] == list@[i as int]);
        if list[i].exists && !is_windowsapps_path(list[i].path.as_str()) {
            match best {
                Some(index) => {
                    if !is_older(&list[i], &list[index]) {
                        proof {
                            lemma_newer(seen, next, index as int);
                        }
                        best = Some(i);
                    }
                },
                None => {
                    best = Some(i);
                },
            }
        }
        i += 1;
    }
    assert(list@.take(i as int) =~= list@);
    best
}

proof fn lemma_text_order(a: Seq<char>, b: Seq<char>, c: Seq<char>)
    ensures
        text::text_before(a, b) ==> !text::text_before(b, a),
        !text::text_before(a, b) && !text::text_before(b, c) ==> !text::text_before(a, c),
    decreases a.len() + b.len() + c.len(),
{
    if a.len() > 0 && b.len() > 0 && c.len() > 0 {
        lemma_text_order(a.drop_first(), b.drop_first(), c.drop_first());
    } else if a.len() > 0 && b.len() > 0 {
        lemma_text_order(a.drop_first(), b.drop_first(), c);
    }
}

/// A runtime that is not older than the newest so far is the newest.
proof fn lemma_newer(seen: Seq<Runtime>, next: Seq<Runtime>, index: int)
    requires
        newest(seen, index),
        next.len() == seen.len() + 1,
        forall|k: int| 0 <= k < seen.len() ==> next[k] == seen[k],
        usable_runtime(next.last()),
        !older(next.last(), seen[index]),
    ensures
        newest(next, next.len() - 1),
{
    let last = next.last();
    assert forall|k: int|
        0 <= k < next.len() - 1 && usable_runtime(#[trigger] next[k]) implies !older(
        last,
        next[k],
    ) by {
        let other = seen[k];
        lemma_text_order(last.name@, seen[index].name@, other.name@);
        lemma_text_order(other.name@, seen[index].name@, last.name@);
        if k < index {
            assert(!older(seen[index], other));
        } else if k > index {
            assert(older(other, seen[index]));
        }
    }
}

/// What the setting `CODEX_BIN` leads to.
#[derive(Debug)]
pub struct CodexBin {
    pub path: String,
    pub exists: bool,
}

/// The executable that was chosen.
#[derive(Clone, Copy, Debug, PartialEq, Eq, Structural)]
pub enum Choice {
    /// That of the setting `CODEX_BIN`.
    CodexBin,
    /// A candidate of one of the searches.
    OnPath { search: usize, index: usize },
    /// A runtime of the Codex desktop application.
    Runtime(usize),
}

/// No executable was found.
pub open spec fn not_found(platform: Platform) -> Seq<char> {
    match platform {
        Platform::Windows => "未找到可直接执行的 Codex CLI。官方 app-server 启动方式是 `codex app-server`，请安装 Codex CLI，或设置 CODEX_BIN 指向 `codex.exe` / `codex.cmd`；如果使用 Codex 桌面版，可指向 `%LOCALAPPDATA%\\OpenAI\\Codex\\bin\\<版本>\\codex.exe`，不要指向 WindowsApps 包内路径。"@,
        _ => "未找到可直接执行的 Codex CLI。请先在终端运行 `which codex`；如果找不到命令，请安装 Codex CLI，或设置 CODEX_BIN 指向 Codex CLI 的绝对路径。"@,
    }
}

/// The complaint about the setting `CODEX_BIN`, where there is one.
pub open spec fn bin_complaint(platform: Platform, bin: CodexBin) -> Option<Seq<char>> {
    if !bin.exists {
        Some("CODEX_BIN 指向的文件不存在: "@ + bin.path@)
    } else if platform is Windows && store_path(bin.path@) {
        Some("CODEX_BIN 指向 WindowsApps 包内程序，普通桌面程序无法直接启动: "@ + bin.path@)
    } else {
        None
    }
}

/// The choice without the setting `CODEX_BIN`: the first usable candidate of the first search that
/// has one, else, on Windows, the newest usable runtime.
pub open spec fn found(
    platform: Platform,
    searches: Seq<Vec<Candidate>>,
    runtimes: Seq<Runtime>,
    choice: Choice,
) -> bool {
    match choice {
        Choice::CodexBin => false,
        Choice::OnPath { search, index } => {
            &&& search < searches.len()
            &&& first_usable(platform, searches[search as int]@, index as int)
            &&& forall|s: int| 0 <= s < search ==> none_usable(platform, #[trigger] searches[s]@)
        },
        Choice::Runtime(index) => {
            &&& platform is Windows
            &&& newest(runtimes, index as int)
            &&& forall|s: int|
                0 <= s < searches.len() ==> none_usable(platform, #[trigger] searches[s]@)
        },
    }
}

/// Nothing can be started.
pub open spec fn nothing_found(
    platform: Platform,
    searches: Seq<Vec<Candidate>>,
    runtimes: Seq<Runtime>,
) -> bool {
    &&& forall|s: int| 0 <= s < searches.len() ==> none_usable(platform, #[trigger] searches[s]@)
    &&& platform is Windows ==> forall|i: int|
        0 <= i < runtimes.len() ==> !usable_runtime(#[trigger] runtimes[i])
}

/// The path that a choice leads to.
pub open spec fn chosen_path(
    bin: Option<CodexBin>,
    searches: Seq<Vec<Candidate>>,
    runtimes: Seq<Runtime>,
    choice: Choice,
) -> Seq<char> {
    match choice {
        Choice::CodexBin => bin->0.path@,
        Choice::OnPath { search, index } => searches[search as int]@[index as int].path@,
        Choice::Runtime(index) => runtimes[index as int].path@,
    }
}

fn with_path(message: &str, path: &str) -> (r: String)
    ensures
        r@ == message@ + path@,
{
    let mut out = message.to_owned();
    out.append(path);
    out
}

/// Chooses the executable. The setting `CODEX_BIN` decides alone where it is set. On Windows no
/// choice leads into a store package.
pub fn resolve_codex_executable(
    platform: Platform,
    bin: &Option<CodexBin>,
    searches: &Vec<Vec<Candidate>>,
    runtimes: &Vec<Runtime>,
) -> (r: Result<Choice, String>)
    ensures
        match (*bin, r) {
            (Some(b), Ok(choice)) => bin_complaint(platform, b) is None && choice is CodexBin,
            (Some(b), Err(e)) => bin_complaint(platform, b) == Some(e@),
            (None, Ok(choice)) => found(platform, searches@, runtimes@, choice),
            (None, Err(e)) => nothing_found(platform, searches@, runtimes@) && e@ == not_found(
                platform,
            ),
        },
        platform is Windows && r is Ok ==> !store_path(
            chosen_path(*bin, searches@, runtimes@, r->Ok_0),
        ),
{
    let windows = match platform {
        Platform::Windows => true,
        _ => false,
    };
    if let Some(b) = bin {
        if !b.exists {
            return Err(with_path("CODEX_BIN 指向的文件不存在: ", b.path.as_str()));
        }
        if windows && is_windowsapps_path(b.path.as_str()) {
            return Err(
                with_path(
                    "CODEX_BIN 指向 WindowsApps 包内程序，普通桌面程序无法直接启动: ",
                    b.path.as_str(),
                ),
            );
        }
        return Ok(Choice::CodexBin);
    }
    let mut s: usize = 0;
    while s < searches.len()
        invariant
            s <= searches.len(),
            bin is None,
            windows == (platform is Windows),
            forall|k: int| 0 <= k < s ==> none_usable(platform, #[trigger] searches@[k]@),
        decreases searches.len() - s,
    {
        if let Some(index) = find_in_path(platform, &searches[s]) {
            return Ok(Choice::OnPath { search: s, index });
        }
        s += 1;
    }
    if windows {
        if let Some(index) = find_openai_codex_runtime(runtimes) {
            return Ok(Choice::Runtime(index));
        }
        Err("未找到可直接执行的 Codex CLI。官方 app-server 启动方式是 `codex app-server`，请安装 Codex CLI，或设置 CODEX_BIN 指向 `codex.exe` / `codex.cmd`；如果使用 Codex 桌面版，可指向 `%LOCALAPPDATA%\\OpenAI\\Codex\\bin\\<版本>\\codex.exe`，不要指向 WindowsApps 包内路径。".to_owned())
    } else {
        Err("未找到可直接执行的 Codex CLI。请先在终端运行 `which codex`；如果找不到命令，请安装 Codex CLI，或设置 CODEX_BIN 指向 Codex CLI 的绝对路径。".to_owned())
    }
}

/// Law: a path that holds the directory of a store package, or the alias of one, in any case, leads
/// into a store package, whatever stands before and behind.
pub proof fn law_store_paths(before: Seq<char>, part: Seq<char>, after: Seq<char>)
    requires
        text::ascii_lowered(part) == "\\windowsapps\\openai.codex_"@ || text::ascii_lowered(part)
            == "\\microsoft\\windowsapps\\codex.exe"@,
    ensures
        store_path(before + part + after),
{
    let path = before + part + after;
    let lower = text::ascii_lowered(path);
    let inner = text::ascii_lowered(part);
    assert(inner.len() == part.len());
    assert(lower.subrange(before.len() as int, (before.len() + part.len()) as int) =~= inner);
    assert(text::occurs_at(inner, lower, before.len() as int));
}

/// Law: a path without a directory `WindowsApps` leads into no store package, and the case of its ASCII
/// letters does not matter.
pub proof fn law_other_paths(path: Seq<char>)
    ensures
        !text::occurs("\\windowsapps\\"@, text::ascii_lowered(path)) ==> !store_path(path),
        store_path(text::ascii_lowered(path)) == store_path(path),
        store_path(text::ascii_uppered(path)) == store_path(path),
{
    let lower = text::ascii_lowered(path);
    assert(text::ascii_lowered(lower) =~= lower);
    assert(text::ascii_lowered(text::ascii_uppered(path)) =~= lower);
    reveal_strlit("\\windowsapps\\");
    reveal_strlit("\\windowsapps\\openai.codex_");
    reveal_strlit("\\microsoft\\windowsapps\\codex.exe");
    let dir = "\\windowsapps\\"@;
    let package = "\\windowsapps\\openai.codex_"@;
    let alias = "\\microsoft\\windowsapps\\codex.exe"@;
    assert(package.subrange(0, dir.len() as int) =~= dir);
    assert(alias.subrange(10, 10int + dir.len()) =~= dir);
    if text::occurs(package, lower) {
        let i = choose|i: int| text::occurs_at(package, lower, i);
        assert(lower.subrange(i, i + dir.len()) =~= lower.subrange(
            i,
            i + package.len(),
        ).subrange(0, dir.len() as int));
        assert(text::occurs_at(dir, lower, i));
    }
    if text::occurs(alias, lower) {
        let i = choose|i: int| text::occurs_at(alias, lower, i);
        assert(lower.subrange(i + 10, i + 10 + dir.len()) =~= lower.subrange(
            i,
            i + alias.len(),
        ).subrange(10, 10int + dir.len()));
        assert(text::occurs_at(dir, lower, i + 10));
    }
}

/// Law: a candidate can be started exactly where it is a file, unless this is Windows and its path
/// leads into a store package.
pub proof fn law_usable(candidate: Candidate, runtime: Runtime)
    ensures
        !candidate.is_file ==> !usable(Platform::Windows, candidate) && !usable(
            Platform::MacOs,
            candidate,
        ) && !usable(Platform::Other, candidate),
        candidate.is_file ==> usable(Platform::MacOs, candidate) && usable(
            Platform::Other,
            candidate,
        ),
        candidate.is_file && !store_path(candidate.path@) ==> usable(Platform::Windows, candidate),
        store_path(candidate.path@) ==> !usable(Platform::Windows, candidate),
        runtime.exists && !store_path(runtime.path@) ==> usable_runtime(runtime),
        !runtime.exists || store_path(runtime.path@) ==> !usable_runtime(runtime),
{
}

/// Law: of two runtimes the one changed later is newer, one of unknown age is older than any other, and
/// between equal ages the name that comes later is newer; no runtime is older than one that is older
/// than it.
pub proof fn law_age_of_runtimes(a: Runtime, b: Runtime, x: i128, y: i128)
    ensures
        a.modified == Some(x) && b.modified == Some(y) && x < y ==> older(a, b) && !older(b, a),
        a.modified is None && b.modified is Some ==> older(a, b) && !older(b, a),
        a.modified == b.modified && text::text_before(a.name@, b.name@) ==> older(a, b),
        a.modified == b.modified && a.name@ == b.name@ ==> !older(a, b) && !older(b, a),
        older(a, b) ==> !older(b, a),
{
    lemma_text_order(a.name@, b.name@, a.name@);
    lemma_text_order(a.name@, a.name@, a.name@);
}

/// Law: no runtime that can be started was changed after the newest one.
pub proof fn law_newest_is_newest(list: Seq<Runtime>, index: int, i: int, x: i128)
    requires
        newest(list, index),
        0 <= i < list.len(),
        list[i].exists,
        !store_path(list[i].path@),
        list[i].modified == Some(x),
    ensures
        list[index].modified is Some,
        list[index].modified->0 >= x,
        list[index].exists,
        !store_path(list[index].path@),
{
    assert(usable_runtime(list[i]));
}

/// Law: the setting `CODEX_BIN` is refused exactly where its file is missing or, on Windows, it leads
/// into a store package, and the complaint ends with the path.
pub proof fn law_refused_setting(platform: Platform, bin: CodexBin)
    ensures
        bin_complaint(platform, bin) is Some <==> !bin.exists || (platform is Windows && store_path(
            bin.path@,
        )),
        bin_complaint(platform, bin) is Some ==> bin.path@.is_suffix_of(
            bin_complaint(platform, bin)->0,
        ),
{
    if bin_complaint(platform, bin) is Some {
        let said = bin_complaint(platform, bin)->0;
        assert(said.skip(said.len() - bin.path@.len()) =~= bin.path@);
    }
}

/// Law: without the setting, the candidate that is chosen can be started, and none before it can, in
/// its own search or in an earlier one.
pub proof fn law_first_candidate(
    platform: Platform,
    searches: Seq<Vec<Candidate>>,
    runtimes: Seq<Runtime>,
    search: usize,
    index: usize,
    s: int,
    i: int,
)
    requires
        found(platform, searches, runtimes, Choice::OnPath { search, index }),
    ensures
        search < searches.len(),
        index < searches[search as int]@.len(),
        usable(platform, searches[search as int]@[index as int]),
        0 <= s < search && 0 <= i < searches[s]@.len() ==> !usable(platform, searches[s]@[i]),
        0 <= i < index ==> !usable(platform, searches[search as int]@[i]),
{
    if 0 <= s < search {
        assert(none_usable(platform, searches[s]@));
    }
}

/// Law: a runtime is chosen on Windows alone, and only where no search has a candidate that can be
/// started; where nothing was found, none of the candidates and, on Windows, of the runtimes can.
pub proof fn law_runtimes_come_last(
    platform: Platform,
    searches: Seq<Vec<Candidate>>,
    runtimes: Seq<Runtime>,
    index: usize,
    s: int,
    i: int,
)
    requires
        0 <= s < searches.len(),
        0 <= i < searches[s]@.len(),
    ensures
        found(platform, searches, runtimes, Choice::Runtime(index)) ==> platform is Windows
            && newest(runtimes, index as int) && !usable(platform, searches[s]@[i]),
        nothing_found(platform, searches, runtimes) ==> !usable(platform, searches[s]@[i]),
        !found(platform, searches, runtimes, Choice::CodexBin),
{
    if found(platform, searches, runtimes, Choice::Runtime(index)) || nothing_found(
        platform,
        searches,
        runtimes,
    ) {
        assert(none_usable(platform, searches[s]@));
    }
}

proof fn lemma_stands_at(part: Seq<char>, s: Seq<char>, i: int)
    requires
        0 <= i <= s.len() - part.len(),
        forall|k: int| 0 <= k < part.len() ==> #[trigger] s[i + k] == part[k],
    ensures
        text::occurs(part, s),
{
    let found = s.subrange(i, i + part.len());
    assert forall|k: int| 0 <= k < part.len() implies found[k] == part[k] by {
        assert(s[i + k] == part[k]);
    }
    assert(found =~= part);
    assert(text::occurs_at(part, s, i));
}

/// Law: the advice names the command and the setting, on every system.
pub proof fn law_advice_names_command(platform: Platform)
    ensures
        text::occurs("codex app-server"@, help(platform)),
        text::occurs("CODEX_BIN"@, help(platform)),
        text::occurs("CODEX_BIN"@, not_found(platform)),
{
    reveal_strlit("codex app-server");
    reveal_strlit("CODEX_BIN");
    reveal_strlit(
        "请先在普通 PowerShell 运行 `codex app-server`；如果看到 Access is denied，请不要使用 WindowsApps 包内 codex.exe，改用可执行的 Codex CLI wrapper 或设置 CODEX_BIN。",
    );
    reveal_strlit(
        "请先在 Terminal 运行 `which codex` 和 `codex app-server`；如果找不到命令，请安装 Codex CLI，或设置 CODEX_BIN 指向 Codex CLI 的绝对路径。",
    );
    reveal_strlit(
        "请先在终端运行 `codex app-server`；如果找不到命令，请安装 Codex CLI，或设置 CODEX_BIN 指向 Codex CLI 的绝对路径。",
    );
    reveal_strlit(
        "未找到可直接执行的 Codex CLI。官方 app-server 启动方式是 `codex app-server`，请安装 Codex CLI，或设置 CODEX_BIN 指向 `codex.exe` / `codex.cmd`；如果使用 Codex 桌面版，可指向 `%LOCALAPPDATA%\\OpenAI\\Codex\\bin\\<版本>\\codex.exe`，不要指向 WindowsApps 包内路径。",
    );
    reveal_strlit(
        "未找到可直接执行的 Codex CLI。请先在终端运行 `which codex`；如果找不到命令，请安装 Codex CLI，或设置 CODEX_BIN 指向 Codex CLI 的绝对路径。",
    );
    match platform {
        Platform::Windows => {
            lemma_stands_at("codex app-server"@, help(platform), 21);
            lemma_stands_at("CODEX_BIN"@, help(platform), 121);
            lemma_stands_at("CODEX_BIN"@, not_found(platform), 77);
        },
        Platform::MacOs => {
            lemma_stands_at("codex app-server"@, help(platform), 33);
            lemma_stands_at("CODEX_BIN"@, help(platform), 77);
            lemma_stands_at("CODEX_BIN"@, not_found(platform), 68);
        },
        Platform::Other => {
            lemma_stands_at("codex app-server"@, help(platform), 9);
            lemma_stands_at("CODEX_BIN"@, help(platform), 53);
            lemma_stands_at("CODEX_BIN"@, not_found(platform), 68);
        },
    }
}

/// Law: the setting `CODEX_BIN` names the path between quotes, whatever white space surrounds them, and
/// a path without quotes as it stands between white space.
pub proof fn law_setting_names_path(
    before: Seq<char>,
    left: Seq<char>,
    path: Seq<char>,
    right: Seq<char>,
    after: Seq<char>,
)
    requires
        text::all_of(before, CharClass::WhiteSpace),
        text::all_of(after, CharClass::WhiteSpace),
        text::all_of(left, CharClass::Quote),
        text::all_of(right, CharClass::Quote),
        path.len() > 0,
        path.first() != '"',
        path.last() != '"',
        left.len() == 0 ==> !CharClass::WhiteSpace.holds(path.first()),
        right.len() == 0 ==> !CharClass::WhiteSpace.holds(path.last()),
    ensures
        bin_text(before + (left + path + right) + after) == path,
{
    let core = left + path + right;
    if left.len() > 0 {
        assert(CharClass::Quote.holds(left[0]));
        assert(core.first() == left[0]);
    } else {
        assert(core.first() == path.first());
    }
    if right.len() > 0 {
        assert(CharClass::Quote.holds(right[right.len() - 1]));
        assert(core.last() == right.last());
    } else {
        assert(core.last() == path.last());
    }
    text::law_strip(before, core, after, CharClass::WhiteSpace);
    text::law_strip(left, path, right, CharClass::Quote);
}

} // verus!
