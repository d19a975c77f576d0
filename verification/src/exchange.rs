//! The exchange with the Codex app-server: what is asked, and what is made of the replies.
use crate::executable::{self, codex_app_server_help};
use crate::json::{self, Json, JsonNumber, JsonTree};
use crate::json_text::{
    self, bool_value, integer_value, object_value, parse_with_field, render_value, text_value,
};
use crate::settings::Platform;
use crate::snapshot::{
    self, build_usage_snapshot_from_app_server_at, SnapshotView, UsageSnapshot,
};
use crate::text::{self, chars_of, decimal_text, strip, CharClass};
use crate::time::{self, Timestamp};
use crate::usage;
use serde_json::Value;
use vstd::prelude::*;

verus! {

/// How long the server may take for all replies.
pub const APP_SERVER_TIMEOUT_SECS: u64 = 20;

/// The longest wait for a line, in nanoseconds.
pub const MAX_WAIT_NANOS: u64 = 250_000_000;

/// The identifier of the request for the account.
pub const ACCOUNT_REQUEST: i64 = 2;

/// The identifier of the request for the rate limits.
pub const RATE_LIMIT_REQUEST: i64 = 3;

/// The content of a reply: its result, else its parameters, else its payload.
pub open spec fn payload(reply: JsonTree) -> Option<JsonTree> {
    reply.get3("result"@, "params"@, "payload"@)
}

/// The document behind an optional value.
pub open spec fn opt_tree(value: Option<Json>) -> Option<JsonTree> {
    match value {
        Some(v) => Some(v@),
        None => None,
    }
}

/// The content of a reply.
pub fn response_payload(value: &Json) -> (r: Option<Json>)
    ensures
        opt_tree(r) == payload(value@),
{
    match value.get3("result", "params", "payload") {
        Some(v) => Some(v.clone()),
        None => None,
    }
}

/// What the replies have brought so far.
#[derive(Debug)]
pub struct Exchange {
    pub account: Option<Json>,
    pub rate_limits: Option<Json>,
    pub last_error: Option<String>,
    pub timed_out: bool,
}

pub struct ExchangeView {
    pub account: Option<JsonTree>,
    pub rate_limits: Option<JsonTree>,
    pub last_error: Option<Seq<char>>,
    pub timed_out: bool,
}

impl View for Exchange {
    type V = ExchangeView;

    open spec fn view(&self) -> ExchangeView {
        ExchangeView {
            account: opt_tree(self.account),
            rate_limits: opt_tree(self.rate_limits),
            last_error: text::opt_view(self.last_error),
            timed_out: self.timed_out,
        }
    }
}

impl ExchangeView {
    /// Both replies have come.
    pub open spec fn complete(self) -> bool {
        self.account is Some && self.rate_limits is Some
    }

    /// The state after a reply: an error in it is the last one, and the content of an awaited reply
    /// takes the place of what was there.
    pub open spec fn with_reply(self, reply: JsonTree, error: Option<Seq<char>>) -> ExchangeView {
        let id = usage::integer(reply.get("id"@));
        ExchangeView {
            account: if id == Some(ACCOUNT_REQUEST) {
                payload(reply)
            } else {
                self.account
            },
            rate_limits: if id == Some(RATE_LIMIT_REQUEST) {
                payload(reply)
            } else {
                self.rate_limits
            },
            last_error: if error is Some {
                error
            } else {
                self.last_error
            },
            timed_out: self.timed_out,
        }
    }

    /// The state after a line: only a line that is a JSON object counts as a reply.
    pub open spec fn with_line(self, line: Seq<char>) -> ExchangeView {
        let inner = text::stripped(line, CharClass::WhiteSpace);
        if inner.len() == 0 || inner[0] != '{' {
            self
        } else {
            match json_text::parsed_tree(inner) {
                Some(reply) => self.with_reply(reply, json_text::field_text(reply, "error"@)),
                None => self,
            }
        }
    }
}

/// What comes from the server.
#[derive(Debug)]
pub enum Event {
    /// A line.
    Line(String),
    /// No line within the wait.
    Silence,
    /// The end of the output.
    End,
    /// A failure to read, with its message.
    Failed(String),
}

/// What to do next.
#[derive(Debug)]
pub enum Step {
    /// Wait for a line, for at most the given nanoseconds.
    Wait(u64),
    /// Stop reading and conclude.
    Conclude,
}

/// What to do after an event.
#[derive(Debug)]
pub enum Flow {
    /// Go on.
    Continue,
    /// Stop reading and conclude.
    Conclude,
    /// Give up with the message.
    Abort(String),
}

impl Exchange {
    /// The state before the first reply.
    pub fn new() -> (r: Self)
        ensures
            r@ == (ExchangeView {
                account: None,
                rate_limits: None,
                last_error: None,
                timed_out: false,
            }),
    {
        Exchange { account: None, rate_limits: None, last_error: None, timed_out: false }
    }

    /// Decides whether to go on reading, by the nanoseconds that are left.
    pub fn next_step(&mut self, left_nanos: u64) -> (r: Step)
        ensures
            r is Conclude <==> old(self)@.complete() || left_nanos == 0,
            r matches Step::Wait(nanos) ==> nanos == (if left_nanos < MAX_WAIT_NANOS {
                left_nanos
            } else {
                MAX_WAIT_NANOS
            }),
            final(self)@ == (ExchangeView {
                timed_out: old(self)@.timed_out || (!old(self)@.complete() && left_nanos == 0),
                ..old(self)@
            }),
    {
        if self.account.is_some() && self.rate_limits.is_some() {
            Step::Conclude
        } else if left_nanos == 0 {
            self.timed_out = true;
            Step::Conclude
        } else if left_nanos < MAX_WAIT_NANOS {
            Step::Wait(left_nanos)
        } else {
            Step::Wait(MAX_WAIT_NANOS)
        }
    }

    /// Takes in a reply, with the text of the error in it.
    pub fn absorb(&mut self, reply: &Json, error: Option<String>)
        ensures
            final(self)@ == old(self)@.with_reply(reply@, text::opt_view(error)),
    {
        if error.is_some() {
            self.last_error = error;
        }
        match usage::integer_of(reply.get("id")) {
            Some(id) => {
                if id == ACCOUNT_REQUEST {
                    self.account = response_payload(reply);
                } else if id == RATE_LIMIT_REQUEST {
                    self.rate_limits = response_payload(reply);
                }
            },
            None => {},
        }
    }

    /// Takes in a line.
    pub fn take_line(&mut self, line: &str)
        ensures
            final(self)@ == old(self)@.with_line(line@),
    {
        let inner = strip(line, CharClass::WhiteSpace);
        let chars = chars_of(inner.as_str());
        if chars.len() == 0 || chars[0] != '{' {
            return ;
        }
        if let Some((reply, error)) = parse_with_field(inner.as_str(), "error") {
            self.absorb(&reply, error);
        }
    }

    /// Takes in an event.
    pub fn take_event(&mut self, event: Event) -> (r: Flow)
        ensures
            final(self)@ == (match event {
                Event::Line(line) => old(self)@.with_line(line@),
                _ => old(self)@,
            }),
            r is Continue <==> event is Line || event is Silence,
            r is Conclude <==> event is End,
            r is Abort <==> event is Failed,
            r matches Flow::Abort(message) ==> message@ == event->Failed_0@,
    {
        match event {
            Event::Line(line) => {
                self.take_line(line.as_str());
                Flow::Continue
            },
            Event::Silence => Flow::Continue,
            Event::End => Flow::Conclude,
            Event::Failed(message) => Flow::Abort(message),
        }
    }
}

/// Why there is no reply: the last error, else advice with what is known of the server, which is
/// that it took too long, or that it ended with a status.
pub open spec fn complaint(
    state: ExchangeView,
    exit_status: Option<Seq<char>>,
    platform: Platform,
) -> Seq<char> {
    if state.last_error is Some {
        state.last_error->0
    } else if state.timed_out {
        executable::help(platform) + " "@ + text::decimal(APP_SERVER_TIMEOUT_SECS as nat)
            + " 秒内没有收到完整响应。"@
    } else if exit_status is Some {
        executable::help(platform) + " codex 进程退出状态: "@ + exit_status->0
    } else {
        executable::help(platform)
    }
}

/// The conclusion of an exchange: a snapshot where the rate limits have come, with or without the
/// account, else the complaint.
pub open spec fn conclusion(
    state: ExchangeView,
    exit_status: Option<Seq<char>>,
    platform: Platform,
    now: Timestamp,
) -> Result<SnapshotView, Seq<char>> {
    match state.rate_limits {
        Some(rate_limits) => Ok(snapshot::server_snapshot(state.account, rate_limits, None, now)),
        None => Err(complaint(state, exit_status, platform)),
    }
}

impl Exchange {
    fn explain(self, exit_status: Option<String>, platform: Platform) -> (r: String)
        ensures
            r@ == complaint(self@, text::opt_view(exit_status), platform),
    {
        if let Some(error) = self.last_error {
            return error;
        }
        let mut out = codex_app_server_help(platform).to_owned();
        if self.timed_out {
            out.append(" ");
            out.append(decimal_text(APP_SERVER_TIMEOUT_SECS).as_str());
            out.append(" 秒内没有收到完整响应。");
        } else if let Some(status) = exit_status {
            out.append(" codex 进程退出状态: ");
            out.append(status.as_str());
        }
        out
    }

    /// Concludes the exchange at `now`.
    pub fn conclude_at(self, exit_status: Option<String>, platform: Platform, now: Timestamp) -> (r:
        Result<UsageSnapshot, String>)
        requires
            now.valid(),
        ensures
            snapshot::outcome(r) == conclusion(self@, text::opt_view(exit_status), platform, now),
    {
        match &self.rate_limits {
            Some(rate_limits) => Ok(
                build_usage_snapshot_from_app_server_at(
                    self.account.as_ref(),
                    rate_limits,
                    None,
                    now,
                ),
            ),
            None => Err(self.explain(exit_status, platform)),
        }
    }

    /// Concludes the exchange at the present.
    pub fn conclude(self, exit_status: Option<String>, platform: Platform) -> (r: Result<
        UsageSnapshot,
        String,
    >)
        ensures
            exists|now: Timestamp|
                now.on_clock() && snapshot::outcome(r) == #[trigger] conclusion(
                    self@,
                    text::opt_view(exit_status),
                    platform,
                    now,
                ),
    {
        let now = time::utc_now();
        self.conclude_at(exit_status, platform, now)
    }
}

/// An object with one field.
pub open spec fn object1(name: Seq<char>, value: JsonTree) -> JsonTree {
    JsonTree::Object(seq![(name, value)])
}

/// A request: its identifier, its method and its parameters.
pub open spec fn request(id: u64, method: Seq<char>, params: JsonTree) -> JsonTree {
    JsonTree::Object(
        seq![
            ("id"@, JsonTree::Number(JsonNumber::PosInt(id))),
            ("method"@, JsonTree::Text(method)),
            ("params"@, params),
        ],
    )
}

/// The parameters of the first request: who is asking.
pub open spec fn client_info(version: Seq<char>) -> JsonTree {
    object1(
        "clientInfo"@,
        JsonTree::Object(
            seq![
                ("name"@, JsonTree::Text("win-codex-usage-tray"@)),
                ("title"@, JsonTree::Text("Codex Usage Tray"@)),
                ("version"@, JsonTree::Text(version)),
            ],
        ),
    )
}

/// The messages that open the exchange: the introduction, the account without a fresh token, and the
/// rate limits.
pub open spec fn messages(version: Seq<char>) -> Seq<JsonTree> {
    seq![
        request(1, "initialize"@, client_info(version)),
        object1("method"@, JsonTree::Text("initialized"@)),
        request(
            ACCOUNT_REQUEST as u64,
            "account/read"@,
            object1("refreshToken"@, JsonTree::Bool(false)),
        ),
        request(
            RATE_LIMIT_REQUEST as u64,
            "account/rateLimits/read"@,
            JsonTree::Object(seq![]),
        ),
    ]
}

fn object_of_one(name: &str, value: Value) -> (r: Value)
    ensures
        json_text::value_tree(r) == object1(name@, json_text::value_tree(value)),
{
    let mut fields: Vec<(String, Value)> = Vec::new();
    fields.push((name.to_owned(), value));
    assert(json_text::owned_fields(fields@) =~= seq![(name@, json_text::value_tree(value))]);
    object_value(fields)
}

fn object_of_three(a: (&str, Value), b: (&str, Value), c: (&str, Value)) -> (r: Value)
    requires
        text::text_before(a.0@, b.0@),
        text::text_before(b.0@, c.0@),
        text::text_before(a.0@, c.0@),
    ensures
        json_text::value_tree(r) == JsonTree::Object(
            seq![
                (a.0@, json_text::value_tree(a.1)),
                (b.0@, json_text::value_tree(b.1)),
                (c.0@, json_text::value_tree(c.1)),
            ],
        ),
{
    let mut fields: Vec<(String, Value)> = Vec::new();
    fields.push((a.0.to_owned(), a.1));
    fields.push((b.0.to_owned(), b.1));
    fields.push((c.0.to_owned(), c.1));
    assert(json_text::owned_fields(fields@) =~= seq![
        (a.0@, json_text::value_tree(a.1)),
        (b.0@, json_text::value_tree(b.1)),
        (c.0@, json_text::value_tree(c.1)),
    ]);
    object_value(fields)
}

fn request_value(id: u64, method: &str, params: Value) -> (r: Value)
    ensures
        json_text::value_tree(r) == request(id, method@, json_text::value_tree(params)),
{
    proof {
        reveal_strlit("id");
        reveal_strlit("method");
        reveal_strlit("params");
    }
    object_of_three(
        ("id", integer_value(id)),
        ("method", text_value(method)),
        ("params", params),
    )
}

/// The lines that open the exchange: each message without white space.
pub fn request_lines(version: &str) -> (r: Vec<String>)
    ensures
        text::text_list(r@) == messages(version@).map_values(
            |m: JsonTree| json_text::compact_text(m),
        ),
{
    proof {
        reveal_strlit("name");
        reveal_strlit("title");
        reveal_strlit("version");
    }
    let client = object_of_three(
        ("name", text_value("win-codex-usage-tray")),
        ("title", text_value("Codex Usage Tray")),
        ("version", text_value(version)),
    );
    let initialize = request_value(1, "initialize", object_of_one("clientInfo", client));
    let initialized = object_of_one("method", text_value("initialized"));
    let account = request_value(
        ACCOUNT_REQUEST as u64,
        "account/read",
        object_of_one("refreshToken", bool_value(false)),
    );
    let no_fields: Vec<(String, Value)> = Vec::new();
    assert(json_text::owned_fields(no_fields@) =~= seq![]);
    let rate_limits = request_value(
        RATE_LIMIT_REQUEST as u64,
        "account/rateLimits/read",
        object_value(no_fields),
    );
    let mut lines: Vec<String> = Vec::new();
    lines.push(render_value(&initialize));
    lines.push(render_value(&initialized));
    lines.push(render_value(&account));
    lines.push(render_value(&rate_limits));
    assert(text::text_list(lines@) =~= messages(version@).map_values(
        |m: JsonTree| json_text::compact_text(m),
    ));
    lines
}

/// Law: a reply to another request, without an error in it, changes nothing.
pub proof fn law_other_replies_ignored(state: ExchangeView, reply: JsonTree)
    requires
        usage::integer(reply.get("id"@)) != Some(ACCOUNT_REQUEST),
        usage::integer(reply.get("id"@)) != Some(RATE_LIMIT_REQUEST),
        reply.get("error"@) is None,
    ensures
        state.with_reply(reply, json_text::field_text(reply, "error"@)) == state,
{
}

/// Law: the replies for the account and for the rate limits may come in either order.
pub proof fn law_replies_in_either_order(state: ExchangeView, account: JsonTree, limits: JsonTree)
    requires
        usage::integer(account.get("id"@)) == Some(ACCOUNT_REQUEST),
        usage::integer(limits.get("id"@)) == Some(RATE_LIMIT_REQUEST),
    ensures
        state.with_reply(account, None).with_reply(limits, None) == state.with_reply(
            limits,
            None,
        ).with_reply(account, None),
        payload(account) is Some && payload(limits) is Some ==> state.with_reply(
            account,
            None,
        ).with_reply(limits, None).complete(),
{
}

/// Law: an error in a reply is the complaint of an exchange that brings no rate limits, however it
/// ends.
pub proof fn law_last_error_is_the_complaint(
    state: ExchangeView,
    reply: JsonTree,
    error: Seq<char>,
    exit_status: Option<Seq<char>>,
    platform: Platform,
    now: Timestamp,
)
    requires
        state.with_reply(reply, Some(error)).rate_limits is None,
    ensures
        conclusion(state.with_reply(reply, Some(error)), exit_status, platform, now) == Err::<
            SnapshotView,
            Seq<char>,
        >(error),
{
}

/// Law: once the rate limits are there, an exchange succeeds whatever else went wrong.
pub proof fn law_rate_limits_suffice(
    state: ExchangeView,
    exit_status: Option<Seq<char>>,
    platform: Platform,
    now: Timestamp,
)
    ensures
        conclusion(state, exit_status, platform, now) is Ok <==> state.rate_limits is Some,
{
}

/// The state after several lines.
pub open spec fn after_lines(state: ExchangeView, lines: Seq<Seq<char>>) -> ExchangeView
    decreases lines.len(),
{
    if lines.len() == 0 {
        state
    } else {
        after_lines(state, lines.drop_last()).with_line(lines.last())
    }
}

/// A line that is no JSON object, by its first character or because it cannot be parsed.
pub open spec fn noise(line: Seq<char>) -> bool {
    let inner = text::stripped(line, CharClass::WhiteSpace);
    inner.len() == 0 || inner[0] != '{' || json_text::parsed_tree(inner) is None
}

/// Law: a line that is no JSON object may stand anywhere between the others without effect.
pub proof fn law_noise_ignored(
    state: ExchangeView,
    before: Seq<Seq<char>>,
    line: Seq<char>,
    after: Seq<Seq<char>>,
)
    requires
        noise(line),
    ensures
        after_lines(state, before.push(line) + after) == after_lines(state, before + after),
    decreases after.len(),
{
    if after.len() == 0 {
        assert(before.push(line) + after =~= before.push(line));
        assert(before.push(line).drop_last() =~= before);
        assert(before + after =~= before);
    } else {
        law_noise_ignored(state, before, line, after.drop_last());
        assert((before.push(line) + after).drop_last() =~= before.push(line) + after.drop_last());
        assert((before + after).drop_last() =~= before + after.drop_last());
    }
}

/// Law: the content of a reply is its `result`, where that is missing its `params`, where that is
/// missing too its `payload`, and nothing where all are.
pub proof fn law_content_of_reply(reply: JsonTree, t: JsonTree)
    ensures
        reply.get("result"@) == Some(t) ==> payload(reply) == Some(t),
        reply.get("result"@) is None && reply.get("params"@) == Some(t) ==> payload(reply) == Some(
            t,
        ),
        reply.get("result"@) is None && reply.get("params"@) is None && reply.get("payload"@)
            == Some(t) ==> payload(reply) == Some(t),
        reply.get("result"@) is None && reply.get("params"@) is None && reply.get(
            "payload"@,
        ) is None ==> payload(reply) is None,
{
}

/// Law: a reply with the identifier 2 brings the account and one with the identifier 3 the rate
/// limits; neither touches the other, and no other reply touches either.
pub proof fn law_replies_by_identifier(
    state: ExchangeView,
    reply: JsonTree,
    error: Option<Seq<char>>,
)
    ensures
        ({
            let after = state.with_reply(reply, error);
            let id = reply.get("id"@);
            &&& id == Some(json::whole(2)) ==> after.account == payload(reply) && after.rate_limits
                == state.rate_limits
            &&& id == Some(json::whole(3)) ==> after.rate_limits == payload(reply) && after.account
                == state.account
            &&& id is None || (id->0.as_i64() != Some(2i64) && id->0.as_i64() != Some(3i64))
                ==> after.account == state.account && after.rate_limits
                == state.rate_limits
            &&& error is Some ==> after.last_error == error
            &&& error is None ==> after.last_error == state.last_error
            &&& after.timed_out == state.timed_out
        }),
{
}

/// Law: whatever a reply has under `error` is its error, in the text form of `serde_json`, and a reply
/// without it has none.
pub proof fn law_error_of_reply(reply: JsonTree, error: JsonTree)
    ensures
        reply.get("error"@) == Some(error) ==> json_text::field_text(reply, "error"@) == Some(
            json_text::compact_text(error),
        ),
        reply.get("error"@) is None ==> json_text::field_text(reply, "error"@) is None,
{
}

/// Law: a line that is a JSON object is taken as a reply, whatever white space surrounds it, with the
/// error in it.
pub proof fn law_line_is_a_reply(
    state: ExchangeView,
    before: Seq<char>,
    core: Seq<char>,
    after: Seq<char>,
    reply: JsonTree,
)
    requires
        text::all_of(before, CharClass::WhiteSpace),
        text::all_of(after, CharClass::WhiteSpace),
        core.len() > 0,
        core.first() == '{',
        !CharClass::WhiteSpace.holds(core.last()),
        json_text::parsed_tree(core) == Some(reply),
    ensures
        state.with_line(before + core + after) == state.with_reply(
            reply,
            json_text::field_text(reply, "error"@),
        ),
{
    text::law_strip(before, core, after, CharClass::WhiteSpace);
}

/// Law: an exchange that brings neither rate limits nor an error is explained by the advice for the
/// system, followed by the time limit where it ran out, else by the status with which the server ended
/// where it did.
pub proof fn law_complaint_without_error(
    state: ExchangeView,
    exit_status: Option<Seq<char>>,
    platform: Platform,
    now: Timestamp,
)
    requires
        state.rate_limits is None,
        state.last_error is None,
    ensures
        ({
            let result = conclusion(state, exit_status, platform, now);
            let advice = executable::help(platform);
            &&& result is Err
            &&& advice.is_prefix_of(result->Err_0)
            &&& state.timed_out ==> result->Err_0 == advice + " "@ + text::decimal(20)
                + " 秒内没有收到完整响应。"@
            &&& !state.timed_out && exit_status is Some ==> exit_status->0.is_suffix_of(
                result->Err_0,
            )
            &&& !state.timed_out && exit_status is Some ==> result->Err_0 != advice
            &&& !state.timed_out && exit_status is None ==> result->Err_0 == advice
        }),
{
    reveal_strlit(" codex 进程退出状态: ");
    let advice = executable::help(platform);
    let said = complaint(state, exit_status, platform);
    assert(" codex 进程退出状态: "@.len() > 0);
    assert(said.take(advice.len() as int) =~= advice);
    if !state.timed_out && exit_status is Some {
        assert(said.len() > advice.len());
        assert(said.skip(said.len() - exit_status->0.len()) =~= exit_status->0);
    }
}

/// Law: once the rate limits are there, the conclusion shows them and the account that came with them,
/// whatever the errors, the time and the exit status.
pub proof fn law_conclusion_shows_replies(
    state: ExchangeView,
    other: ExchangeView,
    exit_status: Option<Seq<char>>,
    other_status: Option<Seq<char>>,
    platform: Platform,
    now: Timestamp,
)
    requires
        state.rate_limits is Some,
        state.rate_limits == other.rate_limits,
        state.account == other.account,
    ensures
        conclusion(state, exit_status, platform, now) == conclusion(
            other,
            other_status,
            platform,
            now,
        ),
        conclusion(state, exit_status, platform, now) is Ok,
        ({
            let shown = conclusion(state, exit_status, platform, now)->Ok_0;
            &&& state.account is Some ==> shown.account_email == usage::account_email(
                state.account->0,
            )
            &&& state.account is None ==> shown.account_email is None
            &&& shown == snapshot::server_snapshot(
                state.account,
                state.rate_limits->0,
                None,
                now,
            )
        }),
{
}

/// Law: the requests for the account and for the rate limits carry the identifiers by which their
/// replies are told, and the one for the account asks for no fresh token.
pub proof fn law_requests_match_replies(version: Seq<char>)
    ensures
        messages(version).len() == 4,
        ({
            let account = messages(version)[2];
            let limits = messages(version)[3];
            &&& account.get("id"@) == Some(json::whole(2))
            &&& account.get("method"@) == Some(JsonTree::Text("account/read"@))
            &&& account.get("params"@) is Some
            &&& account.get("params"@)->0.get("refreshToken"@) == Some(JsonTree::Bool(false))
            &&& limits.get("id"@) == Some(json::whole(3))
            &&& limits.get("method"@) == Some(JsonTree::Text("account/rateLimits/read"@))
        }),
{
    reveal_strlit("id");
    reveal_strlit("method");
    reveal_strlit("params");
    assert("id"@.len() == 2 && "method"@.len() == 6 && "params"@.len() == 6);
    assert("method"@[0] == 'm' && "params"@[0] == 'p');
    let account = messages(version)[2]->Object_0;
    let limits = messages(version)[3]->Object_0;
    json::law_get_gives_first_field(account, 0);
    json::law_get_gives_first_field(account, 1);
    json::law_get_gives_first_field(account, 2);
    json::law_get_gives_first_field(limits, 0);
    json::law_get_gives_first_field(limits, 1);
    json::law_get_gives_first_field(account[2].1->Object_0, 0);
}

} // verus!
