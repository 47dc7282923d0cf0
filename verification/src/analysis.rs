//! Planning an AI analysis run: which service to call and with what, the
//! text and prompt sent to it, and what is kept of its reply.
use vstd::prelude::*;
use crate::config::{setting_or, text_setting, ConfigStore};
use crate::dates::{day_number, valid_date, zero_pad, CivilDate};
use crate::text::utf8_len;
use crate::text::{push_char, push_str, str_chars, str_eq};
use crate::todo::{
    extract_todo_from_text, extract_todos_from_session, opt_string, session_todos, string_views, todo_of,
};

verus! {

/// The AI services the assistant can call.
#[derive(Clone, Copy, Debug, PartialEq, Eq, Structural)]
pub enum Provider {
    MiniMax,
    OpenAi,
    Custom,
    Volcengine,
}

/// The service named by the `ai_provider` setting; any other name means MiniMax.
pub open spec fn provider_named(name: Seq<char>) -> Provider {
    if name == "openai"@ {
        Provider::OpenAi
    } else if name == "custom"@ {
        Provider::Custom
    } else if name == "volcengine"@ {
        Provider::Volcengine
    } else {
        Provider::MiniMax
    }
}

/// The service chosen in the settings (MiniMax when none is chosen).
pub open spec fn provider_of(cfg: Map<Seq<char>, Seq<char>>) -> Provider {
    provider_named(setting_or(cfg, "ai_provider"@, "minimax"@))
}

/// The setting that holds the API key of a service.
pub open spec fn api_key_setting(p: Provider) -> Seq<char> {
    match p {
        Provider::OpenAi | Provider::Custom => "openai_api_key"@,
        Provider::Volcengine => "volcengine_api_key"@,
        Provider::MiniMax => "minimax_api_key"@,
    }
}

/// How the demo message names a service.
pub open spec fn provider_hint(p: Provider) -> Seq<char> {
    match p {
        Provider::Volcengine => "火山方舟 (volcengine)"@,
        Provider::OpenAi => "OpenAI"@,
        Provider::Custom => "自定义 (custom)"@,
        Provider::MiniMax => "MiniMax"@,
    }
}

pub const DEMO_HEAD: &'static str = "⚠️ 演示模式：";

pub const DEMO_TAIL: &'static str = " API Key 未配置。\n\n请在「设置 → AI 服务商」中选择服务商并填入 Key 后保存。";

/// The message stored in place of an analysis when the service has no key.
pub open spec fn demo_text(p: Provider) -> Seq<char> {
    DEMO_HEAD@ + provider_hint(p) + DEMO_TAIL@
}

pub const MINIMAX_URL: &'static str = "https://api.minimax.chat/v1/text/chatcompletion_v2";

/// `s` without the slashes it ends with.
pub open spec fn trim_slashes(s: Seq<char>) -> Seq<char>
    decreases s.len(),
{
    if s.len() > 0 && s.last() == '/' {
        trim_slashes(s.drop_last())
    } else {
        s
    }
}

/// The chat-completions endpoint under an OpenAI-style base URL.
pub open spec fn chat_url(base: Seq<char>) -> Seq<char> {
    trim_slashes(base) + "/chat/completions"@
}

/// The MiniMax endpoint, with the group when one is set.
pub open spec fn minimax_url_text(group: Seq<char>) -> Seq<char> {
    if group.len() == 0 {
        MINIMAX_URL@
    } else {
        MINIMAX_URL@ + "?GroupId="@ + group
    }
}

/// The endpoint called for a service, from the settings.
pub open spec fn request_url(cfg: Map<Seq<char>, Seq<char>>, p: Provider) -> Seq<char> {
    match p {
        Provider::OpenAi | Provider::Custom => chat_url(
            setting_or(cfg, "openai_base_url"@, "https://api.openai.com/v1"@),
        ),
        Provider::Volcengine => chat_url(
            setting_or(cfg, "volcengine_base_url"@, "https://ark.cn-beijing.volces.com/api/v3"@),
        ),
        Provider::MiniMax => minimax_url_text(setting_or(cfg, "minimax_group_id"@, ""@)),
    }
}

/// The model asked for; the MiniMax request names a fixed model of its own.
pub open spec fn request_model(cfg: Map<Seq<char>, Seq<char>>, p: Provider) -> Option<Seq<char>> {
    match p {
        Provider::OpenAi | Provider::Custom => Some(
            setting_or(cfg, "openai_model"@, "gpt-4o-mini"@),
        ),
        Provider::Volcengine => Some(setting_or(cfg, "volcengine_model"@, "doubao-pro-4k"@)),
        Provider::MiniMax => None,
    }
}

/// A call to make to an AI service.
#[derive(Clone, Debug)]
pub struct LlmRequest {
    pub provider: Provider,
    pub api_key: String,
    pub url: String,
    pub model: Option<String>,
}

/// What an analysis run does: store a demo message, or call a service.
#[derive(Clone, Debug)]
pub enum AnalysisRoute {
    Demo(String),
    Call(LlmRequest),
}

/// `r` is the route the settings `cfg` call for: with no key for the chosen
/// service, the demo message naming it; otherwise a call with that key, URL
/// and model.
pub open spec fn route_is(cfg: Map<Seq<char>, Seq<char>>, r: AnalysisRoute) -> bool {
    let p = provider_of(cfg);
    let key = setting_or(cfg, api_key_setting(p), ""@);
    if key.len() == 0 {
        r matches AnalysisRoute::Demo(m) && m@ == demo_text(p)
    } else {
        &&& r matches AnalysisRoute::Call(q)
        &&& q.provider == p
        &&& q.api_key@ == key
        &&& q.url@ == request_url(cfg, p)
        &&& opt_string(q.model) == request_model(cfg, p)
    }
}

/// Reads the service name of the `ai_provider` setting.
pub fn provider_from_name(name: &str) -> (r: Provider)
    ensures
        r == provider_named(name@),
{
    if str_eq(name, "openai") {
        Provider::OpenAi
    } else if str_eq(name, "custom") {
        Provider::Custom
    } else if str_eq(name, "volcengine") {
        Provider::Volcengine
    } else {
        Provider::MiniMax
    }
}

fn key_setting_name(p: Provider) -> (r: &'static str)
    ensures
        r@ == api_key_setting(p),
{
    match p {
        Provider::OpenAi | Provider::Custom => "openai_api_key",
        Provider::Volcengine => "volcengine_api_key",
        Provider::MiniMax => "minimax_api_key",
    }
}

fn hint_of(p: Provider) -> (r: &'static str)
    ensures
        r@ == provider_hint(p),
{
    match p {
        Provider::Volcengine => "火山方舟 (volcengine)",
        Provider::OpenAi => "OpenAI",
        Provider::Custom => "自定义 (custom)",
        Provider::MiniMax => "MiniMax",
    }
}

/// The demo message for a service without a key.
pub fn demo_message(p: Provider) -> (r: String)
    ensures
        r@ == demo_text(p),
{
    let mut s = String::new();
    push_str(&mut s, DEMO_HEAD);
    push_str(&mut s, hint_of(p));
    push_str(&mut s, DEMO_TAIL);
    s
}

/// Removes the slashes `s` ends with.
pub fn trim_trailing_slashes(s: &str) -> (r: String)
    ensures
        r@ == trim_slashes(s@),
{
    let v = str_chars(s);
    let mut end = v.len();
    assert(v@.take(end as int) =~= v@);
    while end > 0 && v[end - 1] == '/'
        invariant
            end <= v.len(),
            trim_slashes(v@) == trim_slashes(v@.take(end as int)),
        decreases end,
    {
        assert(v@.take(end as int).drop_last() =~= v@.take(end - 1));
        end -= 1;
    }
    assert(v@.subrange(0, end as int) =~= v@.take(end as int));
    crate::text::string_of_range(&v, 0, end)
}

/// The chat-completions endpoint under `base_url`.
pub fn chat_completions_url(base_url: &str) -> (r: String)
    ensures
        r@ == chat_url(base_url@),
{
    let mut s = trim_trailing_slashes(base_url);
    push_str(&mut s, "/chat/completions");
    s
}

/// The MiniMax endpoint for `group_id` (none when it is empty).
pub fn minimax_url(group_id: &str) -> (r: String)
    ensures
        r@ == minimax_url_text(group_id@),
{
    let mut s = String::new();
    push_str(&mut s, MINIMAX_URL);
    if group_id.unicode_len() > 0 {
        push_str(&mut s, "?GroupId=");
        push_str(&mut s, group_id);
    }
    s
}

/// Decides from the settings whether to call a service, and which.
pub fn analysis_route(cfg: &ConfigStore) -> (r: AnalysisRoute)
    ensures
        route_is(cfg@, r),
{
    let name = text_setting(cfg, "ai_provider", "minimax");
    let p = provider_from_name(name.as_str());
    let key = text_setting(cfg, key_setting_name(p), "");
    if key.unicode_len() == 0 {
        return AnalysisRoute::Demo(demo_message(p));
    }
    let (url, model) = match p {
        Provider::OpenAi | Provider::Custom => {
            let base = text_setting(cfg, "openai_base_url", "https://api.openai.com/v1");
            let model = text_setting(cfg, "openai_model", "gpt-4o-mini");
            (chat_completions_url(base.as_str()), Some(model))
        },
        Provider::Volcengine => {
            let base = text_setting(
                cfg,
                "volcengine_base_url",
                "https://ark.cn-beijing.volces.com/api/v3",
            );
            let model = text_setting(cfg, "volcengine_model", "doubao-pro-4k");
            (chat_completions_url(base.as_str()), Some(model))
        },
        Provider::MiniMax => {
            let group = text_setting(cfg, "minimax_group_id", "");
            (minimax_url(group.as_str()), None)
        },
    };
    AnalysisRoute::Call(LlmRequest { provider: p, api_key: key, url, model })
}

// ---------------------------------------------------------------------------
// Prompts
// ---------------------------------------------------------------------------

pub const PRODUCTIVITY_PROMPT_HEAD: &'static str = "你是一个个人生产力助手。请分析以下用户今日的电脑输入数据，给出生产力评估。\n\n要求：\n1. 评估时间分配是否合理\n2. 识别可能的效率瓶颈\n3. 给出3条具体改进建议\n4. 用中文回答，控制在300字以内\n\n以下是用户今日的输入数据（片段）：\n";

pub const PRODUCTIVITY_PROMPT_TAIL: &'static str = "\n\n请按以下格式输出：\n## 生产力评估\n[评分：X/100]\n\n## 时间分析\n[分析内容]\n\n## 改进建议\n1. [建议1]\n2. [建议2]\n3. [建议3]";

pub const TOPIC_PROMPT_HEAD: &'static str = "你是一个个人助手。请从以下用户今日的输入数据中，提取3-5个核心话题/主题。\n\n要求：\n1. 识别用户主要在做什么工作\n2. 提取讨论的关键话题\n3. 用中文简洁回答\n\n用户输入数据：\n";

pub const TOPIC_PROMPT_TAIL: &'static str = "\n\n请按以下格式输出：\n## 今日核心话题\n1. [话题1]：[简要说明]\n2. [话题2]：[简要说明]\n3. [话题3]：[简要说明]";

pub const WRITING_PROMPT_HEAD: &'static str = "你是一个写作教练。请分析以下用户今日的文本输入，给出写作优化建议。\n\n要求：\n1. 检查是否有错别字或用词不当\n2. 分析表达风格（简洁/冗长/正式/口语化）\n3. 给出3条具体改进建议\n4. 用中文回答\n\n用户输入文本：\n";

pub const WRITING_PROMPT_TAIL: &'static str = "\n\n请按以下格式输出：\n## 写作分析\n[整体评价]\n\n## 发现的问题\n1. [问题1]\n2. [问题2]\n\n## 优化建议\n1. [建议1]\n2. [建议2]\n3. [建议3]";

pub const TODO_PROMPT_HEAD: &'static str = "你是一个任务管理助手。请从以下用户输入中，提取所有可能的待办事项（TODO）。\n\n要求：\n1. 识别明确的任务、计划、提醒\n2. 过滤掉非任务性的陈述\n3. 每条TODO简洁明确\n4. 尝试提取截止日期（如果有）\n5. 用中文回答\n\n用户输入：\n";

pub const TODO_PROMPT_TAIL: &'static str = "\n\n请按以下格式输出，如果没有找到TODO则回复\"未发现待办事项\"：\n## 提取的 TODO\n- [ ] [任务1] [截止日期（如有）]\n- [ ] [任务2]\n- [ ] [任务3]";

pub const WEEKLY_PROMPT_HEAD: &'static str = "你是一个个人复盘助手。请综合分析以下用户过去一周的输入数据，生成一页纸周报。\n\n要求：\n1. 概括本周的主要活动和产出\n2. 分析时间使用效率\n3. 识别本周的习惯模式（如深夜工作、频繁切换应用等）\n4. 与上周可能的对比趋势（基于数据推测）\n5. 给出下周改进建议\n6. 用中文回答，控制在500字以内\n\n以下是用户本周的输入数据（片段）：\n";

pub const WEEKLY_PROMPT_TAIL: &'static str = "\n\n请按以下格式输出：\n# 本周复盘报告\n\n## 本周概览\n[一段话总结]\n\n## 产出统计\n- 总输入字符数：约 X\n- 活跃天数：X 天\n- 主要应用：[应用名]\n\n## 习惯分析\n[分析内容]\n\n## 下周建议\n1. [建议1]\n2. [建议2]\n3. [建议3]";

pub const GENERAL_PROMPT_HEAD: &'static str = "请分析以下数据并给出洞察：\n";

/// The text put before and after the user's data in the prompt for `kind`.
pub open spec fn prompt_frame(kind: Seq<char>) -> (Seq<char>, Seq<char>) {
    if kind == "productivity"@ {
        (PRODUCTIVITY_PROMPT_HEAD@, PRODUCTIVITY_PROMPT_TAIL@)
    } else if kind == "topic"@ {
        (TOPIC_PROMPT_HEAD@, TOPIC_PROMPT_TAIL@)
    } else if kind == "writing"@ {
        (WRITING_PROMPT_HEAD@, WRITING_PROMPT_TAIL@)
    } else if kind == "todo"@ {
        (TODO_PROMPT_HEAD@, TODO_PROMPT_TAIL@)
    } else if kind == "weekly"@ {
        (WEEKLY_PROMPT_HEAD@, WEEKLY_PROMPT_TAIL@)
    } else {
        (GENERAL_PROMPT_HEAD@, ""@)
    }
}

/// The prompt sent for an analysis of `kind` over `data`.
pub open spec fn prompt_text(kind: Seq<char>, data: Seq<char>) -> Seq<char> {
    prompt_frame(kind).0 + data + prompt_frame(kind).1
}

fn frame_of(kind: &str) -> (r: (&'static str, &'static str))
    ensures
        (r.0@, r.1@) == prompt_frame(kind@),
{
    if str_eq(kind, "productivity") {
        (PRODUCTIVITY_PROMPT_HEAD, PRODUCTIVITY_PROMPT_TAIL)
    } else if str_eq(kind, "topic") {
        (TOPIC_PROMPT_HEAD, TOPIC_PROMPT_TAIL)
    } else if str_eq(kind, "writing") {
        (WRITING_PROMPT_HEAD, WRITING_PROMPT_TAIL)
    } else if str_eq(kind, "todo") {
        (TODO_PROMPT_HEAD, TODO_PROMPT_TAIL)
    } else if str_eq(kind, "weekly") {
        (WEEKLY_PROMPT_HEAD, WEEKLY_PROMPT_TAIL)
    } else {
        (GENERAL_PROMPT_HEAD, "")
    }
}

/// Builds the prompt for an analysis of `kind` over `data`.
pub fn build_prompt(kind: &str, data: &str) -> (r: String)
    ensures
        r@ == prompt_text(kind@, data@),
{
    let (head, tail) = frame_of(kind);
    let mut s = String::new();
    push_str(&mut s, head);
    push_str(&mut s, data);
    push_str(&mut s, tail);
    s
}

// ---------------------------------------------------------------------------
// The text analysed
// ---------------------------------------------------------------------------

/// One recorded event as the analysis reads it (its time in Unix milliseconds).
#[derive(Clone, Debug)]
pub struct AnalysisEvent {
    pub timestamp: i64,
    pub content: Option<String>,
}

/// `%m-%d %H:%M` of the UTC time `ts_ms` milliseconds after the epoch, or
/// nothing when that day lies outside chrono's calendar.
pub open spec fn minute_stamp(ts_ms: int) -> Seq<char> {
    let days = ts_ms / 86_400_000;
    let secs = (ts_ms % 86_400_000) / 1000;
    if exists|d: CivilDate| valid_date(d) && #[trigger] day_number(d) == days {
        let d = choose|d: CivilDate| valid_date(d) && #[trigger] day_number(d) == days;
        zero_pad(d.month as nat, 2) + seq!['-'] + zero_pad(d.day as nat, 2) + seq![' '] + zero_pad(
            (secs / 3600) as nat,
            2,
        ) + seq![':'] + zero_pad(((secs % 3600) / 60) as nat, 2)
    } else {
        seq![]
    }
}

/// `DateTime::from_timestamp_millis(ts_ms)` formatted with `%m-%d %H:%M`, or
/// the empty string where chrono gives no time: the day `ts_ms / 86400000`
/// after 1970-01-01 must be a date of its calendar.
#[verifier::external_body]
fn minute_stamp_text(ts_ms: i64) -> (r: String)
    ensures
        r@ == minute_stamp(ts_ms as int),
{
    match chrono::DateTime::from_timestamp_millis(ts_ms) {
        Some(d) => d.format("%m-%d %H:%M").to_string(),
        None => String::new(),
    }
}

/// The line an event adds to the analysed text: none without content;
/// in a weekly analysis the content follows its time.
pub open spec fn event_line(weekly: bool, e: AnalysisEvent) -> Seq<char> {
    match e.content {
        Some(c) => if c@.len() == 0 {
            seq![]
        } else if weekly {
            seq!['['] + minute_stamp(e.timestamp as int) + "] "@ + c@ + seq!['\n']
        } else {
            c@ + seq!['\n']
        },
        None => seq![],
    }
}

/// The lines of the events `es`, in order.
pub open spec fn event_lines(weekly: bool, es: Seq<AnalysisEvent>) -> Seq<char>
    decreases es.len(),
{
    if es.len() == 0 {
        seq![]
    } else {
        event_lines(weekly, es.drop_last()) + event_line(weekly, es.last())
    }
}

/// How many events an analysis of `kind` reads, and how many bytes of text
/// it keeps: a week reads 300 and keeps 8000, a to-do scan 100 and 3000,
/// any other kind 200 and 5000.
pub open spec fn analysis_window(kind: Seq<char>) -> (nat, nat) {
    if kind == "weekly"@ {
        (300, 8000)
    } else if kind == "todo"@ {
        (100, 3000)
    } else {
        (200, 5000)
    }
}

pub const TRUNCATION_NOTE: &'static str = "\n...[内容已截断]";

/// How far back (milliseconds) an analysis of `kind` reads: seven days for
/// a weekly review, an hour for a to-do scan, a day otherwise.
pub open spec fn lookback(kind: Seq<char>) -> int {
    if kind == "weekly"@ {
        604_800_000
    } else if kind == "todo"@ {
        3_600_000
    } else {
        86_400_000
    }
}

/// The start (Unix milliseconds) of the period an analysis of `kind` reads,
/// ending at `now_ms`.
pub fn analysis_since(kind: &str, now_ms: i64) -> (r: i64)
    requires
        now_ms - lookback(kind@) >= i64::MIN,
    ensures
        r == now_ms - lookback(kind@),
{
    if str_eq(kind, "weekly") {
        now_ms - 7 * 86_400_000
    } else if str_eq(kind, "todo") {
        now_ms - 3_600_000
    } else {
        now_ms - 86_400_000
    }
}

/// `t` cut to its first `cap` bytes with a note, when it is longer; no text
/// when the cut falls inside a character (`String::truncate` refuses it).
pub open spec fn cut_to_bytes(t: Seq<char>, cap: nat) -> Option<Seq<char>> {
    if utf8_len(t) <= cap {
        Some(t)
    } else if exists|k: int| 0 <= k <= t.len() && utf8_len(#[trigger] t.take(k)) == cap {
        Some(
            t.take(choose|k: int| 0 <= k <= t.len() && utf8_len(#[trigger] t.take(k)) == cap)
                + TRUNCATION_NOTE@,
        )
    } else {
        None
    }
}

/// The text analysed for `kind` from the events `es`, newest first: the
/// lines of the first events of the window, cut to the byte limit.
pub open spec fn analysis_text_of(kind: Seq<char>, es: Seq<AnalysisEvent>) -> Option<Seq<char>> {
    let n = analysis_window(kind).0;
    let t = event_lines(
        kind == "weekly"@,
        es.take(
            if es.len() < n {
                es.len() as int
            } else {
                n as int
            },
        ),
    );
    cut_to_bytes(t, analysis_window(kind).1)
}

proof fn lemma_cut_at(t: Seq<char>, cap: nat, k: int)
    requires
        utf8_len(t) > cap,
        0 <= k <= t.len(),
        utf8_len(t.take(k)) == cap,
    ensures
        cut_to_bytes(t, cap) == Some(t.take(k) + TRUNCATION_NOTE@),
{
    let c = choose|j: int| 0 <= j <= t.len() && utf8_len(#[trigger] t.take(j)) == cap;
    if c < k {
        crate::text::lemma_utf8_len_monotone(t, c, k);
    } else if c > k {
        crate::text::lemma_utf8_len_monotone(t, k, c);
    }
}

fn push_event_line(text: &mut String, weekly: bool, e: &AnalysisEvent)
    ensures
        final(text)@ == old(text)@ + event_line(weekly, *e),
{
    match &e.content {
        Some(c) => {
            if c.unicode_len() > 0 {
                if weekly {
                    push_char(text, '[');
                    let stamp = minute_stamp_text(e.timestamp);
                    push_str(text, stamp.as_str());
                    push_str(text, "] ");
                    push_str(text, c.as_str());
                    push_char(text, '\n');
                    assert(text@ =~= old(text)@ + event_line(weekly, *e));
                } else {
                    push_str(text, c.as_str());
                    push_char(text, '\n');
                    assert(text@ =~= old(text)@ + event_line(weekly, *e));
                }
            } else {
                assert(text@ =~= old(text)@ + event_line(weekly, *e));
            }
        },
        None => {
            assert(text@ =~= old(text)@ + event_line(weekly, *e));
        },
    }
}

/// The text to analyse for `kind` from `events` (newest first); `None` exactly
/// when the byte limit would cut a character in two.
pub fn analysis_text(kind: &str, events: &Vec<AnalysisEvent>) -> (r: Option<String>)
    ensures
        opt_string(r) == analysis_text_of(kind@, events@),
{
    let weekly = str_eq(kind, "weekly");
    let (n, cap): (usize, u64) = if weekly {
        (300, 8000)
    } else if str_eq(kind, "todo") {
        (100, 3000)
    } else {
        (200, 5000)
    };
    let m = if events.len() < n {
        events.len()
    } else {
        n
    };
    let mut text = String::new();
    let mut i: usize = 0;
    while i < m
        invariant
            i <= m <= events.len(),
            text@ == event_lines(weekly, events@.take(i as int)),
        decreases m - i,
    {
        push_event_line(&mut text, weekly, &events[i]);
        assert(events@.take(i + 1).drop_last() =~= events@.take(i as int));
        i += 1;
    }
    let ghost t = text@;
    assert(t == event_lines(kind@ == "weekly"@, events@.take(m as int)));
    let v = str_chars(text.as_str());
    assert(v@.take(v@.len() as int) =~= v@);
    assert(v@.subrange(0, v@.len() as int) =~= v@);
    let total = crate::text::utf8_len_capped(&v, 0, v.len(), cap + 1);
    if total <= cap {
        return Some(text);
    }
    match crate::text::prefix_with_byte_len(&v, cap) {
        Some(k) => {
            let mut s = crate::text::string_of_range(&v, 0, k);
            push_str(&mut s, TRUNCATION_NOTE);
            proof {
                assert(v@.subrange(0, k as int) =~= t.take(k as int));
                assert(utf8_len(t.take(k as int)) == cap);
                lemma_cut_at(t, cap as nat, k as int);
            }
            Some(s)
        },
        None => {
            assert(!exists|j: int| 0 <= j <= t.len() && utf8_len(#[trigger] t.take(j)) == cap);
            None
        },
    }
}

// ---------------------------------------------------------------------------
// Running an analysis
// ---------------------------------------------------------------------------

/// The prompt for an analysis of `kind` over `data`, or the reply to give
/// instead when there is no data.
pub open spec fn prompt_step(kind: Seq<char>, data: Seq<char>) -> Result<Seq<char>, Seq<char>> {
    if data.len() == 0 {
        Err(NO_DATA_REPLY@)
    } else {
        Ok(prompt_text(kind, data))
    }
}

/// Turns the analysed text into the prompt, or into the no-data reply.
pub fn prompt_for(kind: &str, data: &str) -> (r: Result<String, String>)
    ensures
        match r {
            Ok(p) => prompt_step(kind@, data@) == Ok::<Seq<char>, Seq<char>>(p@),
            Err(m) => prompt_step(kind@, data@) == Err::<Seq<char>, Seq<char>>(m@),
        },
{
    if data.unicode_len() == 0 {
        Err(no_data_reply())
    } else {
        Ok(build_prompt(kind, data))
    }
}

/// Reply given when there is no recent input to analyse.
pub const NO_DATA_REPLY: &'static str = "当前没有足够的输入数据进行分析，请稍后再试。";

fn no_data_reply() -> (r: String)
    ensures
        r@ == NO_DATA_REPLY@,
{
    NO_DATA_REPLY.to_owned()
}

pub const EMPTY_REPLY: &'static str = "AI 分析完成，但返回内容为空";

/// What serde_json reads in the body of a chat reply: nothing when the body
/// is not JSON; otherwise the string at `choices[0].message.content`, if
/// there is a string there.
pub uninterp spec fn reply_content_of(body: Seq<char>) -> Option<Option<Seq<char>>>;

/// `serde_json::Error`, carried through as an opaque value.
#[verifier::external_type_specification]
#[verifier::external_body]
pub struct ExJsonError(serde_json::Error);

/// `serde_json::from_str::<Value>(body)` and the string at
/// `choices[0].message.content` of what it reads.
#[verifier::external_body]
fn read_reply(body: &str) -> (r: Result<Option<String>, serde_json::Error>)
    ensures
        match r {
            Ok(c) => reply_content_of(body@) == Some(opt_string(c)),
            Err(_) => reply_content_of(body@) is None,
        },
{
    match serde_json::from_str::<serde_json::Value>(body) {
        Ok(v) => match v["choices"][0]["message"]["content"].as_str() {
            Some(s) => Ok(Some(s.to_owned())),
            None => Ok(None),
        },
        Err(e) => Err(e),
    }
}

/// serde_json's own description of a parse error; nothing is stated of its text.
#[verifier::external_body]
fn json_error_text(e: &serde_json::Error) -> String {
    e.to_string()
}

/// Why a reply could not be read.
#[derive(Clone, Debug)]
pub struct ReplyError {
    pub message: String,
}

/// The analysis text of a reply: its content, or a fixed note when it has none.
pub fn reply_or_default(content: Option<String>) -> (r: String)
    ensures
        r@ == match opt_string(content) {
            Some(c) => c,
            None => EMPTY_REPLY@,
        },
{
    match content {
        Some(c) => c,
        None => EMPTY_REPLY.to_owned(),
    }
}

/// Reads the analysis text out of the body of a successful chat reply.
pub fn reply_text(body: &str) -> (r: Result<String, ReplyError>)
    ensures
        match reply_content_of(body@) {
            None => r is Err,
            Some(c) => r matches Ok(t) && t@ == match c {
                Some(x) => x,
                None => EMPTY_REPLY@,
            },
        },
{
    match read_reply(body) {
        Ok(c) => Ok(reply_or_default(c)),
        Err(e) => Err(ReplyError { message: json_error_text(&e) }),
    }
}

/// The error text of a reply with a failing HTTP status: the service named
/// as its request function names it (MiniMax, or OpenAI for the
/// OpenAI-style services), then the status and the body.
pub open spec fn failure_text(p: Provider, status: Seq<char>, body: Seq<char>) -> Seq<char> {
    (if p == Provider::MiniMax {
        "MiniMax"@
    } else {
        "OpenAI"@
    }) + " API 请求失败: "@ + status + " - "@ + body
}

pub fn request_failure(p: Provider, status: &str, body: &str) -> (r: String)
    ensures
        r@ == failure_text(p, status@, body@),
{
    let mut s = String::new();
    if p == Provider::MiniMax {
        push_str(&mut s, "MiniMax");
    } else {
        push_str(&mut s, "OpenAI");
    }
    push_str(&mut s, " API 请求失败: ");
    push_str(&mut s, status);
    push_str(&mut s, " - ");
    push_str(&mut s, body);
    s
}

/// The to-do items an analysis of `kind` adds: none unless it is a to-do
/// analysis; then the item read from the whole reply, if any, and the
/// first ten items of its lines.
pub open spec fn analysis_todos(kind: Seq<char>, reply: Seq<char>) -> Seq<Seq<char>> {
    if kind != "todo"@ {
        seq![]
    } else {
        let lines = session_todos(reply);
        (match todo_of(reply) {
            Some(t) => seq![t],
            None => seq![],
        }) + lines.take(
            if lines.len() < 10 {
                lines.len() as int
            } else {
                10
            },
        )
    }
}

/// The to-do items to store after an analysis of `kind` replied `reply`.
pub fn todos_from_analysis(kind: &str, reply: &str) -> (r: Vec<String>)
    ensures
        string_views(r@) == analysis_todos(kind@, reply@),
{
    let mut out: Vec<String> = Vec::new();
    if !str_eq(kind, "todo") {
        assert(string_views(out@) =~= analysis_todos(kind@, reply@));
        return out;
    }
    if let Some(t) = extract_todo_from_text(reply) {
        out.push(t);
    }
    let ghost first = string_views(out@);
    let lines = extract_todos_from_session(reply);
    let m = if lines.len() < 10 {
        lines.len()
    } else {
        10
    };
    let mut i: usize = 0;
    while i < m
        invariant
            i <= m <= lines.len(),
            string_views(out@) == first + string_views(lines@).take(i as int),
        decreases m - i,
    {
        let ghost before = out@;
        out.push(lines[i].clone());
        proof {
            assert(string_views(before) == first + string_views(lines@).take(i as int));
            assert(out@.len() == before.len() + 1);
            assert(out@[before.len() as int] == lines@[i as int]);
            assert(string_views(before).len() == before.len());
            assert(before.len() == first.len() + i);
            assert forall|j: int| 0 <= j < out@.len() implies #[trigger] string_views(out@)[j] == (first
                + string_views(lines@).take(i + 1))[j] by {
                if j < before.len() {
                    assert(string_views(before)[j] == (first + string_views(lines@).take(i as int))[j]);
                }
            }
        }
        i += 1;
        assert(string_views(out@) =~= first + string_views(lines@).take(i as int));
    }
    assert(string_views(out@) =~= analysis_todos(kind@, reply@));
    out
}

} // verus!
