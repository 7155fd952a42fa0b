//! Model Context Protocol server: configuration, status snapshot, the JSON-RPC methods it
//! answers and the memo tools it offers.
use crate::memo::{CreateMemo, FindMemo, UpdateMemo};
use crate::text::{
    chars_of, decimal, decimal_string, extend_chars, is_blank, push_signed_decimal, signed_decimal,
    str_equals, string_from_chars, trim_chars, trim_ws,
};
use crate::types::{RowStatus, Visibility};
use vstd::prelude::*;

verus! {

/// Key of the stored configuration.
pub const CONFIG_KEY: &'static str = "mcp_config";

/// Server configuration.
#[derive(Debug, Clone)]
pub struct McpConfig {
    pub enabled: bool,
    pub host: String,
    pub port: u16,
    /// Bearer token clients must send; blank means no authentication.
    pub auth_token: String,
    pub auto_start: bool,
}

/// Default: disabled.
pub fn default_enabled() -> (b: bool)
    ensures
        !b,
{
    false
}

/// Default listening host.
pub fn default_host() -> (s: String)
    ensures
        s@ == "127.0.0.1"@,
{
    String::from_str("127.0.0.1")
}

/// Default port.
pub fn default_port() -> (p: u16)
    ensures
        p == 27100,
{
    27100
}

/// The endpoint clients use.
pub open spec fn endpoint(c: McpConfig) -> Seq<char> {
    "http://"@ + c.host@ + ":"@ + decimal(c.port as nat) + "/mcp"@
}

impl McpConfig {
    /// The default configuration: disabled, 127.0.0.1:27100, no token, no auto start.
    pub fn default_config() -> (c: McpConfig)
        ensures
            !c.enabled,
            c.host@ == "127.0.0.1"@,
            c.port == 27100,
            c.auth_token@.len() == 0,
            !c.auto_start,
    {
        McpConfig {
            enabled: default_enabled(),
            host: default_host(),
            port: default_port(),
            auth_token: String::new(),
            auto_start: false,
        }
    }

    /// `http://{host}:{port}/mcp`.
    pub fn endpoint_url(&self) -> (r: String)
        ensures
            r@ == endpoint(*self),
    {
        let port = decimal_string(self.port as u64);
        let mut s = String::from_str("http://");
        s.append(self.host.as_str());
        s.append(":");
        s.append(port.as_str());
        s.append("/mcp");
        s
    }

    /// Whether a token is set (not blank).
    pub fn has_auth(&self) -> (r: bool)
        ensures
            r == (trim_ws(self.auth_token@).len() > 0),
    {
        let t = chars_of(self.auth_token.as_str());
        !is_blank(t.as_slice())
    }
}

/// Status snapshot of the server.
#[derive(Debug, Clone)]
pub struct McpStatus {
    pub running: bool,
    pub endpoint_url: String,
    pub started_at: Option<i64>,
    pub last_error: Option<String>,
    pub config: McpConfig,
}

/// The status of a server that is not running, with the endpoint the configuration gives.
pub fn stopped_status(cfg: McpConfig) -> (s: McpStatus)
    ensures
        !s.running,
        s.started_at is None,
        s.last_error is None,
        s.endpoint_url@ == endpoint(cfg),
        s.config == cfg,
{
    McpStatus {
        running: false,
        endpoint_url: cfg.endpoint_url(),
        started_at: None,
        last_error: None,
        config: cfg,
    }
}

impl McpConfig {
    /// A field-by-field copy of the configuration.
    pub fn copied(&self) -> (c: McpConfig)
        ensures
            c == *self,
    {
        McpConfig {
            enabled: self.enabled,
            host: self.host.clone(),
            port: self.port,
            auth_token: self.auth_token.clone(),
            auto_start: self.auto_start,
        }
    }
}

/// The server's state apart from its listener: the configuration, whether it runs, since
/// when, and the last error.
pub struct McpState {
    pub config: McpConfig,
    pub running: bool,
    pub started_at: Option<i64>,
    pub last_error: Option<String>,
}

impl McpState {
    /// A server with the given configuration that never ran.
    pub fn new(config: McpConfig) -> (s: McpState)
        ensures
            s.config == config,
            !s.running,
            s.started_at is None,
            s.last_error is None,
    {
        McpState { config, running: false, started_at: None, last_error: None }
    }

    /// Whether the server runs.
    pub fn is_running(&self) -> (r: bool)
        ensures
            r == self.running,
    {
        self.running
    }

    /// The endpoint of the configuration in use.
    pub fn endpoint_url(&self) -> (r: String)
        ensures
            r@ == endpoint(self.config),
    {
        self.config.endpoint_url()
    }

    /// Keeps the error of a start that failed.
    pub fn set_last_error(&mut self, msg: String)
        ensures
            final(self).last_error == Some(msg),
            final(self).config == old(self).config,
            final(self).running == old(self).running,
            final(self).started_at == old(self).started_at,
    {
        self.last_error = Some(msg);
    }

    /// The listener is bound at `now`: the server runs since then and the last error is
    /// cleared.
    pub fn record_started(&mut self, now: i64)
        ensures
            final(self).running,
            final(self).started_at == Some(now),
            final(self).last_error is None,
            final(self).config == old(self).config,
    {
        self.running = true;
        self.started_at = Some(now);
        self.last_error = None;
    }

    /// The server stopped: it no longer runs and has no start time.
    pub fn clear_runtime(&mut self)
        ensures
            !final(self).running,
            final(self).started_at is None,
            final(self).last_error == old(self).last_error,
            final(self).config == old(self).config,
    {
        self.running = false;
        self.started_at = None;
    }

    /// Replaces the configuration; it takes effect at the next start.
    pub fn update_config(&mut self, config: McpConfig)
        ensures
            final(self).config == config,
            final(self).running == old(self).running,
            final(self).started_at == old(self).started_at,
            final(self).last_error == old(self).last_error,
    {
        self.config = config;
    }

    /// The status snapshot.
    pub fn status(&self) -> (s: McpStatus)
        ensures
            s.running == self.running,
            s.endpoint_url@ == endpoint(self.config),
            s.started_at == self.started_at,
            s.last_error == self.last_error,
            s.config == self.config,
    {
        McpStatus {
            running: self.running,
            endpoint_url: self.config.endpoint_url(),
            started_at: self.started_at,
            last_error: match &self.last_error {
                Some(e) => Some(e.clone()),
                None => None,
            },
            config: self.config.copied(),
        }
    }
}

/// One content block of a tool result.
#[derive(Debug, Clone, PartialEq, Eq)]
pub enum ToolContent {
    Text { text: String },
}

/// Result of a tool call.
#[derive(Debug, Clone)]
pub struct CallToolResult {
    pub content: Vec<ToolContent>,
    pub is_error: Option<bool>,
}

impl CallToolResult {
    /// A successful result holding one text block.
    pub fn text(text: String) -> (r: CallToolResult)
        ensures
            r.content@ == seq![ToolContent::Text { text }],
            r.is_error is None,
    {
        CallToolResult { content: vec![ToolContent::Text { text }], is_error: None }
    }

    /// A failed result holding one text block with the message.
    pub fn error(message: String) -> (r: CallToolResult)
        ensures
            r.content@ == seq![ToolContent::Text { text: message }],
            r.is_error == Some(true),
    {
        CallToolResult { content: vec![ToolContent::Text { text: message }], is_error: Some(true) }
    }
}


/// JSON-RPC error codes.
pub const PARSE_ERROR: i32 = -32700;
pub const INVALID_REQUEST: i32 = -32600;
pub const METHOD_NOT_FOUND: i32 = -32601;
pub const INVALID_PARAMS: i32 = -32602;
pub const INTERNAL_ERROR: i32 = -32603;

/// The name the server introduces itself with.
pub const SERVER_NAME: &'static str = "LocalFragNote MCP";

/// The protocol revision the server speaks.
pub const PROTOCOL_VERSION: &'static str = "2025-03-26";

/// The methods the server knows.
#[derive(Debug, Clone, Copy, PartialEq, Eq)]
pub enum McpMethod {
    Initialize,
    /// `notifications/initialized`: a notification, never answered.
    Initialized,
    Ping,
    ToolsList,
    ToolsCall,
    ResourcesList,
    ResourcesRead,
    PromptsList,
    LoggingSetLevel,
    Unknown,
}

/// The method a request names.
pub fn classify_method(m: &str) -> (r: McpMethod)
    ensures
        r == if m@ == "initialize"@ {
            McpMethod::Initialize
        } else if m@ == "notifications/initialized"@ {
            McpMethod::Initialized
        } else if m@ == "ping"@ {
            McpMethod::Ping
        } else if m@ == "tools/list"@ {
            McpMethod::ToolsList
        } else if m@ == "tools/call"@ {
            McpMethod::ToolsCall
        } else if m@ == "resources/list"@ {
            McpMethod::ResourcesList
        } else if m@ == "resources/read"@ {
            McpMethod::ResourcesRead
        } else if m@ == "prompts/list"@ {
            McpMethod::PromptsList
        } else if m@ == "logging/setLevel"@ {
            McpMethod::LoggingSetLevel
        } else {
            McpMethod::Unknown
        },
{
    if str_equals(m, "initialize") {
        McpMethod::Initialize
    } else if str_equals(m, "notifications/initialized") {
        McpMethod::Initialized
    } else if str_equals(m, "ping") {
        McpMethod::Ping
    } else if str_equals(m, "tools/list") {
        McpMethod::ToolsList
    } else if str_equals(m, "tools/call") {
        McpMethod::ToolsCall
    } else if str_equals(m, "resources/list") {
        McpMethod::ResourcesList
    } else if str_equals(m, "resources/read") {
        McpMethod::ResourcesRead
    } else if str_equals(m, "prompts/list") {
        McpMethod::PromptsList
    } else if str_equals(m, "logging/setLevel") {
        McpMethod::LoggingSetLevel
    } else {
        McpMethod::Unknown
    }
}

/// Whether a request gets an answer: a notification (a request without an id) never does,
/// nor does the `notifications/initialized` notification; every other request is answered.
pub fn method_answered(m: McpMethod, has_id: bool) -> (r: bool)
    ensures
        r == (has_id && m != McpMethod::Initialized),
{
    if !has_id {
        return false;
    }
    match m {
        McpMethod::Initialized => false,
        _ => true,
    }
}

/// The error a method is answered with, if any: `resources/read` is not implemented and an
/// unknown method is refused with `未知方法: ` and its name.
pub fn method_error(m: McpMethod, name: &str) -> (r: Option<(i32, String)>)
    ensures
        m == McpMethod::ResourcesRead ==> (r matches Some(e) && e.0 == METHOD_NOT_FOUND && e.1@
            == "resources/read 暂未实现"@),
        m == McpMethod::Unknown ==> (r matches Some(e) && e.0 == METHOD_NOT_FOUND && e.1@
            == "未知方法: "@ + name@),
        m != McpMethod::ResourcesRead && m != McpMethod::Unknown ==> r is None,
{
    match m {
        McpMethod::ResourcesRead => Some(
            (METHOD_NOT_FOUND, String::from_str("resources/read 暂未实现")),
        ),
        McpMethod::Unknown => {
            let mut s = String::from_str("未知方法: ");
            s.append(name);
            Some((METHOD_NOT_FOUND, s))
        },
        _ => None,
    }
}

/// A memo tool offered to clients; `input_schema` is its JSON schema text.
#[derive(Debug, Clone)]
pub struct McpTool {
    pub name: String,
    pub description: String,
    pub input_schema: String,
}

/// The names of the memo tools, in order.
pub open spec fn mcp_tool_names() -> Seq<Seq<char>> {
    seq![
        "create_memo"@,
        "update_memo"@,
        "delete_memo"@,
        "get_memo"@,
        "list_memos"@,
        "search_memos"@,
        "list_tags"@,
    ]
}

fn mcp_tool(name: &str, description: &str, schema: &str) -> (t: McpTool)
    ensures
        t.name@ == name@,
        t.description@ == description@,
        t.input_schema@ == schema@,
{
    McpTool {
        name: String::from_str(name),
        description: String::from_str(description),
        input_schema: String::from_str(schema),
    }
}

/// What the `create_memo` tool does, as told to clients.
pub const CREATE_MEMO_DESCRIPTION: &'static str = "Create a new memo card (note). The content is Markdown; use #tag to attach tags. Returns the created memo.";

/// The JSON schema of the `create_memo` tool's arguments.
pub const CREATE_MEMO_SCHEMA: &'static str = "{\"type\":\"object\",\"properties\":{\"content\":{\"type\":\"string\",\"description\":\"Markdown content of the memo. Use #tag syntax to attach tags.\"},\"visibility\":{\"type\":\"string\",\"enum\":[\"PUBLIC\",\"PROTECTED\",\"PRIVATE\"],\"default\":\"PRIVATE\",\"description\":\"Visibility of the memo.\"},\"pinned\":{\"type\":\"boolean\",\"default\":false,\"description\":\"Whether the memo is pinned to the top.\"},\"uid\":{\"type\":\"string\",\"description\":\"Optional unique identifier (alphanumeric/underscore, <=64 chars). Auto-generated if omitted.\"}},\"required\":[\"content\"]}";

/// What the `update_memo` tool does, as told to clients.
pub const UPDATE_MEMO_DESCRIPTION: &'static str = "Update an existing memo card by id or uid. Only provided fields are updated.";

/// The JSON schema of the `update_memo` tool's arguments.
pub const UPDATE_MEMO_SCHEMA: &'static str = "{\"type\":\"object\",\"properties\":{\"id\":{\"type\":\"integer\",\"description\":\"Numeric id of the memo.\"},\"uid\":{\"type\":\"string\",\"description\":\"UID of the memo. Used if id is not provided.\"},\"content\":{\"type\":\"string\",\"description\":\"New Markdown content.\"},\"visibility\":{\"type\":\"string\",\"enum\":[\"PUBLIC\",\"PROTECTED\",\"PRIVATE\"]},\"pinned\":{\"type\":\"boolean\"},\"archived\":{\"type\":\"boolean\",\"description\":\"Set to true to archive, false to restore.\"}}}";

/// What the `delete_memo` tool does, as told to clients.
pub const DELETE_MEMO_DESCRIPTION: &'static str = "Permanently delete a memo card by id or uid.";

/// The JSON schema of the `delete_memo` tool's arguments.
pub const DELETE_MEMO_SCHEMA: &'static str = "{\"type\":\"object\",\"properties\":{\"id\":{\"type\":\"integer\"},\"uid\":{\"type\":\"string\"}}}";

/// What the `get_memo` tool does, as told to clients.
pub const GET_MEMO_DESCRIPTION: &'static str = "Get a single memo card by id or uid, including full content.";

/// The JSON schema of the `get_memo` tool's arguments.
pub const GET_MEMO_SCHEMA: &'static str = "{\"type\":\"object\",\"properties\":{\"id\":{\"type\":\"integer\"},\"uid\":{\"type\":\"string\"}}}";

/// What the `list_memos` tool does, as told to clients.
pub const LIST_MEMOS_DESCRIPTION: &'static str = "List memo cards with optional filters. Returns newest first by default.";

/// The JSON schema of the `list_memos` tool's arguments.
pub const LIST_MEMOS_SCHEMA: &'static str = "{\"type\":\"object\",\"properties\":{\"limit\":{\"type\":\"integer\",\"default\":20,\"minimum\":1,\"maximum\":200},\"offset\":{\"type\":\"integer\",\"default\":0,\"minimum\":0},\"tag\":{\"type\":\"string\",\"description\":\"Filter by exact tag (without #).\"},\"search\":{\"type\":\"string\",\"description\":\"Full-text search query (FTS5 syntax).\"},\"pinned_only\":{\"type\":\"boolean\",\"default\":false},\"include_archived\":{\"type\":\"boolean\",\"default\":false}}}";

/// What the `search_memos` tool does, as told to clients.
pub const SEARCH_MEMOS_DESCRIPTION: &'static str = "Full-text search across all memo cards using FTS5 query syntax. Returns matching memos ranked by relevance.";

/// The JSON schema of the `search_memos` tool's arguments.
pub const SEARCH_MEMOS_SCHEMA: &'static str = "{\"type\":\"object\",\"properties\":{\"query\":{\"type\":\"string\",\"description\":\"FTS5 query string. Examples: 'keyword', '\\\"exact phrase\\\"', 'term1 OR term2', 'prefix*'.\"},\"limit\":{\"type\":\"integer\",\"default\":20,\"minimum\":1,\"maximum\":200}},\"required\":[\"query\"]}";

/// What the `list_tags` tool does, as told to clients.
pub const LIST_TAGS_DESCRIPTION: &'static str = "List all tags currently used across memos, with usage counts.";

/// The JSON schema of the `list_tags` tool's arguments.
pub const LIST_TAGS_SCHEMA: &'static str = "{\"type\":\"object\",\"properties\":{}}";

/// The descriptions of the memo tools, in order.
pub open spec fn mcp_tool_descriptions() -> Seq<Seq<char>> {
    seq![
        CREATE_MEMO_DESCRIPTION@,
        UPDATE_MEMO_DESCRIPTION@,
        DELETE_MEMO_DESCRIPTION@,
        GET_MEMO_DESCRIPTION@,
        LIST_MEMOS_DESCRIPTION@,
        SEARCH_MEMOS_DESCRIPTION@,
        LIST_TAGS_DESCRIPTION@,
    ]
}

/// The argument schemas of the memo tools, in order.
pub open spec fn mcp_tool_schemas() -> Seq<Seq<char>> {
    seq![
        CREATE_MEMO_SCHEMA@,
        UPDATE_MEMO_SCHEMA@,
        DELETE_MEMO_SCHEMA@,
        GET_MEMO_SCHEMA@,
        LIST_MEMOS_SCHEMA@,
        SEARCH_MEMOS_SCHEMA@,
        LIST_TAGS_SCHEMA@,
    ]
}

/// The memo tools: create, update, delete, get, list and search memos, list tags, each with
/// its description and the JSON schema of its arguments.
pub fn tool_definitions() -> (r: Vec<McpTool>)
    ensures
        r.len() == 7,
        forall|k: int| 0 <= k < 7 ==> (#[trigger] r@[k]).name@ == mcp_tool_names()[k]
            && r@[k].description@ == mcp_tool_descriptions()[k]
            && r@[k].input_schema@ == mcp_tool_schemas()[k],
{
    let mut v: Vec<McpTool> = Vec::new();
    v.push(mcp_tool("create_memo", CREATE_MEMO_DESCRIPTION, CREATE_MEMO_SCHEMA));
    v.push(mcp_tool("update_memo", UPDATE_MEMO_DESCRIPTION, UPDATE_MEMO_SCHEMA));
    v.push(mcp_tool("delete_memo", DELETE_MEMO_DESCRIPTION, DELETE_MEMO_SCHEMA));
    v.push(mcp_tool("get_memo", GET_MEMO_DESCRIPTION, GET_MEMO_SCHEMA));
    v.push(mcp_tool("list_memos", LIST_MEMOS_DESCRIPTION, LIST_MEMOS_SCHEMA));
    v.push(mcp_tool("search_memos", SEARCH_MEMOS_DESCRIPTION, SEARCH_MEMOS_SCHEMA));
    v.push(mcp_tool("list_tags", LIST_TAGS_DESCRIPTION, LIST_TAGS_SCHEMA));
    proof {
        reveal_strlit("create_memo");
        reveal_strlit("update_memo");
        reveal_strlit("delete_memo");
        reveal_strlit("get_memo");
        reveal_strlit("list_memos");
        reveal_strlit("search_memos");
        reveal_strlit("list_tags");
    }
    v
}

/// Checks a `tools/call` request's tool name: an empty name is invalid, a name that is not
/// one of the tools is unknown.
pub fn check_tool_call(name: &str) -> (r: Result<(), (i32, String)>)
    ensures
        name@.len() == 0 ==> (r matches Err(e) && e.0 == INVALID_PARAMS && e.1@
            == "工具 name 不能为空"@),
        name@.len() > 0 && !mcp_tool_names().contains(name@) ==> (r matches Err(e) && e.0
            == METHOD_NOT_FOUND && e.1@ == "未知工具: "@ + name@),
        name@.len() > 0 && mcp_tool_names().contains(name@) ==> r is Ok,
{
    let c = chars_of(name);
    if c.len() == 0 {
        return Err((INVALID_PARAMS, String::from_str("工具 name 不能为空")));
    }
    let tools = tool_definitions();
    let mut k: usize = 0;
    while k < tools.len()
        invariant
            k <= tools.len(),
            tools.len() == 7,
            c@ == name@,
            c.len() > 0,
            forall|j: int| 0 <= j < 7 ==> (#[trigger] tools@[j]).name@ == mcp_tool_names()[j],
            forall|j: int| 0 <= j < k ==> mcp_tool_names()[j] != name@,
        decreases tools.len() - k,
    {
        if str_equals(tools[k].name.as_str(), name) {
            assert(mcp_tool_names()[k as int] == name@);
            return Ok(());
        }
        k = k + 1;
    }
    let mut s = String::from_str("未知工具: ");
    s.append(name);
    Err((METHOD_NOT_FOUND, s))
}

/// The result of a tool that failed: `工具执行失败: ` and the error.
pub fn tool_failure(detail: &str) -> (r: CallToolResult)
    ensures
        r.is_error == Some(true),
        r.content.len() == 1,
        r.content@[0] matches ToolContent::Text { text } && text@ == "工具执行失败: "@ + detail@,
{
    let mut s = String::from_str("工具执行失败: ");
    s.append(detail);
    CallToolResult::error(s)
}

/// The tool result while the server is shutting down.
pub fn shutting_down_result() -> (r: CallToolResult)
    ensures
        r.is_error == Some(true),
        r.content@ =~= seq![ToolContent::Text { text: r.content@[0]->Text_text }],
        r.content@[0]->Text_text@ == "服务正在关闭，无法处理请求"@,
{
    CallToolResult::error(String::from_str("服务正在关闭，无法处理请求"))
}

/// A visibility argument: `PUBLIC`, `PROTECTED` or `PRIVATE`; anything else, or none, is
/// private.
pub open spec fn visibility_arg(v: Option<Seq<char>>) -> Visibility {
    match v {
        Some(s) => if s == "PUBLIC"@ {
            Visibility::Public
        } else if s == "PROTECTED"@ {
            Visibility::Protected
        } else {
            Visibility::Private
        },
        None => Visibility::Private,
    }
}

/// Reads a visibility argument (see `visibility_arg`).
pub fn parse_visibility(v: Option<&str>) -> (r: Visibility)
    ensures
        r == visibility_arg(
            match v {
                Some(s) => Some(s@),
                None => None,
            },
        ),
{
    match v {
        Some(s) => if str_equals(s, "PUBLIC") {
            Visibility::Public
        } else if str_equals(s, "PROTECTED") {
            Visibility::Protected
        } else {
            Visibility::Private
        },
        None => Visibility::Private,
    }
}

/// The arguments of `create_memo`.
#[derive(Debug, Clone)]
pub struct CreateMemoArgs {
    pub content: String,
    pub visibility: Option<String>,
    pub pinned: Option<bool>,
    pub uid: Option<String>,
}

/// The memo `create_memo` creates, with `generated_uid` when no uid is given; blank content
/// is refused with a tool error.
pub fn create_from_args(args: CreateMemoArgs, generated_uid: String) -> (r: Result<
    CreateMemo,
    CallToolResult,
>)
    ensures
        trim_ws(args.content@).len() == 0 ==> (r matches Err(e) && e.is_error == Some(true)
            && e.content@[0]->Text_text@ == "content 不能为空"@),
        trim_ws(args.content@).len() > 0 ==> (r matches Ok(c) && c.uid == match args.uid {
            Some(u) => u,
            None => generated_uid,
        } && c.content == args.content && c.visibility == visibility_arg(
            match args.visibility {
                Some(s) => Some(s@),
                None => None,
            },
        ) && c.pinned == match args.pinned {
            Some(b) => b,
            None => false,
        } && c.payload@ == "{}"@ && c.location is None),
{
    let cc = chars_of(args.content.as_str());
    let t = trim_chars(cc.as_slice());
    if t.len() == 0 {
        return Err(CallToolResult::error(String::from_str("content 不能为空")));
    }
    let visibility = match &args.visibility {
        Some(s) => parse_visibility(Some(s.as_str())),
        None => parse_visibility(None),
    };
    let uid = match args.uid {
        Some(u) => u,
        None => generated_uid,
    };
    let pinned = match args.pinned {
        Some(b) => b,
        None => false,
    };
    Ok(
        CreateMemo {
            uid,
            content: args.content,
            visibility,
            pinned,
            payload: String::from_str("{}"),
            location: None,
        },
    )
}

/// The tool error for a memo that cannot be found.
pub fn memo_not_found_result() -> (r: CallToolResult)
    ensures
        r.is_error == Some(true),
        r.content@[0]->Text_text@ == "找不到指定的 memo"@,
{
    CallToolResult::error(String::from_str("找不到指定的 memo"))
}

/// The filter that finds the memo an update or delete is about, by id or uid; naming
/// neither is refused with a tool error.
pub fn memo_lookup(id: Option<i32>, uid: Option<String>) -> (r: Result<FindMemo, CallToolResult>)
    ensures
        id is None && uid is None ==> (r matches Err(e) && e.is_error == Some(true)
            && e.content@[0]->Text_text@ == "必须提供 id 或 uid"@),
        !(id is None && uid is None) ==> (r matches Ok(f) && f.id == id && f.uid == uid
            && f.row_status is None && f.tag_search@.len() == 0 && f.limit is None),
{
    if id.is_none() && uid.is_none() {
        return Err(CallToolResult::error(String::from_str("必须提供 id 或 uid")));
    }
    let mut f = FindMemo::all();
    f.id = id;
    f.uid = uid;
    Ok(f)
}

/// The arguments of `update_memo` besides the memo it names.
#[derive(Debug, Clone)]
pub struct UpdateMemoArgs {
    pub content: Option<String>,
    pub visibility: Option<String>,
    pub pinned: Option<bool>,
    pub archived: Option<bool>,
}

/// The update `update_memo` makes to the memo `id`, and whether its embedding must follow
/// (content or status changed). `archived` archives or restores; a visibility other than
/// `PUBLIC` or `PROTECTED` makes it private.
pub fn update_from_args(id: i32, args: UpdateMemoArgs) -> (r: (UpdateMemo, bool))
    ensures
        r.0.id == id,
        r.0.uid is None,
        r.0.row_status == match args.archived {
            Some(true) => Some(RowStatus::Archived),
            Some(false) => Some(RowStatus::Normal),
            None => None::<RowStatus>,
        },
        r.0.content == args.content,
        r.0.visibility == match args.visibility {
            Some(s) => Some(visibility_arg(Some(s@))),
            None => None::<Visibility>,
        },
        r.0.pinned == args.pinned,
        r.0.payload is None,
        r.0.location is None,
        r.1 == (args.content is Some || args.archived is Some),
{
    let row_status = match args.archived {
        Some(true) => Some(RowStatus::Archived),
        Some(false) => Some(RowStatus::Normal),
        None => None,
    };
    let visibility = match &args.visibility {
        Some(s) => Some(parse_visibility(Some(s.as_str()))),
        None => None,
    };
    let sync = args.content.is_some() || row_status.is_some();
    (
        UpdateMemo {
            id,
            uid: None,
            row_status,
            content: args.content,
            visibility,
            pinned: args.pinned,
            payload: None,
            location: None,
        },
        sync,
    )
}

/// The result of a deletion: `已删除 memo id={id} uid={uid}`.
pub fn deleted_result(id: i32, uid: &str) -> (r: CallToolResult)
    ensures
        r.is_error is None,
        r.content@[0]->Text_text@ == "已删除 memo id="@ + signed_decimal(id as int) + " uid="@
            + uid@,
{
    let mut v = chars_of("已删除 memo id=");
    push_signed_decimal(&mut v, id as i64);
    let u = chars_of(" uid=");
    extend_chars(&mut v, u.as_slice());
    let w = chars_of(uid);
    extend_chars(&mut v, w.as_slice());
    CallToolResult::text(string_from_chars(v.as_slice()))
}

/// A limit argument: 20 when absent, kept between 1 and 200.
pub open spec fn tool_limit(limit: Option<i32>) -> i32 {
    let n = match limit {
        Some(x) => x,
        None => 20,
    };
    if n < 1 {
        1
    } else if n > 200 {
        200
    } else {
        n
    }
}

fn clamp_tool_limit(limit: Option<i32>) -> (r: i32)
    ensures
        r == tool_limit(limit),
{
    let n = match limit {
        Some(x) => x,
        None => 20,
    };
    if n < 1 {
        1
    } else if n > 200 {
        200
    } else {
        n
    }
}

/// The arguments of `list_memos`.
#[derive(Debug, Clone)]
pub struct ListMemosArgs {
    pub limit: Option<i32>,
    pub offset: Option<i32>,
    pub tag: Option<String>,
    pub search: Option<String>,
    pub include_archived: Option<bool>,
}

/// The filter of `list_memos`: the clamped limit, the offset (0 when absent or negative),
/// the tag, a non-blank search as an FTS query, normal memos unless archived ones are asked
/// for, pinned first, newest first.
pub fn list_from_args(args: ListMemosArgs) -> (f: FindMemo)
    ensures
        f.limit == Some(tool_limit(args.limit)),
        f.offset == Some(
            match args.offset {
                Some(o) => if o < 0 {
                    0
                } else {
                    o
                },
                None => 0,
            },
        ),
        f.tag_search@ == match args.tag {
            Some(t) => seq![t],
            None => Seq::<String>::empty(),
        },
        f.fts_query == match args.search {
            Some(s) => if trim_ws(s@).len() > 0 {
                Some(s)
            } else {
                None::<String>
            },
            None => None::<String>,
        },
        f.row_status == if args.include_archived == Some(true) {
            None::<RowStatus>
        } else {
            Some(RowStatus::Normal)
        },
        f.order_by_pinned,
        !f.order_by_time_asc,
        f.id is None,
        f.uid is None,
{
    let mut f = FindMemo::all();
    f.limit = Some(clamp_tool_limit(args.limit));
    f.offset = Some(
        match args.offset {
            Some(o) => if o < 0 {
                0
            } else {
                o
            },
            None => 0,
        },
    );
    match args.tag {
        Some(t) => {
            let mut v: Vec<String> = Vec::new();
            v.push(t);
            f.tag_search = v;
        },
        None => {},
    }
    f.fts_query = match args.search {
        Some(s) => {
            let c = chars_of(s.as_str());
            let t = trim_chars(c.as_slice());
            if t.len() > 0 {
                Some(s)
            } else {
                None
            }
        },
        None => None,
    };
    f.row_status = match args.include_archived {
        Some(true) => None,
        _ => Some(RowStatus::Normal),
    };
    f.order_by_pinned = true;
    f.order_by_time_asc = false;
    f
}

/// The filter of `search_memos`: the query as an FTS query over normal memos with the
/// clamped limit; a blank query is refused with a tool error.
pub fn search_from_args(query: String, limit: Option<i32>) -> (r: Result<FindMemo, CallToolResult>)
    ensures
        trim_ws(query@).len() == 0 ==> (r matches Err(e) && e.is_error == Some(true)
            && e.content@[0]->Text_text@ == "query 不能为空"@),
        trim_ws(query@).len() > 0 ==> (r matches Ok(f) && f.fts_query == Some(query) && f.limit
            == Some(tool_limit(limit)) && f.row_status == Some(RowStatus::Normal) && f.id is None
            && f.uid is None && f.tag_search@.len() == 0),
{
    let c = chars_of(query.as_str());
    let t = trim_chars(c.as_slice());
    if t.len() == 0 {
        return Err(CallToolResult::error(String::from_str("query 不能为空")));
    }
    let mut f = FindMemo::all();
    f.fts_query = Some(query);
    f.limit = Some(clamp_tool_limit(limit));
    f.row_status = Some(RowStatus::Normal);
    Ok(f)
}


/// A configuration as saved: the host must not be blank and the port not 0; host and
/// token are trimmed.
pub fn normalize_config(req: McpConfig) -> (r: Result<McpConfig, crate::error::IpcError>)
    ensures
        trim_ws(req.host@).len() == 0 ==> (r matches Err(crate::error::IpcError::BadRequest(m))
            && m@ == "监听 host 不能为空"@),
        trim_ws(req.host@).len() > 0 && req.port == 0 ==> (r matches Err(
            crate::error::IpcError::BadRequest(m),
        ) && m@ == "监听端口不能为 0"@),
        trim_ws(req.host@).len() > 0 && req.port != 0 ==> (r matches Ok(c) && c.host@ == trim_ws(
            req.host@,
        ) && c.auth_token@ == trim_ws(req.auth_token@) && c.port == req.port && c.enabled
            == req.enabled && c.auto_start == req.auto_start),
{
    let h = chars_of(req.host.as_str());
    let ht = trim_chars(h.as_slice());
    if ht.len() == 0 {
        return Err(crate::error::IpcError::BadRequest(String::from_str("监听 host 不能为空")));
    }
    if req.port == 0 {
        return Err(crate::error::IpcError::BadRequest(String::from_str("监听端口不能为 0")));
    }
    let t = chars_of(req.auth_token.as_str());
    let tt = trim_chars(t.as_slice());
    Ok(
        McpConfig {
            enabled: req.enabled,
            host: string_from_chars(ht.as_slice()),
            port: req.port,
            auth_token: string_from_chars(tt.as_slice()),
            auto_start: req.auto_start,
        },
    )
}

/// `s` with every trailing repetition of `p` removed (`str::trim_end_matches`).
pub open spec fn strip_suffixes(s: Seq<char>, p: Seq<char>) -> Seq<char>
    decreases s.len(),
{
    if p.len() > 0 && p.len() <= s.len() && s.skip(s.len() - p.len()) == p {
        strip_suffixes(s.take(s.len() - p.len()), p)
    } else {
        s
    }
}

/// The URL a connection test posts to: the endpoint without its trailing `/mcp`s, then
/// `/mcp`.
pub fn test_url(endpoint_url: &str) -> (r: String)
    ensures
        r@ == strip_suffixes(endpoint_url@, "/mcp"@) + "/mcp"@,
{
    let c = chars_of(endpoint_url);
    let p = chars_of("/mcp");
    proof {
        reveal_strlit("/mcp");
    }
    let mut end = c.len();
    assert(c@.take(c.len() as int) =~= c@);
    while end >= p.len() && crate::text::chars_equal(
        crate::text::sub_chars(c.as_slice(), end - p.len(), end).as_slice(),
        p.as_slice(),
    )
        invariant
            end <= c.len(),
            p@ == "/mcp"@,
            p.len() == 4,
            strip_suffixes(c@, p@) == strip_suffixes(c@.take(end as int), p@),
        decreases end,
    {
        let ghost t = c@.take(end as int);
        assert(t.skip(t.len() - 4) =~= c@.subrange(end - 4, end as int));
        assert(t.take(t.len() - 4) =~= c@.take(end - 4));
        end = end - p.len();
    }
    proof {
        let t = c@.take(end as int);
        if end >= 4 {
            assert(t.skip(t.len() - 4) =~= c@.subrange(end - 4, end as int));
        }
        assert(c@.take(c@.len() as int) =~= c@);
    }
    let kept = crate::text::sub_chars(c.as_slice(), 0, end);
    assert(kept@ =~= c@.take(end as int));
    let mut s = string_from_chars(kept.as_slice());
    s.append("/mcp");
    s
}

} // verus!
