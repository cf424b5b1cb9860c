//! The `ai` command-line client: its arguments, how it follows one
//! exchange with the router, and what it shows of each frame.
use crate::protocol::bounded::{byte_len, BoundedString, BoundedStringError};
use crate::protocol::errors::{is_error, ContractError, ContractErrorCode};
use crate::protocol::provider::ProviderId;
use crate::protocol::router::{
    router_request_verdict, ConsentToken, DataProvenance, DataSensitivity, ProtocolVersion,
    ProvenanceSource, RequestId, RequestPayload, RouterCapability, RouterRequest, RoutingPolicy,
    SessionId, Verdict, PROTOCOL_VERSION_V1,
};
use crate::protocol::socket::{EventPayload, FrameId, JsonlFrame, StreamId, ToolPhase};
use crate::text::{chars_of, chars_eq, concat, owned, str_eq, upper_chars, upper_seq};
use vstd::prelude::*;
use vstd::utf8::{is_ascii_chars, is_ascii_chars_encode_utf8};

verus! {

#[derive(Debug, Clone, Copy, PartialEq, Eq, Structural)]
pub enum OutputMode {
    Human,
    Json,
    Silent,
}

/// The kinds of data the user may allow to leave the machine.
#[derive(Debug, Clone, Copy, PartialEq, Eq, Structural)]
pub enum PrivacyCategory {
    UserPrompt,
    FileContent,
    CommandHistory,
    Hostname,
    IpAddress,
    ProcessName,
    Journal,
    Diagnostic,
}

#[derive(Debug, Clone, PartialEq, Eq)]
pub enum ClientCommand {
    Chat { question: String, policy: Option<RoutingPolicy>, provider: Option<String> },
    Status,
    SettingsGet,
    SettingsPolicy(RoutingPolicy),
    SettingsProvider(Option<String>),
    SettingsPrivacy(PrivacyCategory, bool),
    AskRemote { provider: String, question: String },
    Help,
}

#[derive(Debug, Clone, PartialEq, Eq)]
pub struct ClientOptions {
    pub output: OutputMode,
    pub command: ClientCommand,
}

/// What the arguments give: options, a question still to be read from
/// standard input (no argument but `--json` was given), or an error text.
#[derive(Debug, Clone, PartialEq, Eq)]
pub enum ParsedArgs {
    Options(ClientOptions),
    ReadQuestion(OutputMode),
}

pub open spec fn policy_named(v: Seq<char>) -> Option<RoutingPolicy> {
    let u = upper_seq(v);
    if u == "LOCAL_ONLY"@ {
        Some(RoutingPolicy::LocalOnly)
    } else if u == "LOCAL_PREFERRED"@ {
        Some(RoutingPolicy::LocalPreferred)
    } else if u == "REMOTE_PREFERRED"@ {
        Some(RoutingPolicy::RemotePreferred)
    } else if u == "ASK_BEFORE_REMOTE"@ {
        Some(RoutingPolicy::AskBeforeRemote)
    } else {
        None
    }
}

/// A routing policy by name, in any ASCII case.
pub fn parse_policy(value: &str) -> (r: Result<RoutingPolicy, String>)
    ensures
        match policy_named(value@) {
            Some(p) => r == Ok::<RoutingPolicy, String>(p),
            None => r matches Err(e) && e@ == "unknown policy"@,
        },
{
    let c = chars_of(value);
    let u = upper_chars(c.as_slice());
    let u = u.as_slice();
    if chars_eq(u, chars_of("LOCAL_ONLY").as_slice()) {
        Ok(RoutingPolicy::LocalOnly)
    } else if chars_eq(u, chars_of("LOCAL_PREFERRED").as_slice()) {
        Ok(RoutingPolicy::LocalPreferred)
    } else if chars_eq(u, chars_of("REMOTE_PREFERRED").as_slice()) {
        Ok(RoutingPolicy::RemotePreferred)
    } else if chars_eq(u, chars_of("ASK_BEFORE_REMOTE").as_slice()) {
        Ok(RoutingPolicy::AskBeforeRemote)
    } else {
        Err(owned("unknown policy"))
    }
}

pub open spec fn category_named(v: Seq<char>) -> Option<PrivacyCategory> {
    if v == "user_prompt"@ {
        Some(PrivacyCategory::UserPrompt)
    } else if v == "file_content"@ {
        Some(PrivacyCategory::FileContent)
    } else if v == "command_history"@ {
        Some(PrivacyCategory::CommandHistory)
    } else if v == "hostname"@ {
        Some(PrivacyCategory::Hostname)
    } else if v == "ip_address"@ {
        Some(PrivacyCategory::IpAddress)
    } else if v == "process_name"@ {
        Some(PrivacyCategory::ProcessName)
    } else if v == "journal"@ {
        Some(PrivacyCategory::Journal)
    } else if v == "diagnostic"@ {
        Some(PrivacyCategory::Diagnostic)
    } else {
        None
    }
}

pub fn parse_category(value: &str) -> (r: Result<PrivacyCategory, String>)
    ensures
        match category_named(value@) {
            Some(c) => r == Ok::<PrivacyCategory, String>(c),
            None => r matches Err(e) && e@ == "unknown privacy category"@,
        },
{
    if str_eq(value, "user_prompt") {
        Ok(PrivacyCategory::UserPrompt)
    } else if str_eq(value, "file_content") {
        Ok(PrivacyCategory::FileContent)
    } else if str_eq(value, "command_history") {
        Ok(PrivacyCategory::CommandHistory)
    } else if str_eq(value, "hostname") {
        Ok(PrivacyCategory::Hostname)
    } else if str_eq(value, "ip_address") {
        Ok(PrivacyCategory::IpAddress)
    } else if str_eq(value, "process_name") {
        Ok(PrivacyCategory::ProcessName)
    } else if str_eq(value, "journal") {
        Ok(PrivacyCategory::Journal)
    } else if str_eq(value, "diagnostic") {
        Ok(PrivacyCategory::Diagnostic)
    } else {
        Err(owned("unknown privacy category"))
    }
}

/// The abstract command: as `ClientCommand`, with texts as views.
pub enum CommandView {
    Chat { question: Seq<char>, policy: Option<RoutingPolicy>, provider: Option<Seq<char>> },
    Status,
    SettingsGet,
    SettingsPolicy(RoutingPolicy),
    SettingsProvider(Option<Seq<char>>),
    SettingsPrivacy(PrivacyCategory, bool),
    AskRemote { provider: Seq<char>, question: Seq<char> },
    Help,
    ReadQuestion,
    Invalid(Seq<char>),
}

pub open spec fn opt_text(o: Option<String>) -> Option<Seq<char>> {
    match o {
        Some(s) => Some(s@),
        None => None,
    }
}

pub open spec fn arg_views(args: Seq<String>) -> Seq<Seq<char>> {
    args.map_values(|a: String| a@)
}

/// The position of the first `--json`, or the length.
pub open spec fn json_flag_at(args: Seq<Seq<char>>) -> int
    decreases args.len(),
{
    if args.len() == 0 {
        0
    } else if args[0] == "--json"@ {
        0
    } else {
        1 + json_flag_at(args.drop_first())
    }
}

/// The arguments without the first `--json`, and the output mode it sets.
pub open spec fn output_of(args: Seq<Seq<char>>) -> (OutputMode, Seq<Seq<char>>) {
    let i = json_flag_at(args);
    if i < args.len() {
        (OutputMode::Json, args.take(i) + args.skip(i + 1))
    } else {
        (OutputMode::Human, args)
    }
}

/// The words joined by single spaces.
pub open spec fn spaced(ws: Seq<Seq<char>>) -> Seq<char> {
    crate::text::join(ws, " "@)
}

/// The chat flags and words from `i` on.
pub open spec fn chat_args(
    args: Seq<Seq<char>>,
    i: int,
    policy: Option<RoutingPolicy>,
    provider: Option<Seq<char>>,
    words: Seq<Seq<char>>,
) -> CommandView
    decreases args.len() - i,
{
    if i >= args.len() {
        if words.len() == 0 {
            CommandView::Invalid("a question is required"@)
        } else {
            CommandView::Chat { question: spaced(words), policy, provider }
        }
    } else {
        let a = args[i];
        if a == "--policy"@ {
            if i + 1 >= args.len() {
                CommandView::Invalid("--policy requires a value"@)
            } else {
                match policy_named(args[i + 1]) {
                    None => CommandView::Invalid("unknown policy"@),
                    Some(p) => chat_args(args, i + 2, Some(p), provider, words),
                }
            }
        } else if a == "--provider"@ {
            if i + 1 >= args.len() {
                CommandView::Invalid("--provider requires a value"@)
            } else {
                chat_args(args, i + 2, policy, Some(args[i + 1]), words)
            }
        } else if a == "--consent-token"@ {
            CommandView::Invalid("consent tokens are structured; use ask-remote or the JSONL API"@)
        } else if a.len() > 0 && a[0] == '-' {
            CommandView::Invalid("unknown option: "@ + a)
        } else {
            chat_args(args, i + 1, policy, provider, words.push(a))
        }
    }
}

/// What the arguments (without the program name) ask for, once the output
/// mode is taken out.
pub open spec fn command_of(args: Seq<Seq<char>>) -> CommandView {
    if args.len() == 0 {
        CommandView::ReadQuestion
    } else {
        let c = args[0];
        let n = args.len();
        if c == "-h"@ || c == "--help"@ || c == "help"@ {
            CommandView::Help
        } else if c == "status"@ && n == 1 {
            CommandView::Status
        } else if c == "settings"@ && n == 1 {
            CommandView::SettingsGet
        } else if c == "settings"@ && n == 3 && args[1] == "policy"@ {
            match policy_named(args[2]) {
                Some(p) => CommandView::SettingsPolicy(p),
                None => CommandView::Invalid("unknown policy"@),
            }
        } else if c == "settings"@ && n == 3 && args[1] == "provider"@ {
            CommandView::SettingsProvider(
                if args[2] == "none"@ {
                    None
                } else {
                    Some(args[2])
                },
            )
        } else if c == "settings"@ && n == 4 && args[1] == "privacy"@ {
            match category_named(args[2]) {
                None => CommandView::Invalid("unknown privacy category"@),
                Some(cat) => if args[3] == "remote"@ {
                    CommandView::SettingsPrivacy(cat, true)
                } else if args[3] == "local"@ {
                    CommandView::SettingsPrivacy(cat, false)
                } else {
                    CommandView::Invalid("privacy scope must be local or remote"@)
                },
            }
        } else if c == "ask-remote"@ && n >= 3 {
            CommandView::AskRemote { provider: args[1], question: spaced(args.skip(2)) }
        } else {
            chat_args(args, 0, None, None, Seq::empty())
        }
    }
}

pub open spec fn command_view(c: ClientCommand) -> CommandView {
    match c {
        ClientCommand::Chat { question, policy, provider } => CommandView::Chat {
            question: question@,
            policy,
            provider: opt_text(provider),
        },
        ClientCommand::Status => CommandView::Status,
        ClientCommand::SettingsGet => CommandView::SettingsGet,
        ClientCommand::SettingsPolicy(p) => CommandView::SettingsPolicy(p),
        ClientCommand::SettingsProvider(p) => CommandView::SettingsProvider(opt_text(p)),
        ClientCommand::SettingsPrivacy(c, r) => CommandView::SettingsPrivacy(c, r),
        ClientCommand::AskRemote { provider, question } => CommandView::AskRemote {
            provider: provider@,
            question: question@,
        },
        ClientCommand::Help => CommandView::Help,
    }
}

/// `r` is what `v` describes, under output mode `mode`.
pub open spec fn parsed_is(r: Result<ParsedArgs, String>, mode: OutputMode, v: CommandView) -> bool {
    match v {
        CommandView::ReadQuestion => r == Ok::<ParsedArgs, String>(ParsedArgs::ReadQuestion(mode)),
        CommandView::Invalid(m) => r matches Err(e) && e@ == m,
        _ => r matches Ok(ParsedArgs::Options(o)) && o.output == mode && command_view(o.command) == v,
    }
}

fn join_spaced(ws: &Vec<String>, from: usize) -> (r: String)
    requires
        from <= ws.len(),
    ensures
        r@ == spaced(arg_views(ws@).skip(from as int)),
{
    let mut cs: Vec<Vec<char>> = Vec::new();
    let mut i: usize = 0;
    while i < ws.len()
        invariant
            i <= ws.len(),
            cs@.len() == i,
            forall|j: int| 0 <= j < i ==> #[trigger] cs@[j]@ == ws@[j]@,
        decreases ws.len() - i,
    {
        cs.push(chars_of(ws[i].as_str()));
        i = i + 1;
    }
    assert(crate::text::views(cs@) =~= arg_views(ws@));
    let sp = chars_of(" ");
    let j = crate::text::join_from(&cs, from, sp.as_slice());
    crate::text::string_of(j.as_slice())
}

fn chat_from(args: &Vec<String>, mode: OutputMode) -> (r: Result<ParsedArgs, String>)
    ensures
        parsed_is(r, mode, chat_args(arg_views(args@), 0, None, None, Seq::empty())),
{
    let ghost a = arg_views(args@);
    let mut policy: Option<RoutingPolicy> = None;
    let mut provider: Option<String> = None;
    let mut words: Vec<String> = Vec::new();
    let mut i: usize = 0;
    assert(arg_views(words@) =~= Seq::<Seq<char>>::empty());
    while i < args.len()
        invariant
            i <= args.len(),
            a == arg_views(args@),
            a.len() == args.len(),
            chat_args(a, 0, None, None, Seq::empty()) == chat_args(
                a,
                i as int,
                policy,
                opt_text(provider),
                arg_views(words@),
            ),
        decreases args.len() - i,
    {
        let v = args[i].as_str();
        assert(a[i as int] == v@);
        if str_eq(v, "--policy") {
            if i + 1 >= args.len() {
                return Err(owned("--policy requires a value"));
            }
            assert(a[i + 1] == args@[i + 1]@);
            match parse_policy(args[i + 1].as_str()) {
                Ok(p) => {
                    policy = Some(p);
                },
                Err(e) => {
                    return Err(e);
                },
            }
            i = i + 2;
        } else if str_eq(v, "--provider") {
            if i + 1 >= args.len() {
                return Err(owned("--provider requires a value"));
            }
            assert(a[i + 1] == args@[i + 1]@);
            provider = Some(args[i + 1].clone());
            i = i + 2;
        } else if str_eq(v, "--consent-token") {
            return Err(owned("consent tokens are structured; use ask-remote or the JSONL API"));
        } else {
            let vc = chars_of(v);
            if vc.len() > 0 && vc[0] == '-' {
                return Err(concat("unknown option: ", v));
            }
            let ghost before = words@;
            words.push(args[i].clone());
            assert(arg_views(words@) =~= arg_views(before).push(v@));
            i = i + 1;
        }
    }
    if words.len() == 0 {
        return Err(owned("a question is required"));
    }
    let question = join_spaced(&words, 0);
    assert(arg_views(words@).skip(0) =~= arg_views(words@));
    Ok(
        ParsedArgs::Options(
            ClientOptions { output: mode, command: ClientCommand::Chat { question, policy, provider } },
        ),
    )
}

/// Reads the client's arguments (without the program name).
pub fn parse_args(args: &Vec<String>) -> (r: Result<ParsedArgs, String>)
    ensures
        parsed_is(r, output_of(arg_views(args@)).0, command_of(output_of(arg_views(args@)).1)),
{
    let ghost all = arg_views(args@);
    let mut rest: Vec<String> = Vec::new();
    let mut mode = OutputMode::Human;
    let mut i: usize = 0;
    assert(all.skip(0) =~= all);
    while i < args.len() && !str_eq(args[i].as_str(), "--json")
        invariant
            i <= args.len(),
            all == arg_views(args@),
            forall|j: int| 0 <= j < i ==> all[j] != "--json"@,
            json_flag_at(all) == i + json_flag_at(all.skip(i as int)),
        decreases args.len() - i,
    {
        assert(all.skip(i as int).drop_first() =~= all.skip(i + 1));
        assert(all.skip(i as int)[0] == all[i as int]);
        i = i + 1;
    }
    proof {
        if i < args.len() {
            assert(all.skip(i as int)[0] == all[i as int]);
        } else {
            assert(all.skip(i as int).len() == 0);
        }
    }
    let mut k: usize = 0;
    while k < args.len()
        invariant
            k <= args.len(),
            i <= args.len(),
            all == arg_views(args@),
            arg_views(rest@) == (if k <= i {
                all.take(k as int)
            } else {
                all.take(i as int) + all.subrange(i + 1, k as int)
            }),
        decreases args.len() - k,
    {
        let ghost before = rest@;
        if k != i {
            rest.push(args[k].clone());
            proof {
                assert(arg_views(rest@) =~= arg_views(before).push(all[k as int]));
                if k < i {
                    assert(all.take(k + 1) =~= all.take(k as int).push(all[k as int]));
                } else {
                    assert(all.take(i as int) + all.subrange(i + 1, k + 1) =~= (all.take(i as int)
                        + all.subrange(i + 1, k as int)).push(all[k as int]));
                }
            }
        } else {
            proof {
                assert(all.take(i as int) + all.subrange(i + 1, k + 1) =~= all.take(i as int));
            }
        }
        k = k + 1;
    }
    if i < args.len() {
        mode = OutputMode::Json;
        assert(arg_views(rest@) =~= all.take(i as int) + all.skip(i + 1));
    } else {
        assert(arg_views(rest@) =~= all);
    }
    let ghost ra = arg_views(rest@);
    let n = rest.len();
    if n == 0 {
        return Ok(ParsedArgs::ReadQuestion(mode));
    }
    let c = rest[0].as_str();
    assert(ra[0] == c@);
    if n >= 2 {
        assert(ra[1] == rest@[1]@);
    }
    if n >= 3 {
        assert(ra[2] == rest@[2]@);
    }
    if n >= 4 {
        assert(ra[3] == rest@[3]@);
    }
    if str_eq(c, "-h") || str_eq(c, "--help") || str_eq(c, "help") {
        return Ok(ParsedArgs::Options(ClientOptions { output: mode, command: ClientCommand::Help }));
    }
    if str_eq(c, "status") && n == 1 {
        return Ok(ParsedArgs::Options(ClientOptions { output: mode, command: ClientCommand::Status }));
    }
    let settings = str_eq(c, "settings");
    if settings && n == 1 {
        return Ok(
            ParsedArgs::Options(ClientOptions { output: mode, command: ClientCommand::SettingsGet }),
        );
    }
    if settings && n == 3 && str_eq(rest[1].as_str(), "policy") {
        return match parse_policy(rest[2].as_str()) {
            Ok(p) => Ok(
                ParsedArgs::Options(
                    ClientOptions { output: mode, command: ClientCommand::SettingsPolicy(p) },
                ),
            ),
            Err(e) => Err(e),
        };
    }
    if settings && n == 3 && str_eq(rest[1].as_str(), "provider") {
        let p = if str_eq(rest[2].as_str(), "none") {
            None
        } else {
            Some(rest[2].clone())
        };
        return Ok(
            ParsedArgs::Options(
                ClientOptions { output: mode, command: ClientCommand::SettingsProvider(p) },
            ),
        );
    }
    if settings && n == 4 && str_eq(rest[1].as_str(), "privacy") {
        let cat = match parse_category(rest[2].as_str()) {
            Ok(c) => c,
            Err(e) => {
                return Err(e);
            },
        };
        let remote = if str_eq(rest[3].as_str(), "remote") {
            true
        } else if str_eq(rest[3].as_str(), "local") {
            false
        } else {
            return Err(owned("privacy scope must be local or remote"));
        };
        return Ok(
            ParsedArgs::Options(
                ClientOptions { output: mode, command: ClientCommand::SettingsPrivacy(cat, remote) },
            ),
        );
    }
    if str_eq(c, "ask-remote") && n >= 3 {
        let question = join_spaced(&rest, 2);
        return Ok(
            ParsedArgs::Options(
                ClientOptions {
                    output: mode,
                    command: ClientCommand::AskRemote { provider: rest[1].clone(), question },
                },
            ),
        );
    }
    chat_from(&rest, mode)
}

/// The command for a question read from standard input: help when it is
/// blank.
pub fn question_from_stdin(output: OutputMode, text: String) -> (r: ClientOptions)
    ensures
        r.output == output,
        crate::text::trim(text@).len() == 0 ==> r.command == ClientCommand::Help,
        crate::text::trim(text@).len() != 0 ==> r.command == (ClientCommand::Chat {
            question: text,
            policy: None,
            provider: None,
        }),
{
    let c = chars_of(text.as_str());
    let (a, b) = crate::text::trim_bounds(c.as_slice(), 0, c.len());
    assert(c@.subrange(0, c@.len() as int) =~= c@);
    if a == b {
        ClientOptions { output, command: ClientCommand::Help }
    } else {
        ClientOptions { output, command: ClientCommand::Chat { question: text, policy: None, provider: None } }
    }
}

// ---------------------------------------------------------------------------
// Following one exchange.
// ---------------------------------------------------------------------------

/// What the client does with a frame of its exchange: the error message of
/// a failed stream is kept, and the result for its own request ends the
/// exchange.
pub struct ExchangeState {
    pub request_id: String,
    pub stream_id: String,
    pub failed: Option<String>,
}

#[derive(Debug, Clone, PartialEq, Eq)]
pub enum ExchangeStep {
    Continue,
    /// The exchange is over; it failed with this message, or succeeded.
    Done(Option<String>),
}

pub open spec fn frame_ends(f: JsonlFrame, request_id: Seq<char>, stream_id: Seq<char>) -> bool {
    f matches JsonlFrame::Result { stream_id: s, result, .. } && s@ == stream_id && result.request_id@
        == request_id
}

impl ExchangeState {
    pub fn new(request_id: String, stream_id: String) -> (r: Self)
        ensures
            r.request_id == request_id,
            r.stream_id == stream_id,
            r.failed is None,
    {
        ExchangeState { request_id, stream_id, failed: None }
    }

    /// The exchange a frame starts: only a request frame starts one, which
    /// follows the frame's stream and request.
    pub fn for_request(frame: &JsonlFrame) -> (r: Result<Self, String>)
        ensures
            match *frame {
                JsonlFrame::Request { stream_id, request, .. } => r matches Ok(st) && st.request_id@
                    == request.request_id@ && st.stream_id@ == stream_id@ && st.failed is None,
                _ => r matches Err(m) && m@ == "client can only initiate request frames"@,
            },
    {
        match frame {
            JsonlFrame::Request { stream_id, request, .. } => Ok(
                ExchangeState::new(
                    owned(request.request_id.as_str()),
                    owned(stream_id.as_str()),
                ),
            ),
            _ => Err(owned("client can only initiate request frames")),
        }
    }

    pub fn on_frame(&mut self, frame: &JsonlFrame) -> (r: ExchangeStep)
        ensures
            final(self).request_id == old(self).request_id,
            final(self).stream_id == old(self).stream_id,
            opt_text(final(self).failed) == (match *frame {
                JsonlFrame::Error { stream_id, error, .. } => if stream_id@ == old(self).stream_id@ {
                    Some(error.message@)
                } else {
                    opt_text(old(self).failed)
                },
                _ => opt_text(old(self).failed),
            }),
            frame_ends(*frame, old(self).request_id@, old(self).stream_id@) ==> (r matches ExchangeStep::Done(m)
                && opt_text(m) == opt_text(final(self).failed)),
            !frame_ends(*frame, old(self).request_id@, old(self).stream_id@) ==> r
                == ExchangeStep::Continue,
    {
        match frame {
            JsonlFrame::Error { stream_id, error, .. } => {
                if str_eq(stream_id.as_str(), self.stream_id.as_str()) {
                    self.failed = Some(error.message.clone());
                }
            },
            _ => {},
        }
        match frame {
            JsonlFrame::Result { stream_id, result, .. } => {
                if str_eq(stream_id.as_str(), self.stream_id.as_str()) && str_eq(
                    result.request_id.as_str(),
                    self.request_id.as_str(),
                ) {
                    return ExchangeStep::Done(self.failed.clone());
                }
            },
            _ => {},
        }
        ExchangeStep::Continue
    }
}

/// What a frame shows to a person.
#[derive(Debug, Clone, PartialEq, Eq)]
pub enum Shown {
    Nothing,
    /// Text for standard output, without a line end.
    Out(String),
    /// A line for standard error.
    Note(String),
    /// A control response to render, as its JSON text.
    Control(String),
}

pub open spec fn phase_name(p: ToolPhase) -> Seq<char> {
    match p {
        ToolPhase::Queued => "Queued"@,
        ToolPhase::Validating => "Validating"@,
        ToolPhase::Running => "Running"@,
        ToolPhase::Verifying => "Verifying"@,
        ToolPhase::Completed => "Completed"@,
        ToolPhase::Failed => "Failed"@,
    }
}

fn phase_text(p: ToolPhase) -> (r: &'static str)
    ensures
        r@ == phase_name(p),
{
    match p {
        ToolPhase::Queued => "Queued",
        ToolPhase::Validating => "Validating",
        ToolPhase::Running => "Running",
        ToolPhase::Verifying => "Verifying",
        ToolPhase::Completed => "Completed",
        ToolPhase::Failed => "Failed",
    }
}

/// What a person sees of a frame: streamed text, provider messages, tool
/// progress, control responses, errors and cancellation answers.
pub open spec fn shown_of(f: JsonlFrame) -> Option<(u8, Seq<char>)> {
    match f {
        JsonlFrame::Event { event, .. } => match event.payload {
            EventPayload::OutputDelta { delta, .. } => Some((0u8, delta@)),
            EventPayload::ProviderStatus { provider_status } => match provider_status.message {
                Some(m) => Some((1u8, m@)),
                None => None,
            },
            EventPayload::ToolProgress { tool, phase, detail } => Some(
                (
                    1u8,
                    "[tool "@ + crate::protocol::tools::tool_name_text(tool) + ": "@ + phase_name(phase)
                        + match detail {
                        Some(d) => ": "@ + d@,
                        None => Seq::empty(),
                    } + "]"@,
                ),
            ),
            _ => None,
        },
        JsonlFrame::Result { result, .. } => match result.payload {
            Some(p) => if p.mime_type@ != "text/plain"@ {
                Some((2u8, p.content@))
            } else {
                None
            },
            None => None,
        },
        JsonlFrame::Error { error, .. } => Some((1u8, "error: "@ + error.message@)),
        JsonlFrame::CancelAck { cancel_ack, .. } => Some(
            (
                1u8,
                if cancel_ack.accepted {
                    "cancellation accepted"@
                } else {
                    "cancellation not accepted"@
                },
            ),
        ),
        _ => None,
    }
}

pub open spec fn shown_is(s: Shown, v: Option<(u8, Seq<char>)>) -> bool {
    match v {
        None => s == Shown::Nothing,
        Some((0u8, t)) => s matches Shown::Out(x) && x@ == t,
        Some((1u8, t)) => s matches Shown::Note(x) && x@ == t,
        Some((_, t)) => s matches Shown::Control(x) && x@ == t,
    }
}

/// What a person sees of a frame (in the human output mode).
pub fn render_frame(frame: &JsonlFrame) -> (r: Shown)
    ensures
        shown_is(r, shown_of(*frame)),
{
    match frame {
        JsonlFrame::Event { event, .. } => match &event.payload {
            EventPayload::OutputDelta { delta, .. } => Shown::Out(owned(delta.as_str())),
            EventPayload::ProviderStatus { provider_status } => match &provider_status.message {
                Some(m) => Shown::Note(m.clone()),
                None => Shown::Nothing,
            },
            EventPayload::ToolProgress { tool, phase, detail } => {
                let a = concat("[tool ", tool.as_str());
                let b = concat(a.as_str(), ": ");
                let c = concat(b.as_str(), phase_text(*phase));
                let d = match detail {
                    Some(x) => {
                        let y = concat(c.as_str(), ": ");
                        let z = concat(y.as_str(), x.as_str());
                        assert(z@ =~= c@ + (": "@ + x@));
                        z
                    },
                    None => {
                        assert(c@ + Seq::<char>::empty() =~= c@);
                        c
                    },
                };
                Shown::Note(concat(d.as_str(), "]"))
            },
            _ => Shown::Nothing,
        },
        JsonlFrame::Result { result, .. } => match &result.payload {
            Some(p) => {
                if !str_eq(p.mime_type.as_str(), "text/plain") {
                    Shown::Control(owned(p.content.as_str()))
                } else {
                    Shown::Nothing
                }
            },
            None => Shown::Nothing,
        },
        JsonlFrame::Error { error, .. } => Shown::Note(concat("error: ", error.message.as_str())),
        JsonlFrame::CancelAck { cancel_ack, .. } => {
            if cancel_ack.accepted {
                Shown::Note(owned("cancellation accepted"))
            } else {
                Shown::Note(owned("cancellation not accepted"))
            }
        },
        _ => Shown::Nothing,
    }
}

/// The control payload of the last result frame that carries one (not
/// plain text), searching from the end.
pub open spec fn last_control(fs: Seq<JsonlFrame>) -> Option<Seq<char>>
    decreases fs.len(),
{
    if fs.len() == 0 {
        None
    } else {
        match fs.last() {
            JsonlFrame::Result { result, .. } => match result.payload {
                Some(p) => if p.mime_type@ != "text/plain"@ {
                    Some(p.content@)
                } else {
                    last_control(fs.drop_last())
                },
                None => last_control(fs.drop_last()),
            },
            _ => last_control(fs.drop_last()),
        }
    }
}

pub fn control_payload(frames: &Vec<JsonlFrame>) -> (r: Option<String>)
    ensures
        opt_text(r) == last_control(frames@),
{
    let mut i = frames.len();
    assert(frames@.take(i as int) =~= frames@);
    while i > 0
        invariant
            i <= frames.len(),
            last_control(frames@) == last_control(frames@.take(i as int)),
        decreases i,
    {
        let f = &frames[i - 1];
        assert(frames@.take(i as int).last() == frames@[i - 1]);
        assert(frames@.take(i as int).drop_last() =~= frames@.take(i - 1));
        match f {
            JsonlFrame::Result { result, .. } => match &result.payload {
                Some(p) => {
                    if !str_eq(p.mime_type.as_str(), "text/plain") {
                        return Some(owned(p.content.as_str()));
                    }
                },
                None => {},
            },
            _ => {},
        }
        i = i - 1;
    }
    None
}

// ---------------------------------------------------------------------------
// Making a request.
// ---------------------------------------------------------------------------

/// The identifiers of a new request, its stream, its session and its frame,
/// as the caller made them.
pub struct RequestIds {
    pub request_id: String,
    pub stream_id: String,
    pub session_id: String,
    pub frame_id: String,
}

#[derive(Debug)]
pub enum RequestBuildError {
    /// A text exceeds the bound of its field.
    TooLong(BoundedStringError),
    /// The request breaks the router contract.
    Invalid(ContractError),
}

/// The bound and the length of `s` when its UTF-8 encoding exceeds `max` bytes.
pub open spec fn overflow(s: Seq<char>, max: usize) -> Option<(usize, usize)> {
    if byte_len(s) > max {
        Some((max, byte_len(s)))
    } else {
        None
    }
}

pub open spec fn first_overflow(
    a: Option<(usize, usize)>,
    b: Option<(usize, usize)>,
) -> Option<(usize, usize)> {
    if a is Some {
        a
    } else {
        b
    }
}

/// The first text of a new request that exceeds its field's bound, in the
/// order the request is put together: request, stream and session ids,
/// provider, MIME type, content.
pub open spec fn request_overflow(
    ids: RequestIds,
    provider: Option<String>,
    mime_type: Seq<char>,
    content: Seq<char>,
) -> Option<(usize, usize)> {
    first_overflow(
        overflow(ids.request_id@, 64),
        first_overflow(
            overflow(ids.stream_id@, 64),
            first_overflow(
                overflow(ids.session_id@, 64),
                first_overflow(
                    match provider {
                        Some(p) => overflow(p@, 48),
                        None => None,
                    },
                    first_overflow(overflow(mime_type, 64), overflow(content, 262_144)),
                ),
            ),
        ),
    )
}

/// What the router contract says of a request whose texts fit: only its
/// policy and consent token can break it.
pub open spec fn consent_verdict(policy: RoutingPolicy, consent: Option<ConsentToken>) -> Verdict {
    if policy == RoutingPolicy::AskBeforeRemote && consent is None {
        Some(
            (
                ContractErrorCode::PolicyDenied,
                "ASK_BEFORE_REMOTE requires a consent token issued by trusted UI"@,
            ),
        )
    } else if consent matches Some(t) && t.expires_at_ms <= t.issued_at_ms {
        Some(
            (
                ContractErrorCode::ValidationFailed,
                "consent token expiry must be after issue timestamp"@,
            ),
        )
    } else {
        None
    }
}

pub open spec fn provider_view(p: Option<ProviderId>) -> Option<Seq<char>> {
    match p {
        Some(b) => Some(b@),
        None => None,
    }
}

/// `f` is the request frame the client sends: version v1, the given ids,
/// user input of internal sensitivity labelled `ai-cli`, and the content
/// with its length in bytes.
pub open spec fn request_frame_is(
    f: JsonlFrame,
    ids: RequestIds,
    capability: RouterCapability,
    policy: RoutingPolicy,
    provider: Option<String>,
    consent: Option<ConsentToken>,
    mime_type: Seq<char>,
    content: Seq<char>,
    now_ms: u64,
) -> bool {
    &&& f matches JsonlFrame::Request { version, frame_id, stream_id, request }
    &&& f->Request_version@ == PROTOCOL_VERSION_V1@
    &&& f->Request_frame_id@ == ids.frame_id@
    &&& f->Request_stream_id@ == ids.stream_id@
    &&& f->Request_request.version@ == PROTOCOL_VERSION_V1@
    &&& f->Request_request.request_id@ == ids.request_id@
    &&& f->Request_request.session_id@ == ids.session_id@
    &&& f->Request_request.created_at_ms == now_ms
    &&& f->Request_request.capability == capability
    &&& f->Request_request.policy == policy
    &&& provider_view(f->Request_request.provider_id) == opt_text(provider)
    &&& f->Request_request.provenance.source == ProvenanceSource::UserInput
    &&& f->Request_request.provenance.sensitivity == DataSensitivity::Internal
    &&& !f->Request_request.provenance.redaction_applied
    &&& f->Request_request.provenance.origin_label@ == "ai-cli"@
    &&& f->Request_request.provenance.trace_id is None
    &&& f->Request_request.payload.mime_type@ == mime_type
    &&& f->Request_request.payload.content@ == content
    &&& f->Request_request.payload.byte_count == byte_len(content)
    &&& !f->Request_request.payload.truncated
    &&& f->Request_request.consent_token == consent
}

proof fn lemma_ascii_fits(s: Seq<char>, max: usize)
    requires
        is_ascii_chars(s),
        s.len() <= max,
    ensures
        byte_len(s) <= max,
{
    is_ascii_chars_encode_utf8(s);
}

fn bounded_text<const MAX: usize>(value: String) -> (r: Result<BoundedString<MAX>, RequestBuildError>)
    ensures
        match r {
            Ok(b) => b@ == value@ && overflow(value@, MAX) is None,
            Err(RequestBuildError::TooLong(e)) => overflow(value@, MAX) == Some((e.max, e.actual)),
            Err(_) => false,
        },
{
    match BoundedString::new(value) {
        Ok(b) => Ok(b),
        Err(e) => Err(RequestBuildError::TooLong(e)),
    }
}

/// A request frame for the router, checked against the router contract;
/// the frame id is taken last, after the check.
pub fn make_request(
    capability: RouterCapability,
    policy: RoutingPolicy,
    provider: Option<String>,
    consent_token: Option<ConsentToken>,
    mime_type: &str,
    content: String,
    ids: RequestIds,
    now_ms: u64,
) -> (r: Result<JsonlFrame, RequestBuildError>)
    ensures
        match r {
            Ok(f) => {
                &&& request_overflow(ids, provider, mime_type@, content@) is None
                &&& consent_verdict(policy, consent_token) is None
                &&& overflow(ids.frame_id@, 64) is None
                &&& request_frame_is(
                    f,
                    ids,
                    capability,
                    policy,
                    provider,
                    consent_token,
                    mime_type@,
                    content@,
                    now_ms,
                )
            },
            Err(RequestBuildError::TooLong(e)) => match request_overflow(
                ids,
                provider,
                mime_type@,
                content@,
            ) {
                Some(o) => o == (e.max, e.actual),
                None => consent_verdict(policy, consent_token) is None && overflow(
                    ids.frame_id@,
                    64,
                ) == Some((e.max, e.actual)),
            },
            Err(RequestBuildError::Invalid(e)) => {
                &&& request_overflow(ids, provider, mime_type@, content@) is None
                &&& consent_verdict(policy, consent_token) matches Some(v)
                &&& is_error(e, v.0, v.1)
            },
        },
{
    let ghost ids0 = ids;
    let ghost provider0 = provider;
    let ghost consent0 = consent_token;
    let RequestIds { request_id, stream_id, session_id, frame_id } = ids;
    let request_id: RequestId = bounded_text(request_id)?;
    let stream_id: StreamId = bounded_text(stream_id)?;
    proof {
        reveal_strlit("sentia.v1");
        lemma_ascii_fits(PROTOCOL_VERSION_V1@, 24);
        reveal_strlit("ai-cli");
        lemma_ascii_fits("ai-cli"@, 128);
    }
    let version: ProtocolVersion = bounded_text(PROTOCOL_VERSION_V1.to_owned())?;
    let session_id: SessionId = bounded_text(session_id)?;
    let provider_id: Option<ProviderId> = match provider {
        Some(p) => Some(bounded_text(p)?),
        None => None,
    };
    let origin_label: BoundedString<128> = bounded_text(owned("ai-cli"))?;
    let mime: BoundedString<64> = bounded_text(mime_type.to_owned())?;
    let byte_count = content.as_str().len();
    let content: BoundedString<262_144> = bounded_text(content)?;
    let request = RouterRequest {
        version,
        request_id,
        session_id,
        created_at_ms: now_ms,
        capability,
        policy,
        provider_id,
        provenance: DataProvenance {
            source: ProvenanceSource::UserInput,
            sensitivity: DataSensitivity::Internal,
            redaction_applied: false,
            origin_label,
            trace_id: None,
        },
        payload: RequestPayload {
            mime_type: mime,
            content,
            byte_count: byte_count as u32,
            truncated: false,
        },
        consent_token,
    };
    assert(router_request_verdict(request) == consent_verdict(policy, consent0));
    match request.validate() {
        Ok(()) => {},
        Err(e) => return Err(RequestBuildError::Invalid(e)),
    }
    let frame_id: FrameId = bounded_text(frame_id)?;
    Ok(JsonlFrame::Request { version: owned(PROTOCOL_VERSION_V1), frame_id, stream_id, request })
}

// ---------------------------------------------------------------------------
// Reaching the router.
// ---------------------------------------------------------------------------

/// The router socket must be a socket of the current user with mode 0600.
pub fn check_router_socket(is_socket: bool, uid: u32, euid: u32, mode: u32) -> (r: Result<(), String>)
    ensures
        r is Ok <==> (is_socket && uid == euid && mode % 512 == 0o600),
        r matches Err(m) ==> m@ == "router socket must be an owned socket with mode 0600"@,
{
    if !is_socket || uid != euid || mode % 512 != 0o600 {
        return Err(owned("router socket must be an owned socket with mode 0600"));
    }
    Ok(())
}

/// After a failed connection attempt: wait and try again while the router
/// may still be starting (nothing there yet, or refused) and time is left;
/// give up otherwise.
#[derive(Debug, Clone, Copy, PartialEq, Eq, Structural)]
pub enum ConnectDecision {
    Retry,
    /// The failure is real: report it as it is.
    Fail,
    /// The router did not come up in time.
    NotAvailable,
}

pub fn after_connect_failure(starting: bool, deadline_passed: bool) -> (r: ConnectDecision)
    ensures
        !starting ==> r == ConnectDecision::Fail,
        starting && deadline_passed ==> r == ConnectDecision::NotAvailable,
        starting && !deadline_passed ==> r == ConnectDecision::Retry,
{
    if !starting {
        ConnectDecision::Fail
    } else if deadline_passed {
        ConnectDecision::NotAvailable
    } else {
        ConnectDecision::Retry
    }
}

/// The peer of the router socket must be the current user.
pub fn check_router_peer(peer_uid: u32, euid: u32) -> (r: Result<(), String>)
    ensures
        r is Ok <==> peer_uid == euid,
        r matches Err(m) ==> m@ == "router peer UID does not match the current user"@,
{
    if peer_uid != euid {
        return Err(owned("router peer UID does not match the current user"));
    }
    Ok(())
}

/// How a contract error is reported: denials as permission errors,
/// timeouts as timeouts, anything else as invalid data.
#[derive(Debug, Clone, Copy, PartialEq, Eq, Structural)]
pub enum FailureKind {
    PermissionDenied,
    TimedOut,
    InvalidData,
}

pub fn failure_kind(code: ContractErrorCode) -> (r: FailureKind)
    ensures
        r == (if code == ContractErrorCode::PermissionDenied || code == ContractErrorCode::PolicyDenied {
            FailureKind::PermissionDenied
        } else if code == ContractErrorCode::Timeout {
            FailureKind::TimedOut
        } else {
            FailureKind::InvalidData
        }),
{
    match code {
        ContractErrorCode::PermissionDenied | ContractErrorCode::PolicyDenied => {
            FailureKind::PermissionDenied
        },
        ContractErrorCode::Timeout => FailureKind::TimedOut,
        _ => FailureKind::InvalidData,
    }
}

/// A consent question is answered yes only by the word `yes`.
pub fn consented(answer: &str) -> (r: bool)
    ensures
        r == (crate::text::trim(answer@) == "yes"@),
{
    let c = chars_of(answer);
    let (a, b) = crate::text::trim_bounds(c.as_slice(), 0, c.len());
    assert(c@.subrange(0, c@.len() as int) =~= c@);
    let t = crate::text::slice_of(c.as_slice(), a, b);
    chars_eq(t.as_slice(), chars_of("yes").as_slice())
}

} // verus!
