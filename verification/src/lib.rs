//! A campus assistant driven by a language model, as the plugin of a host: the loop of
//! the agent, the campus tools, the conversations and their history, what was used and
//! spent, and the framing of all of it as JSON. What the library does with the world
//! goes through the host, or is handed in and out as plain values.

pub mod agent;
pub mod config;
pub mod conn;
pub mod date;
pub mod host;
pub mod json;
pub mod llm;
pub mod madmodel;
pub mod mcp;
pub mod session;
pub mod text;
pub mod tools;
pub mod usage;

pub use host::{Emit, Host};

use json::{Arr, Json, Rec};
use vstd::prelude::*;

verus! {

/// A command of the panel: its name and its title.
pub open spec fn command(id: Seq<char>, title: Seq<char>) -> Seq<(Seq<char>, json::Tree)> {
    json::no_fields().push(("id"@, json::Tree::Str(id))).push(
        ("title"@, json::Tree::Str(title)),
    )
}

/// A command that takes an input.
pub open spec fn labelled(id: Seq<char>, title: Seq<char>, label: Seq<char>) -> Seq<
    (Seq<char>, json::Tree),
> {
    command(id, title).push(("inputLabel"@, json::Tree::Str(label)))
}

/// The commands that the panel offers.
pub open spec fn commands() -> json::Tree {
    json::Tree::Obj(
        json::no_fields().push(
            (
                "commands"@,
                json::Tree::Arr(
                    json::no_items().push(
                        json::Tree::Obj(
                            labelled("chat"@, "对话"@, "对 Harness 说"@).push(
                                (
                                    "inputPlaceholder"@,
                                    json::Tree::Str("例：明天图书馆哪有空座？"@),
                                ),
                            ).push(("dock"@, json::Tree::Bool(true))),
                        ),
                    ).push(json::Tree::Obj(command("new_session"@, "新建会话"@))).push(
                        json::Tree::Obj(command("list_sessions"@, "会话列表"@)),
                    ).push(
                        json::Tree::Obj(labelled("switch_session"@, "切换会话"@, "会话 id"@)),
                    ).push(
                        json::Tree::Obj(labelled("delete_session"@, "删除会话"@, "会话 id"@)),
                    ).push(
                        json::Tree::Obj(
                            labelled(
                                "export_session"@,
                                "导出会话 JSON"@,
                                "会话 id（留空=当前）"@,
                            ),
                        ),
                    ).push(
                        json::Tree::Obj(
                            labelled("import_session"@, "导入会话 JSON"@, "粘贴会话 JSON"@),
                        ),
                    ).push(json::Tree::Obj(command("usage_report"@, "用量统计"@))).push(
                        json::Tree::Obj(command("selftest"@, "自检"@)),
                    ),
                ),
            ),
        ),
    )
}

fn command_of(id: &str, title: &str) -> (r: Rec)
    ensures
        r@ == command(id@, title@),
{
    Rec::new().text("id", id).text("title", title)
}

fn labelled_of(id: &str, title: &str, label: &str) -> (r: Rec)
    ensures
        r@ == labelled(id@, title@, label@),
{
    command_of(id, title).text("inputLabel", label)
}

/// The commands that the panel offers, as the answer to the host's greeting.
pub fn activate_commands() -> (r: Json)
    ensures
        r@ == commands(),
{
    let chat = labelled_of("chat", "对话", "对 Harness 说").text(
        "inputPlaceholder",
        "例：明天图书馆哪有空座？",
    ).flag("dock", true).done();
    let list = Arr::new().with(chat).with(command_of("new_session", "新建会话").done()).with(
        command_of("list_sessions", "会话列表").done(),
    ).with(labelled_of("switch_session", "切换会话", "会话 id").done()).with(
        labelled_of("delete_session", "删除会话", "会话 id").done(),
    ).with(
        labelled_of("export_session", "导出会话 JSON", "会话 id（留空=当前）").done(),
    ).with(labelled_of("import_session", "导入会话 JSON", "粘贴会话 JSON").done()).with(
        command_of("usage_report", "用量统计").done(),
    ).with(command_of("selftest", "自检").done());
    Rec::new().with("commands", list.done()).done()
}

/// A command, with its input.
#[derive(Debug)]
pub enum Command {
    Chat(String),
    NewSession,
    ListSessions,
    SwitchSession(String),
    DeleteSession(String),
    ExportSession(String),
    ImportSession(String),
    UsageReport,
    Selftest,
}

pub enum CommandV {
    Chat(Seq<char>),
    NewSession,
    ListSessions,
    SwitchSession(Seq<char>),
    DeleteSession(Seq<char>),
    ExportSession(Seq<char>),
    ImportSession(Seq<char>),
    UsageReport,
    Selftest,
}

impl View for Command {
    type V = CommandV;

    open spec fn view(&self) -> CommandV {
        match self {
            Command::Chat(s) => CommandV::Chat(s@),
            Command::NewSession => CommandV::NewSession,
            Command::ListSessions => CommandV::ListSessions,
            Command::SwitchSession(s) => CommandV::SwitchSession(s@),
            Command::DeleteSession(s) => CommandV::DeleteSession(s@),
            Command::ExportSession(s) => CommandV::ExportSession(s@),
            Command::ImportSession(s) => CommandV::ImportSession(s@),
            Command::UsageReport => CommandV::UsageReport,
            Command::Selftest => CommandV::Selftest,
        }
    }
}

/// The command of that name, or what is answered where there is none. The names of
/// conversations come without the white space round them.
pub open spec fn dispatched(command: Seq<char>, input: Seq<char>) -> Result<CommandV, json::Tree> {
    if command == "chat"@ {
        Ok(CommandV::Chat(input))
    } else if command == "new_session"@ {
        Ok(CommandV::NewSession)
    } else if command == "list_sessions"@ {
        Ok(CommandV::ListSessions)
    } else if command == "switch_session"@ {
        Ok(CommandV::SwitchSession(text::trimmed(input)))
    } else if command == "delete_session"@ {
        Ok(CommandV::DeleteSession(text::trimmed(input)))
    } else if command == "export_session"@ {
        Ok(CommandV::ExportSession(text::trimmed(input)))
    } else if command == "import_session"@ {
        Ok(CommandV::ImportSession(input))
    } else if command == "usage_report"@ {
        Ok(CommandV::UsageReport)
    } else if command == "selftest"@ {
        Ok(CommandV::Selftest)
    } else if command.len() == 0 {
        Err(agent::failure("chat"@, "缺少命令名"@))
    } else {
        Err(agent::failure("chat"@, "未知命令："@ + command))
    }
}

pub open spec fn dispatch_of(r: Result<Command, Json>) -> Result<CommandV, json::Tree> {
    match r {
        Ok(c) => Ok(c@),
        Err(v) => Err(v@),
    }
}

/// The command of that name, or what is answered where there is none.
pub fn dispatch(command: &str, input: &str) -> (r: Result<Command, Json>)
    ensures
        dispatch_of(r) == dispatched(command@, input@),
{
    if text::same(command, "chat") {
        Ok(Command::Chat(input.to_owned()))
    } else if text::same(command, "new_session") {
        Ok(Command::NewSession)
    } else if text::same(command, "list_sessions") {
        Ok(Command::ListSessions)
    } else if text::same(command, "switch_session") {
        Ok(Command::SwitchSession(text::trim(input)))
    } else if text::same(command, "delete_session") {
        Ok(Command::DeleteSession(text::trim(input)))
    } else if text::same(command, "export_session") {
        Ok(Command::ExportSession(text::trim(input)))
    } else if text::same(command, "import_session") {
        Ok(Command::ImportSession(input.to_owned()))
    } else if text::same(command, "usage_report") {
        Ok(Command::UsageReport)
    } else if text::same(command, "selftest") {
        Ok(Command::Selftest)
    } else if command.is_empty() {
        Err(agent::failed("chat", "缺少命令名"))
    } else {
        Err(agent::failed("chat", text::cat("未知命令：", command).as_str()))
    }
}

/// What a request of the host asks of the plugin.
#[derive(Debug)]
#[allow(inconsistent_fields)]
pub enum Demand {
    /// The greeting, which is answered with the commands.
    Activate,
    /// To run a command.
    Run { command: String, input: String },
    /// To run the conversation while one is under way: refused with this answer.
    Busy(Json),
    /// To end.
    Dispose,
    /// Nothing.
    Nothing,
    /// Something that the plugin does not know: refused with this message.
    Unknown(String),
}

#[allow(inconsistent_fields)]
pub enum DemandV {
    Activate,
    Run { command: Seq<char>, input: Seq<char> },
    Busy(json::Tree),
    Dispose,
    Nothing,
    Unknown(Seq<char>),
}

impl View for Demand {
    type V = DemandV;

    open spec fn view(&self) -> DemandV {
        match self {
            Demand::Activate => DemandV::Activate,
            Demand::Run { command, input } => DemandV::Run { command: command@, input: input@ },
            Demand::Busy(v) => DemandV::Busy(v@),
            Demand::Dispose => DemandV::Dispose,
            Demand::Nothing => DemandV::Nothing,
            Demand::Unknown(m) => DemandV::Unknown(m@),
        }
    }
}

/// What a request asks. At most one run of the conversation is under way: another one
/// is refused, not queued, while every other command runs at any time.
pub open spec fn demanded(method: Seq<char>, params: json::Tree, in_flight: bool) -> DemandV {
    if method == "activate"@ {
        DemandV::Activate
    } else if method == "run"@ {
        let command = json::text_at(params, "command"@);
        if command == "chat"@ && in_flight {
            DemandV::Busy(
                agent::failure("chat"@, "已有对话在运行：请等它完成，或点打断后再发。"@),
            )
        } else {
            DemandV::Run { command, input: json::text_at(params, "input"@) }
        }
    } else if method == "dispose"@ {
        DemandV::Dispose
    } else if method == "interrupt"@ {
        DemandV::Nothing
    } else {
        DemandV::Unknown("未知方法："@ + method)
    }
}

/// What a request asks; `in_flight` says whether a conversation is under way.
pub fn demand(method: &str, params: &Json, in_flight: bool) -> (r: Demand)
    ensures
        r@ == demanded(method@, params@, in_flight),
{
    if text::same(method, "activate") {
        Demand::Activate
    } else if text::same(method, "run") {
        let command = params.text("command");
        if text::same(command.as_str(), "chat") && in_flight {
            Demand::Busy(
                agent::failed("chat", "已有对话在运行：请等它完成，或点打断后再发。"),
            )
        } else {
            Demand::Run { command, input: params.text("input") }
        }
    } else if text::same(method, "dispose") {
        Demand::Dispose
    } else if text::same(method, "interrupt") {
        Demand::Nothing
    } else {
        Demand::Unknown(text::cat("未知方法：", method))
    }
}

/// Every command that the panel offers is one that can be run.
pub proof fn law_offered_commands_are_known(i: int, input: Seq<char>)
    requires
        0 <= i < json::elements_of(json::field(commands(), "commands"@)).len(),
    ensures
        ({
            let offered = json::elements_of(json::field(commands(), "commands"@));
            json::str_of(json::field(offered[i], "id"@)) matches Some(id) && dispatched(
                id,
                input,
            ) is Ok
        }),
{
    reveal_with_fuel(json::field_from, 3);
    assert(json::elements_of(json::field(commands(), "commands"@)).len() == 9);
}

/// Each command does what it is named for, with its input; the names of conversations
/// come without the white space round them.
pub proof fn law_commands_do_what_they_are_named_for(input: Seq<char>)
    ensures
        dispatched("chat"@, input) == Ok::<CommandV, json::Tree>(CommandV::Chat(input)),
        dispatched("new_session"@, input) == Ok::<CommandV, json::Tree>(CommandV::NewSession),
        dispatched("list_sessions"@, input) == Ok::<CommandV, json::Tree>(CommandV::ListSessions),
        dispatched("switch_session"@, input) == Ok::<CommandV, json::Tree>(
            CommandV::SwitchSession(text::trimmed(input)),
        ),
        dispatched("delete_session"@, input) == Ok::<CommandV, json::Tree>(
            CommandV::DeleteSession(text::trimmed(input)),
        ),
        dispatched("export_session"@, input) == Ok::<CommandV, json::Tree>(
            CommandV::ExportSession(text::trimmed(input)),
        ),
        dispatched("import_session"@, input) == Ok::<CommandV, json::Tree>(
            CommandV::ImportSession(input),
        ),
        dispatched("usage_report"@, input) == Ok::<CommandV, json::Tree>(CommandV::UsageReport),
        dispatched("selftest"@, input) == Ok::<CommandV, json::Tree>(CommandV::Selftest),
{
    json::names::lemma_apart();
}

/// A name that is no command's is refused, and the user is told.
pub proof fn law_other_commands_are_refused(command: Seq<char>, input: Seq<char>)
    requires
        command != "chat"@,
        command != "new_session"@,
        command != "list_sessions"@,
        command != "switch_session"@,
        command != "delete_session"@,
        command != "export_session"@,
        command != "import_session"@,
        command != "usage_report"@,
        command != "selftest"@,
    ensures
        dispatched(command, input) matches Err(v) && json::field(v, "ok"@) == Some(
            json::Tree::Bool(false),
        ) && json::field(v, "error"@) == Some(
            json::Tree::Str(
                if command.len() == 0 {
                    "缺少命令名"@
                } else {
                    "未知命令："@ + command
                },
            ),
        ),
{
    json::names::lemma_apart();
    reveal_with_fuel(json::field_from, 4);
}

/// The panel offers the nine commands, in this order, each with a title.
pub proof fn law_the_panel_offers_every_command()
    ensures
        json::field(commands(), "commands"@) matches Some(json::Tree::Arr(offered)) && {
            &&& offered.len() == 9
            &&& json::field(offered[0], "id"@) == Some(json::Tree::Str("chat"@))
            &&& json::field(offered[1], "id"@) == Some(json::Tree::Str("new_session"@))
            &&& json::field(offered[2], "id"@) == Some(json::Tree::Str("list_sessions"@))
            &&& json::field(offered[3], "id"@) == Some(json::Tree::Str("switch_session"@))
            &&& json::field(offered[4], "id"@) == Some(json::Tree::Str("delete_session"@))
            &&& json::field(offered[5], "id"@) == Some(json::Tree::Str("export_session"@))
            &&& json::field(offered[6], "id"@) == Some(json::Tree::Str("import_session"@))
            &&& json::field(offered[7], "id"@) == Some(json::Tree::Str("usage_report"@))
            &&& json::field(offered[8], "id"@) == Some(json::Tree::Str("selftest"@))
            &&& json::field(offered[0], "dock"@) == Some(json::Tree::Bool(true))
            &&& forall|i: int|
                0 <= i < 9 ==> json::field(#[trigger] offered[i], "title"@) matches Some(
                    json::Tree::Str(_),
                )
        },
{
    json::names::lemma_apart();
    reveal_with_fuel(json::field_from, 6);
}

/// What the host asks: to begin, to run a command with an input, or to end. While a
/// conversation is under way another one is refused, and nothing else is.
pub proof fn law_one_conversation_at_a_time(
    method: Seq<char>,
    params: json::Tree,
    command: Seq<char>,
    input: Seq<char>,
    in_flight: bool,
)
    requires
        json::field(params, "command"@) == Some(json::Tree::Str(command)),
        json::field(params, "input"@) == Some(json::Tree::Str(input)) || (input.len() == 0
            && json::field(params, "input"@) is None),
    ensures
        demanded("activate"@, params, in_flight) is Activate,
        demanded("dispose"@, params, in_flight) is Dispose,
        demanded("interrupt"@, params, in_flight) is Nothing,
        !in_flight || command != "chat"@ ==> demanded("run"@, params, in_flight) == (DemandV::Run {
            command,
            input,
        }),
        in_flight && command == "chat"@ ==> (demanded("run"@, params, in_flight) matches DemandV::Busy(
            v,
        ) && json::field(v, "ok"@) == Some(json::Tree::Bool(false)) && json::field(v, "error"@)
            == Some(json::Tree::Str("已有对话在运行：请等它完成，或点打断后再发。"@))),
        method != "activate"@ && method != "run"@ && method != "dispose"@ && method != "interrupt"@
            ==> demanded(method, params, in_flight) == DemandV::Unknown("未知方法："@ + method),
{
    json::names::lemma_apart();
    reveal_with_fuel(json::field_from, 4);
    assert(json::text_at(params, "input"@) =~= input);
}

} // verus!
