//! The agent's decisions around each model call: the conversation it sends,
//! the tool calls it reads from a reply, what it records of each tool run,
//! the interactive commands, and the auto-commit it makes after a turn.
use vstd::prelude::*;
use crate::llm::{
    byte_count, estimate_tokens, newest_fitting, token_seq, trim_fits, ConversationContext, Message,
    Usage,
};
use crate::text::{
    count_where, lemma_count_where_mono, decimal, decimal_chars, join, join_exec, lemma_lines_scan_skip, lemma_trim_leading_ws,
    lemma_trimmed_ends_non_ws, lines, lines_exec, lines_scan, matches_at, push_all, push_str,
    starts_with, starts_with_str, str_eq, string_from, strip_cr, strip_prefixes,
    strip_prefixes_exec, strip_prefixes_from, to_chars, trim, trim_exec, views,
};
use crate::tools::{ToolInfo, ToolResult};
use vstd::utf8::{decode_utf8, encode_utf8, is_char_boundary};

pub mod loop_engine;
pub mod react;

verus! {

broadcast use vstd::utf8::encode_utf8_decode_utf8;

/// A tool call read from a model reply.
#[derive(Debug)]
pub struct ToolCall {
    pub tool_name: String,
    pub args: String,
}

/// The tool calls in the lines of a reply from index `i`: a line starting
/// with `TOOL:` names a tool; when the next line starts with `ARGS:` it holds
/// the arguments (and is consumed), otherwise the arguments are empty.
pub open spec fn tool_calls_scan(ls: Seq<Seq<char>>, i: int) -> Seq<(Seq<char>, Seq<char>)>
    decreases ls.len() - i,
{
    if i < 0 || i >= ls.len() {
        seq![]
    } else if starts_with(ls[i], "TOOL:"@) {
        let name = trim(strip_prefixes(ls[i], "TOOL:"@));
        if i + 1 < ls.len() && starts_with(ls[i + 1], "ARGS:"@) {
            seq![(name, trim(strip_prefixes(ls[i + 1], "ARGS:"@)))] + tool_calls_scan(ls, i + 2)
        } else {
            seq![(name, Seq::empty())] + tool_calls_scan(ls, i + 1)
        }
    } else {
        tool_calls_scan(ls, i + 1)
    }
}

/// A line that names a tool: it starts with `TOOL:`.
pub open spec fn names_tool(l: Seq<char>) -> bool {
    starts_with(l, "TOOL:"@)
}

pub open spec fn tool_line_flag() -> spec_fn(Seq<char>) -> bool {
    |l: Seq<char>| names_tool(l)
}

/// The call a `TOOL:` line at index `k` stands for: the trimmed text after
/// `TOOL:`, with the trimmed text after `ARGS:` of the next line as its
/// arguments when that line starts with `ARGS:`, else no arguments.
pub open spec fn call_at(ls: Seq<Seq<char>>, k: int) -> (Seq<char>, Seq<char>) {
    (
        trim(strip_prefixes(ls[k], "TOOL:"@)),
        if k + 1 < ls.len() && starts_with(ls[k + 1], "ARGS:"@) {
            trim(strip_prefixes(ls[k + 1], "ARGS:"@))
        } else {
            Seq::empty()
        },
    )
}

proof fn lemma_args_line_names_no_tool(l: Seq<char>)
    requires
        starts_with(l, "ARGS:"@),
    ensures
        !names_tool(l),
{
    reveal_strlit("ARGS:");
    reveal_strlit("TOOL:");
    assert(l.subrange(0, 5)[0] == l[0]);
}

/// Every line that starts with `TOOL:` gives exactly one call, in order, and
/// no other line gives one: there are as many calls as such lines, and the
/// call of such a line `k` is `call_at(ls, k)`, after those of the earlier
/// ones. (A line taken as arguments starts with `ARGS:`, so it never names a
/// tool itself.)
pub proof fn law_each_tool_line_gives_one_call(ls: Seq<Seq<char>>)
    ensures
        tool_calls_scan(ls, 0).len() == count_where(ls, ls.len() as int, tool_line_flag()),
        forall|k: int|
            0 <= k < ls.len() && names_tool(ls[k]) ==> tool_calls_scan(ls, 0)[count_where(
                ls,
                k,
                tool_line_flag(),
            ) as int] == call_at(ls, k),
{
    lemma_tool_calls_from(ls, 0);
}

proof fn lemma_tool_calls_from(ls: Seq<Seq<char>>, i: int)
    requires
        0 <= i <= ls.len(),
    ensures
        tool_calls_scan(ls, i).len() == count_where(ls, ls.len() as int, tool_line_flag())
            - count_where(ls, i, tool_line_flag()),
        forall|k: int|
            i <= k < ls.len() && names_tool(ls[k]) ==> tool_calls_scan(ls, i)[count_where(
                ls,
                k,
                tool_line_flag(),
            ) - count_where(ls, i, tool_line_flag())] == call_at(ls, k),
    decreases ls.len() - i,
{
    let f = tool_line_flag();
    if i < ls.len() {
        assert(f(ls[i]) == names_tool(ls[i]));
        assert(count_where(ls, i + 1, f) == count_where(ls, i, f) + if f(ls[i]) { 1nat } else { 0nat });
        lemma_count_where_mono(ls, f, i + 1, ls.len() as int);
        let consumed = names_tool(ls[i]) && i + 1 < ls.len() && starts_with(ls[i + 1], "ARGS:"@);
        let next = if consumed { i + 2 } else { i + 1 };
        lemma_tool_calls_from(ls, i + 1);
        if consumed {
            lemma_args_line_names_no_tool(ls[i + 1]);
            assert(f(ls[i + 1]) == names_tool(ls[i + 1]));
            assert(count_where(ls, i + 2, f) == count_where(ls, i + 1, f));
            lemma_tool_calls_from(ls, i + 2);
        }
        let here = if names_tool(ls[i]) {
            seq![call_at(ls, i)]
        } else {
            seq![]
        };
        assert(tool_calls_scan(ls, i) == here + tool_calls_scan(ls, next));
        assert(count_where(ls, next, f) == count_where(ls, i, f) + here.len());
        assert forall|k: int|
            i <= k < ls.len() && names_tool(ls[k]) implies tool_calls_scan(ls, i)[count_where(
                ls,
                k,
                f,
            ) - count_where(ls, i, f)] == call_at(ls, k) by {
            assert(f(ls[k]) == names_tool(ls[k]));
            lemma_count_where_mono(ls, f, k, ls.len() as int);
            if k > i {
                if consumed && k == i + 1 {
                    lemma_args_line_names_no_tool(ls[i + 1]);
                } else {
                    lemma_count_where_mono(ls, f, next, k);
                    let t = tool_calls_scan(ls, next);
                    let idx = count_where(ls, k, f) - count_where(ls, next, f);
                    assert(t[idx] == call_at(ls, k));
                    assert((here + t)[here.len() + idx] == t[idx]);
                }
            }
        }
    }
}

/// Names and arguments of a list of tool calls.
pub open spec fn call_views(cs: Seq<ToolCall>) -> Seq<(Seq<char>, Seq<char>)> {
    cs.map_values(|c: ToolCall| (c.tool_name@, c.args@))
}

/// Every tool call in a model reply, in order.
pub fn parse_tool_calls(response: &str) -> (r: Vec<ToolCall>)
    ensures
        call_views(r@) == tool_calls_scan(lines(response@), 0),
{
    let ls = lines_exec(&to_chars(response));
    let ghost lv = views(ls@);
    let mut r: Vec<ToolCall> = Vec::new();
    let mut i: usize = 0;
    while i < ls.len()
        invariant
            i <= ls@.len() + 1,
            lv == views(ls@),
            lv == lines(response@),
            call_views(r@) + tool_calls_scan(lv, i as int) == tool_calls_scan(lv, 0),
        decreases ls@.len() + 1 - i,
    {
        let line = &ls[i];
        assert(lv[i as int] == line@);
        if starts_with_str(line, "TOOL:") {
            let name = trim_exec(&strip_prefixes_exec(line, "TOOL:"));
            let ghost before = call_views(r@);
            if i + 1 < ls.len() && starts_with_str(&ls[i + 1], "ARGS:") {
                assert(lv[i + 1] == ls@[i + 1]@);
                let args = trim_exec(&strip_prefixes_exec(&ls[i + 1], "ARGS:"));
                let call = ToolCall { tool_name: string_from(&name), args: string_from(&args) };
                r.push(call);
                assert(call_views(r@) =~= before.push((name@, args@)));
                i = i + 2;
            } else {
                let call = ToolCall { tool_name: string_from(&name), args: String::new() };
                r.push(call);
                assert(call_views(r@) =~= before.push((name@, Seq::<char>::empty())));
                i = i + 1;
            }
        } else {
            i = i + 1;
        }
    }
    r
}

proof fn lemma_strip_tag(tag: Seq<char>, body: Seq<char>)
    requires
        tag.len() == 5,
        tag[0] != ' ',
    ensures
        starts_with(tag + seq![' '] + body, tag),
        strip_prefixes(tag + seq![' '] + body, tag) == seq![' '] + body,
{
    let l = tag + seq![' '] + body;
    assert(l.subrange(0, 5) =~= tag);
    if matches_at(l, tag, 5) {
        assert(l.subrange(5, 10)[0] == l[5]);
    }
    assert(strip_prefixes_from(l, tag, 5) == l.subrange(5, l.len() as int));
    assert(l.subrange(5, l.len() as int) =~= seq![' '] + body);
}

/// A tool request written the way the system prompt asks for it, `TOOL: name`
/// on one line and `ARGS: args` on the next, reads back as exactly that one
/// call, for any name and arguments that are single lines without surrounding
/// whitespace.
pub proof fn law_tool_request_round_trip(name: Seq<char>, args: Seq<char>)
    requires
        forall|j: int| 0 <= j < name.len() ==> name[j] != '\n',
        forall|j: int| 0 <= j < args.len() ==> args[j] != '\n',
        trim(name) == name,
        trim(args) == args,
    ensures
        tool_calls_scan(lines("TOOL: "@ + name + "\nARGS: "@ + args), 0) == seq![(name, args)],
{
    reveal_strlit("TOOL: ");
    reveal_strlit("\nARGS: ");
    reveal_strlit("TOOL:");
    reveal_strlit("ARGS:");
    let tool_tag: Seq<char> = "TOOL:"@;
    let args_tag: Seq<char> = "ARGS:"@;
    let l1 = tool_tag + seq![' '] + name;
    let l2 = args_tag + seq![' '] + args;
    let text = "TOOL: "@ + name + "\nARGS: "@ + args;
    assert(text =~= l1 + seq!['\n'] + l2);
    let n1 = l1.len() as int;
    assert forall|j: int| 0 <= j < n1 implies text[j] != '\n' by {
        assert(text[j] == l1[j]);
        if j >= 6 {
            assert(l1[j] == name[j - 6]);
        }
    }
    lemma_lines_scan_skip(text, 0, 0, n1);
    assert(text[n1] == '\n');
    assert forall|j: int| n1 + 1 <= j < text.len() implies text[j] != '\n' by {
        assert(text[j] == l2[j - n1 - 1]);
        if j - n1 - 1 >= 6 {
            assert(l2[j - n1 - 1] == args[j - n1 - 7]);
        }
    }
    lemma_lines_scan_skip(text, n1 + 1, n1 + 1, text.len() as int);
    assert(text.subrange(0, n1) =~= l1);
    assert(text.subrange(n1 + 1, text.len() as int) =~= l2);
    if name.len() > 0 {
        lemma_trimmed_ends_non_ws(name);
        assert(l1.last() == name.last());
    } else {
        assert(l1.last() == ' ');
    }
    assert(strip_cr(l1) == l1);
    assert(lines(text) =~= seq![l1, l2]);
    lemma_strip_tag(tool_tag, name);
    lemma_strip_tag(args_tag, args);
    lemma_trim_leading_ws(' ', name);
    lemma_trim_leading_ws(' ', args);
    let ls = seq![l1, l2];
    assert(tool_calls_scan(ls, 2) == Seq::<(Seq<char>, Seq<char>)>::empty());
    assert(tool_calls_scan(ls, 0) =~= seq![(name, args)]);
}

/// What the agent records in the conversation after running a tool.
pub open spec fn tool_feedback_text(name: Seq<char>, result: ToolResult) -> Seq<char> {
    if result.success {
        "Tool "@ + name + " executed successfully:\n"@ + result.output@
    } else {
        "Tool "@ + name + " failed: "@ + match result.error {
            Some(e) => e@,
            None => Seq::empty(),
        }
    }
}

/// The conversation entry for a finished tool run.
pub fn tool_feedback(name: &str, result: &ToolResult) -> (s: String)
    ensures
        s@ == tool_feedback_text(name@, *result),
{
    let mut v = to_chars("Tool ");
    push_str(&mut v, name);
    if result.success {
        push_str(&mut v, " executed successfully:\n");
        push_str(&mut v, result.output.as_str());
    } else {
        push_str(&mut v, " failed: ");
        match &result.error {
            Some(e) => push_str(&mut v, e.as_str()),
            None => {},
        }
    }
    proof {
        if !result.success && result.error is None {
            assert(v@ =~= "Tool "@ + name@ + " failed: "@ + Seq::<char>::empty());
        }
    }
    string_from(&v)
}

/// The tool list shown in a prompt: one `- name: description` line per tool.
pub open spec fn tools_description(tools: Seq<ToolInfo>) -> Seq<char> {
    join(tools.map_values(|t: ToolInfo| "- "@ + t.name@ + ": "@ + t.description@), "\n"@)
}

pub fn describe_tools(tools: &Vec<ToolInfo>) -> (s: Vec<char>)
    ensures
        s@ == tools_description(tools@),
{
    let mut lines_out: Vec<Vec<char>> = Vec::new();
    let mut k: usize = 0;
    while k < tools.len()
        invariant
            k <= tools@.len(),
            views(lines_out@) == tools@.take(k as int).map_values(
                |t: ToolInfo| "- "@ + t.name@ + ": "@ + t.description@,
            ),
        decreases tools@.len() - k,
    {
        let ghost before = views(lines_out@);
        let mut l = to_chars("- ");
        push_str(&mut l, tools[k].name.as_str());
        push_str(&mut l, ": ");
        push_str(&mut l, tools[k].description.as_str());
        lines_out.push(l);
        assert(views(lines_out@) =~= before.push(l@));
        assert(tools@.take(k + 1).map_values(|t: ToolInfo| "- "@ + t.name@ + ": "@ + t.description@)
            =~= tools@.take(k as int).map_values(
            |t: ToolInfo| "- "@ + t.name@ + ": "@ + t.description@,
        ).push(l@));
        k = k + 1;
    }
    assert(tools@.take(k as int) =~= tools@);
    join_exec(&lines_out, "\n")
}

pub open spec fn system_prompt_head() -> Seq<char> {
    "You are Self-Smart, an AI coding agent powered by local LLM. You help with coding tasks including:\n- Code generation and editing\n- Code analysis and understanding\n- Debugging and fixing issues\n- Refactoring and improving code\n- Running tests\n- Documentation\n\nAvailable tools:\n"@
}

pub open spec fn system_prompt_tail() -> Seq<char> {
    "\n\nWhen you want to use a tool, format your request as:\nTOOL: <tool_name>\nARGS: <arguments>\n\nFor example:\nTOOL: analyze\nARGS: src/main.rs\n\nBe concise and helpful. Focus on solving the user's problem efficiently."@
}

/// The agent's system prompt, listing the given tools.
pub fn build_system_prompt(tools: &Vec<ToolInfo>) -> (s: String)
    ensures
        s@ == system_prompt_head() + tools_description(tools@) + system_prompt_tail(),
{
    let mut v = to_chars(
        "You are Self-Smart, an AI coding agent powered by local LLM. You help with coding tasks including:\n- Code generation and editing\n- Code analysis and understanding\n- Debugging and fixing issues\n- Refactoring and improving code\n- Running tests\n- Documentation\n\nAvailable tools:\n",
    );
    push_all(&mut v, &describe_tools(tools));
    push_str(
        &mut v,
        "\n\nWhen you want to use a tool, format your request as:\nTOOL: <tool_name>\nARGS: <arguments>\n\nFor example:\nTOOL: analyze\nARGS: src/main.rs\n\nBe concise and helpful. Focus on solving the user's problem efficiently.",
    );
    string_from(&v)
}

/// The git actions of an auto-commit.
#[derive(Debug)]
pub struct CommitPlan {
    pub message: String,
    pub tag_name: String,
    pub tag_message: String,
}

/// What auto-commit does after turn `iteration` (counted from 0) given the
/// short git status: nothing when the status is blank, else commit
/// `Iteration N: Auto-commit` and tag `v0.1.N` with the session's token count.
pub fn commit_plan(iteration: u64, total_tokens_used: u64, status: &str) -> (p: Option<CommitPlan>)
    requires
        iteration < u64::MAX,
    ensures
        trim(status@).len() == 0 <==> p is None,
        p matches Some(c) ==> (c.message@ == "Iteration "@ + decimal((iteration + 1) as nat)
            + ": Auto-commit"@ && c.tag_name@ == "v0.1."@ + decimal((iteration + 1) as nat)
            && c.tag_message@ == "Iteration "@ + decimal((iteration + 1) as nat)
            + " completed | Tokens: "@ + decimal(total_tokens_used as nat)),
{
    let t = trim_exec(&to_chars(status));
    if t.len() == 0 {
        return None;
    }
    let n = decimal_chars(iteration + 1);
    let mut message = to_chars("Iteration ");
    push_all(&mut message, &n);
    push_str(&mut message, ": Auto-commit");
    let mut tag = to_chars("v0.1.");
    push_all(&mut tag, &n);
    let mut tag_message = to_chars("Iteration ");
    push_all(&mut tag_message, &n);
    push_str(&mut tag_message, " completed | Tokens: ");
    push_all(&mut tag_message, &decimal_chars(total_tokens_used));
    Some(
        CommitPlan {
            message: string_from(&message),
            tag_name: string_from(&tag),
            tag_message: string_from(&tag_message),
        },
    )
}

/// A line typed in interactive mode.
#[derive(Debug)]
pub enum InteractiveCommand {
    /// Nothing but whitespace: ask again.
    Skip,
    Quit,
    Tools,
    History,
    Context,
    Clear,
    Status,
    /// Anything else is a task for the agent (the trimmed line).
    Prompt(String),
}

/// The command a typed line stands for, after trimming it.
pub open spec fn command_of(t: Seq<char>) -> Option<InteractiveCommand> {
    if t.len() == 0 {
        Some(InteractiveCommand::Skip)
    } else if t == "quit"@ || t == "exit"@ {
        Some(InteractiveCommand::Quit)
    } else if t == "tools"@ {
        Some(InteractiveCommand::Tools)
    } else if t == "history"@ {
        Some(InteractiveCommand::History)
    } else if t == "context"@ {
        Some(InteractiveCommand::Context)
    } else if t == "clear"@ {
        Some(InteractiveCommand::Clear)
    } else if t == "status"@ {
        Some(InteractiveCommand::Status)
    } else {
        None
    }
}

/// Reads a line typed in interactive mode.
pub fn parse_command(input: &str) -> (c: InteractiveCommand)
    ensures
        command_of(trim(input@)) matches Some(k) ==> c == k,
        command_of(trim(input@)) is None ==> (c matches InteractiveCommand::Prompt(p) && p@ == trim(
            input@,
        )),
{
    let t = trim_exec(&to_chars(input));
    let text = string_from(&t);
    let s = text.as_str();
    if t.len() == 0 {
        InteractiveCommand::Skip
    } else if str_eq(s, "quit") || str_eq(s, "exit") {
        InteractiveCommand::Quit
    } else if str_eq(s, "tools") {
        InteractiveCommand::Tools
    } else if str_eq(s, "history") {
        InteractiveCommand::History
    } else if str_eq(s, "context") {
        InteractiveCommand::Context
    } else if str_eq(s, "clear") {
        InteractiveCommand::Clear
    } else if str_eq(s, "status") {
        InteractiveCommand::Status
    } else {
        InteractiveCommand::Prompt(text)
    }
}

/// How a message shows in the history listing: its first 100 bytes and `...`
/// when it is longer than that.
pub fn history_preview(content: &str) -> (s: String)
    requires
        byte_count(content@) <= 100 || is_char_boundary(encode_utf8(content@), 100),
    ensures
        byte_count(content@) <= 100 ==> s@ == content@,
        byte_count(content@) > 100 ==> s@ == decode_utf8(encode_utf8(content@).subrange(0, 100))
            + "..."@,
{
    if content.len() > 100 {
        let (head, _rest) = content.split_at(100);
        let mut v = to_chars(head);
        push_str(&mut v, "...");
        proof {
            assert(decode_utf8(encode_utf8(head@)) == head@);
        }
        string_from(&v)
    } else {
        String::from_str(content)
    }
}

/// The agent's own state across turns: the conversation, how many turns have
/// finished, and the tokens the server reported over the session.
#[derive(Debug)]
pub struct AgentState {
    pub context: ConversationContext,
    pub iteration: u64,
    pub total_tokens_used: u64,
}

impl AgentState {
    /// A fresh session whose system prompt lists the tools, in a context of `max_tokens`.
    pub fn new(tools: &Vec<ToolInfo>, max_tokens: u32) -> (a: AgentState)
        ensures
            a.context.messages@.len() == 0,
            a.context.budget.max_tokens == max_tokens,
            a.context.system_prompt matches Some(p) && p@ == system_prompt_head()
                + tools_description(tools@) + system_prompt_tail(),
            a.context.accounted(),
            a.iteration == 0,
            a.total_tokens_used == 0,
    {
        let prompt = build_system_prompt(tools);
        let context = ConversationContext::new(max_tokens).with_system_prompt(prompt.as_str());
        proof {
            assert(context.messages@ =~= Seq::<Message>::empty());
        }
        AgentState { context, iteration: 0, total_tokens_used: 0 }
    }

    /// Starts a turn: records the prompt, trims the context to the budget and
    /// gives the messages to send to the model. Gives `None`, with the prompt
    /// recorded but nothing trimmed, when trimming would overflow its `u32` count.
    pub fn begin_turn(&mut self, prompt: &str) -> (ms: Option<Vec<Message>>)
        ensures
            final(self).iteration == old(self).iteration,
            final(self).total_tokens_used == old(self).total_tokens_used,
            final(self).context.system_prompt == old(self).context.system_prompt,
            final(self).context.budget.max_tokens == old(self).context.budget.max_tokens,
            old(self).context.accounted() ==> final(self).context.accounted(),
            ms is None && estimate_tokens(prompt@) <= old(self).context.budget.spec_remaining()
                ==> final(self).context.messages@.last().content@ == prompt@,
            ms is None <==> !trim_fits(
                token_seq(old(self).context.messages@) + if estimate_tokens(prompt@)
                    <= old(self).context.budget.spec_remaining() {
                    seq![estimate_tokens(prompt@)]
                } else {
                    Seq::empty()
                },
                old(self).context.budget.max_tokens as int,
                old(self).context.system_tokens() as int,
                0,
            ),
            ms matches Some(v) ==> final(self).context.accounted() && v@.len()
                == final(self).context.messages@.len() + (if final(self).context.system_prompt is Some {
                1int
            } else {
                0
            }),
            ms matches Some(v) ==> (final(self).context.system_prompt is Some ==> v@.drop_first()
                == final(self).context.messages@),
            ms matches Some(v) ==> (final(self).context.system_prompt is None ==> v@
                == final(self).context.messages@),
            ms is None ==> old(self).context.offered(final(self).context, "user"@, prompt@),
            ms matches Some(v) ==> final(self).context.is_request(v@),
            ms is Some ==> exists|m: Message|
                m.role@ == "user"@ && m.content@ == prompt@ && final(self).context.messages@
                    == newest_fitting(
                    if estimate_tokens(prompt@) <= old(self).context.budget.spec_remaining() {
                        old(self).context.messages@.push(m)
                    } else {
                        old(self).context.messages@
                    },
                    old(self).context.budget.max_tokens as int,
                    old(self).context.system_tokens() as int,
                ),
    {
        let message = Message::user(prompt);
        let ghost m = message;
        let _ = self.context.add_message(message);
        proof {
            let c = old(self).context;
            let extra = if estimate_tokens(prompt@) <= c.budget.spec_remaining() {
                seq![estimate_tokens(prompt@)]
            } else {
                Seq::<u32>::empty()
            };
            assert(token_seq(self.context.messages@) =~= token_seq(c.messages@) + extra);
            if estimate_tokens(prompt@) <= c.budget.spec_remaining() {
                assert(self.context.messages@.drop_last() =~= c.messages@);
            }
            assert(c.offered(self.context, "user"@, prompt@));
        }
        if !self.context.trim_is_safe() {
            return None;
        }
        self.context.trim_to_budget();
        Some(self.context.get_messages())
    }

    /// Records the model's reply and the usage it came with, and gives the tool calls it holds.
    pub fn record_reply(&mut self, response: &str, usage: Option<Usage>) -> (calls: Vec<ToolCall>)
        requires
            usage matches Some(u) ==> old(self).total_tokens_used + u.total_tokens <= u64::MAX,
        ensures
            final(self).total_tokens_used == old(self).total_tokens_used + match usage {
                Some(u) => u.total_tokens as int,
                None => 0,
            },
            final(self).iteration == old(self).iteration,
            old(self).context.accounted() ==> final(self).context.accounted(),
            call_views(calls@) == tool_calls_scan(lines(response@), 0),
            old(self).context.offered(final(self).context, "assistant"@, response@),
            estimate_tokens(response@) <= old(self).context.budget.spec_remaining()
                ==> final(self).context.messages@.last().content@ == response@
                && final(self).context.messages@.last().role@ == "assistant"@,
    {
        match usage {
            Some(u) => {
                self.total_tokens_used = self.total_tokens_used + u.total_tokens as u64;
            },
            None => {},
        }
        let _ = self.context.add_assistant_message(response);
        parse_tool_calls(response)
    }

    /// Records a finished tool run in the conversation.
    pub fn record_tool_result(&mut self, name: &str, result: &ToolResult)
        ensures
            final(self).iteration == old(self).iteration,
            final(self).total_tokens_used == old(self).total_tokens_used,
            old(self).context.accounted() ==> final(self).context.accounted(),
            old(self).context.offered(
                final(self).context,
                "assistant"@,
                tool_feedback_text(name@, *result),
            ),
    {
        let text = tool_feedback(name, result);
        let _ = self.context.add_assistant_message(text.as_str());
    }

    /// Ends a turn.
    pub fn finish_turn(&mut self)
        requires
            old(self).iteration < u64::MAX,
        ensures
            final(self).iteration == old(self).iteration + 1,
            final(self).total_tokens_used == old(self).total_tokens_used,
            final(self).context == old(self).context,
    {
        self.iteration = self.iteration + 1;
    }

    /// Empties the conversation (the system prompt stays).
    pub fn clear_context(&mut self)
        ensures
            final(self).context.messages@.len() == 0,
            final(self).context.system_prompt == old(self).context.system_prompt,
            final(self).context.budget.used_tokens == old(self).context.system_tokens(),
            final(self).iteration == old(self).iteration,
            final(self).total_tokens_used == old(self).total_tokens_used,
    {
        self.context.clear();
    }

    /// Message count, tokens used and tokens remaining.
    pub fn context_counts(&self) -> (r: (usize, u32, u32))
        ensures
            r.0 == self.context.messages@.len(),
            r.1 == self.context.budget.used_tokens,
            r.2 == self.context.budget.spec_remaining(),
    {
        (self.context.message_count(), self.context.budget.used_tokens, self.context.budget.remaining())
    }
}

} // verus!
