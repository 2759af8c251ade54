//! The decisions of the ReAct (reason, act, observe) loop: when it may take
//! another step, how it reads each reply, and what it records.
use vstd::prelude::*;
use crate::agent::{describe_tools, tools_description};
use crate::llm::{estimate_tokens, ConversationContext, Message};
use crate::text::{
    contains, contains_str, find, lemma_find_from_bounds, lines, lines_exec, matches_at, push_all,
    push_str, second_piece, second_piece_exec,
    starts_with, starts_with_str, string_from, strip_prefixes, strip_prefixes_exec, to_chars, trim,
    trim_exec, views,
};
use crate::tools::{ToolInfo, ToolResult};

verus! {

/// Result of a single ReAct step.
#[derive(Debug)]
pub enum StepResult {
    /// Agent wants to continue reasoning
    Continue(String),
    /// Agent has completed the task
    Complete(String),
    /// Agent executed a tool
    ToolExecuted { tool_name: String, args: String, result: ToolResult },
    /// Error occurred
    Error(String),
}

/// The first tool call among the lines from index `i`: the first line that,
/// trimmed, starts with `TOOL:`, with the arguments from the next line when
/// that one, trimmed, starts with `ARGS:`.
pub open spec fn first_tool_call(ls: Seq<Seq<char>>, i: int) -> Option<(Seq<char>, Seq<char>)>
    decreases ls.len() - i,
{
    if i < 0 || i >= ls.len() {
        None
    } else if starts_with(trim(ls[i]), "TOOL:"@) {
        let name = trim(strip_prefixes(trim(ls[i]), "TOOL:"@));
        let args = if i + 1 < ls.len() && starts_with(trim(ls[i + 1]), "ARGS:"@) {
            trim(strip_prefixes(trim(ls[i + 1]), "ARGS:"@))
        } else {
            Seq::empty()
        };
        Some((name, args))
    } else {
        first_tool_call(ls, i + 1)
    }
}

/// The final answer of a reply that contains `DONE`: the trimmed text after
/// the first `DONE`, up to a second one.
pub open spec fn final_answer(response: Seq<char>) -> Seq<char> {
    trim(
        match second_piece(response, "DONE"@) {
            Some(p) => p,
            None => response,
        },
    )
}

/// A reply in the form the ReAct prompt asks for, some reasoning, `DONE`, then
/// the answer, completes the task with the trimmed answer, when neither the
/// reasoning nor the answer contains `DONE` themselves.
pub proof fn law_done_reply_gives_answer(before: Seq<char>, answer: Seq<char>)
    requires
        !contains(before, "DONE"@),
        !contains(answer, "DONE"@),
    ensures
        contains(before + "DONE"@ + answer, "DONE"@),
        final_answer(before + "DONE"@ + answer) == trim(answer),
{
    reveal_strlit("DONE");
    let p: Seq<char> = "DONE"@;
    let text = before + p + answer;
    let b = before.len() as int;
    assert(text.subrange(b, b + 4) =~= p);
    assert(matches_at(text, p, b));
    lemma_find_from_bounds(text, p, 0);
    lemma_find_from_bounds(before, p, 0);
    lemma_find_from_bounds(answer, p, 0);
    let j = find(text, p)->0;
    assert(j == b) by {
        if j < b {
            if j + 4 <= b {
                assert(text.subrange(j, j + 4) =~= before.subrange(j, j + 4));
                assert(matches_at(before, p, j));
            } else {
                let k = b - j;
                assert(text.subrange(j, j + 4)[k] == text[b]);
                assert(text[b] == 'D');
                assert(p[k] != 'D');
            }
        }
    }
    assert(text.subrange(b + 4, text.len() as int) =~= answer);
}

/// How a step goes on after the model's reply.
#[derive(Debug)]
pub enum StepDecision {
    /// The reply finishes the task, or only reasons; this is the step's result.
    Done(StepResult),
    /// The reply asks for this tool to run.
    RunTool { tool_name: String, args: String },
}

pub open spec fn react_prompt_head() -> Seq<char> {
    "You are Self-Smart, an AI coding agent using the ReAct (Reason-Act-Observe) framework.\n\nYour goal is to solve coding tasks by thinking step by step and using tools when needed.\n\nAvailable tools:\n"@
}

pub open spec fn react_prompt_tail() -> Seq<char> {
    "\n\nInstructions:\n1. REASON: Think about what you need to do next\n2. ACT: If you need to use a tool, format it as:\n   TOOL: <tool_name>\n   ARGS: <arguments>\n3. OBSERVE: After the tool result, analyze it and decide next steps\n4. COMPLETE: When the task is done, respond with:\n   DONE\n   <your final answer>\n\nImportant:\n- Be systematic and thorough\n- Use tools to gather information before making changes\n- Verify your work by running tests when appropriate\n- If something fails, try a different approach\n- Always provide a clear final answer when complete"@
}

/// The ReAct system prompt, listing the given tools.
pub fn build_react_prompt(tools: &Vec<ToolInfo>) -> (s: String)
    ensures
        s@ == react_prompt_head() + tools_description(tools@) + react_prompt_tail(),
{
    let mut v = to_chars(
        "You are Self-Smart, an AI coding agent using the ReAct (Reason-Act-Observe) framework.\n\nYour goal is to solve coding tasks by thinking step by step and using tools when needed.\n\nAvailable tools:\n",
    );
    push_all(&mut v, &describe_tools(tools));
    push_str(
        &mut v,
        "\n\nInstructions:\n1. REASON: Think about what you need to do next\n2. ACT: If you need to use a tool, format it as:\n   TOOL: <tool_name>\n   ARGS: <arguments>\n3. OBSERVE: After the tool result, analyze it and decide next steps\n4. COMPLETE: When the task is done, respond with:\n   DONE\n   <your final answer>\n\nImportant:\n- Be systematic and thorough\n- Use tools to gather information before making changes\n- Verify your work by running tests when appropriate\n- If something fails, try a different approach\n- Always provide a clear final answer when complete",
    );
    string_from(&v)
}

/// The first tool call in a reply, if any.
pub fn find_tool_call(response: &str) -> (r: Option<(String, String)>)
    ensures
        r is None <==> first_tool_call(lines(response@), 0) is None,
        r matches Some(c) ==> first_tool_call(lines(response@), 0) == Some((c.0@, c.1@)),
{
    let ls = lines_exec(&to_chars(response));
    let ghost lv = views(ls@);
    let mut i: usize = 0;
    while i < ls.len()
        invariant
            i <= ls@.len(),
            lv == views(ls@),
            lv == lines(response@),
            first_tool_call(lv, i as int) == first_tool_call(lv, 0),
        decreases ls@.len() - i,
    {
        let line = trim_exec(&ls[i]);
        assert(lv[i as int] == ls@[i as int]@);
        if starts_with_str(&line, "TOOL:") {
            let name = trim_exec(&strip_prefixes_exec(&line, "TOOL:"));
            let mut args: Vec<char> = Vec::new();
            if i + 1 < ls.len() {
                let next = trim_exec(&ls[i + 1]);
                assert(lv[i + 1] == ls@[i + 1]@);
                if starts_with_str(&next, "ARGS:") {
                    args = trim_exec(&strip_prefixes_exec(&next, "ARGS:"));
                }
            }
            return Some((string_from(&name), string_from(&args)));
        }
        i = i + 1;
    }
    None
}

/// The final answer of a reply that contains `DONE`.
pub fn extract_final_answer(response: &str) -> (s: String)
    ensures
        s@ == final_answer(response@),
{
    let v = to_chars(response);
    let piece = match second_piece_exec(&v, "DONE") {
        Some(p) => p,
        None => v,
    };
    string_from(&trim_exec(&piece))
}

/// The message that opens a task.
pub open spec fn task_message(task: Seq<char>) -> Seq<char> {
    "Task: "@ + task
        + "\n\nThink step by step. Use tools when needed. When complete, respond with DONE followed by your final answer."@
}

/// The assistant entry announcing a tool run.
pub open spec fn tool_intent_message(name: Seq<char>, args: Seq<char>) -> Seq<char> {
    "I will use the "@ + name + " tool on "@ + args + "."@
}

/// The user entry reporting a tool run back to the model.
pub open spec fn tool_observation(name: Seq<char>, result: ToolResult) -> Seq<char> {
    if result.success {
        "Tool "@ + name + " result:\n"@ + result.output@
    } else {
        "Tool "@ + name + " failed: "@ + match result.error {
            Some(e) => e@,
            None => "Unknown error"@,
        }
    }
}

/// The ReAct loop's state: the conversation and how many of its steps are used.
#[derive(Debug)]
pub struct ReActState {
    pub context: ConversationContext,
    pub max_iterations: usize,
    pub current_iteration: usize,
}

impl ReActState {
    /// A loop of at most `max_iterations` steps whose prompt lists the tools.
    pub fn new(tools: &Vec<ToolInfo>, max_iterations: usize) -> (s: ReActState)
        ensures
            s.max_iterations == max_iterations,
            s.current_iteration == 0,
            s.context.messages@.len() == 0,
            s.context.budget.max_tokens == 128000,
            s.context.system_prompt matches Some(p) && p@ == react_prompt_head()
                + tools_description(tools@) + react_prompt_tail(),
            s.context.accounted(),
    {
        let prompt = build_react_prompt(tools);
        let context = ConversationContext::new(128000).with_system_prompt(prompt.as_str());
        proof {
            assert(context.messages@ =~= Seq::<Message>::empty());
        }
        ReActState { context, max_iterations, current_iteration: 0 }
    }

    /// Records the task for the model.
    pub fn start_task(&mut self, task: &str)
        ensures
            final(self).max_iterations == old(self).max_iterations,
            final(self).current_iteration == old(self).current_iteration,
            old(self).context.accounted() ==> final(self).context.accounted(),
            old(self).context.offered(final(self).context, "user"@, task_message(task@)),
    {
        let mut v = to_chars("Task: ");
        push_str(&mut v, task);
        push_str(
            &mut v,
            "\n\nThink step by step. Use tools when needed. When complete, respond with DONE followed by your final answer.",
        );
        let text = string_from(&v);
        let _ = self.context.add_user_message(text.as_str());
    }

    /// Takes the next step when one is left: counts it and gives the messages
    /// to send; `None` once `max_iterations` steps are used.
    pub fn begin_step(&mut self) -> (ms: Option<Vec<Message>>)
        ensures
            old(self).current_iteration >= old(self).max_iterations <==> ms is None,
            ms is None ==> final(self).current_iteration == old(self).current_iteration,
            ms is Some ==> final(self).current_iteration == old(self).current_iteration + 1,
            old(self).current_iteration <= old(self).max_iterations
                ==> final(self).current_iteration <= final(self).max_iterations,
            final(self).max_iterations == old(self).max_iterations,
            final(self).context == old(self).context,
            ms matches Some(v) ==> final(self).context.is_request(v@),
    {
        if self.current_iteration >= self.max_iterations {
            return None;
        }
        self.current_iteration = self.current_iteration + 1;
        Some(self.context.get_messages())
    }

    /// Reads the model's reply: a reply containing `DONE` completes the task
    /// with its final answer; else the first tool call in it is to be run;
    /// else it is reasoning. A completing or reasoning reply is recorded.
    pub fn react_to(&mut self, response: &str) -> (d: StepDecision)
        ensures
            final(self).max_iterations == old(self).max_iterations,
            final(self).current_iteration == old(self).current_iteration,
            old(self).context.accounted() ==> final(self).context.accounted(),
            contains(response@, "DONE"@) ==> (d matches StepDecision::Done(StepResult::Complete(a))
                && a@ == final_answer(response@)),
            d is Done ==> old(self).context.offered(final(self).context, "assistant"@, response@),
            !contains(response@, "DONE"@) && first_tool_call(lines(response@), 0) is Some ==> (
            d matches StepDecision::RunTool { tool_name, args } && tool_name@ == first_tool_call(
                lines(response@),
                0,
            ).unwrap().0 && args@ == first_tool_call(lines(response@), 0).unwrap().1 && final(self).context
                == old(self).context),
            !contains(response@, "DONE"@) && first_tool_call(lines(response@), 0) is None ==> (
            d matches StepDecision::Done(StepResult::Continue(r)) && r@ == response@),
    {
        if contains_str(&to_chars(response), "DONE") {
            let answer = extract_final_answer(response);
            let _ = self.context.add_assistant_message(response);
            return StepDecision::Done(StepResult::Complete(answer));
        }
        match find_tool_call(response) {
            Some((tool_name, args)) => StepDecision::RunTool { tool_name, args },
            None => {
                let _ = self.context.add_assistant_message(response);
                StepDecision::Done(StepResult::Continue(String::from_str(response)))
            },
        }
    }

    /// Records a tool run: the announcement, then the observation for the model.
    pub fn record_tool_run(&mut self, tool_name: String, args: String, result: ToolResult) -> (r:
        StepResult)
        ensures
            final(self).max_iterations == old(self).max_iterations,
            final(self).current_iteration == old(self).current_iteration,
            old(self).context.accounted() ==> final(self).context.accounted(),
            r matches StepResult::ToolExecuted { tool_name: n, args: a, result: t } && n == tool_name
                && a == args && t == result,
            exists|mid: ConversationContext|
                old(self).context.offered(
                    mid,
                    "assistant"@,
                    tool_intent_message(tool_name@, args@),
                ) && mid.offered(final(self).context, "user"@, tool_observation(tool_name@, result)),
            ({
                let intent = tool_intent_message(tool_name@, args@);
                let obs = tool_observation(tool_name@, result);
                let room = old(self).context.budget.spec_remaining();
                estimate_tokens(intent) <= room && estimate_tokens(obs) <= room - estimate_tokens(
                    intent,
                ) ==> {
                    let ms = final(self).context.messages@;
                    &&& ms.len() == old(self).context.messages@.len() + 2
                    &&& ms[ms.len() - 2].content@ == intent
                    &&& ms[ms.len() - 2].role@ == "assistant"@
                    &&& ms[ms.len() - 1].content@ == obs
                    &&& ms[ms.len() - 1].role@ == "user"@
                }
            }),
    {
        let mut intent = to_chars("I will use the ");
        push_str(&mut intent, tool_name.as_str());
        push_str(&mut intent, " tool on ");
        push_str(&mut intent, args.as_str());
        push_str(&mut intent, ".");
        let ghost ctx0 = self.context;
        let _ = self.context.add_assistant_message(string_from(&intent).as_str());
        let ghost ctx1 = self.context;
        let mut obs = to_chars("Tool ");
        push_str(&mut obs, tool_name.as_str());
        if result.success {
            push_str(&mut obs, " result:\n");
            push_str(&mut obs, result.output.as_str());
        } else {
            push_str(&mut obs, " failed: ");
            match &result.error {
                Some(e) => push_str(&mut obs, e.as_str()),
                None => push_str(&mut obs, "Unknown error"),
            }
        }
        proof {
            if result.success {
                assert(obs@ =~= tool_observation(tool_name@, result));
            } else if result.error is Some {
                assert(obs@ =~= tool_observation(tool_name@, result));
            } else {
                assert(obs@ =~= tool_observation(tool_name@, result));
            }
            assert(intent@ =~= tool_intent_message(tool_name@, args@));
        }
        let _ = self.context.add_user_message(string_from(&obs).as_str());
        proof {
            assert(ctx0.offered(ctx1, "assistant"@, tool_intent_message(tool_name@, args@)));
            assert(ctx1.offered(self.context, "user"@, tool_observation(tool_name@, result)));
            let ms = self.context.messages@;
            if ms.len() == ctx0.messages@.len() + 2 {
                assert(ms.drop_last() == ctx1.messages@);
                assert(ms[ms.len() - 2] == ctx1.messages@.last());
            }
        }
        StepResult::ToolExecuted { tool_name, args, result }
    }

    /// Records an error of a step.
    pub fn record_error(&mut self, error: &str)
        ensures
            final(self).max_iterations == old(self).max_iterations,
            final(self).current_iteration == old(self).current_iteration,
            old(self).context.accounted() ==> final(self).context.accounted(),
            old(self).context.offered(final(self).context, "assistant"@, "Error occurred: "@ + error@),
    {
        let mut v = to_chars("Error occurred: ");
        push_str(&mut v, error);
        let _ = self.context.add_assistant_message(string_from(&v).as_str());
    }

    /// The answer given when the steps run out.
    pub fn max_iterations_answer() -> (s: String)
        ensures
            s@ == "Max iterations reached. Task may be incomplete."@,
    {
        String::from_str("Max iterations reached. Task may be incomplete.")
    }

    /// Clears the conversation and the step count.
    pub fn reset(&mut self)
        ensures
            final(self).current_iteration == 0,
            final(self).max_iterations == old(self).max_iterations,
            final(self).context.messages@.len() == 0,
            final(self).context.system_prompt == old(self).context.system_prompt,
            final(self).context.budget.used_tokens == old(self).context.system_tokens(),
    {
        self.context.clear();
        self.current_iteration = 0;
    }

    /// Message count, tokens used and tokens remaining.
    pub fn context_counts(&self) -> (r: (usize, u32, u32))
        ensures
            r.0 == self.context.messages@.len(),
            r.1 == self.context.budget.used_tokens,
            r.2 == self.context.budget.spec_remaining(),
    {
        (self.context.message_count(), self.context.budget.used_tokens, self.context.budget.remaining())
    }
}

/// Progress through a list of tasks run one after another.
#[derive(Debug)]
pub struct StepProgress {
    steps: Vec<String>,
    completed_steps: Vec<String>,
}

impl StepProgress {
    pub closed spec fn spec_steps(self) -> Seq<String> {
        self.steps@
    }

    pub closed spec fn spec_completed(self) -> Seq<String> {
        self.completed_steps@
    }

    pub fn new(steps: Vec<String>) -> (p: StepProgress)
        ensures
            p.spec_steps() == steps@,
            p.spec_completed().len() == 0,
    {
        StepProgress { steps, completed_steps: Vec::new() }
    }

    pub fn steps(&self) -> (s: &Vec<String>)
        ensures
            s@ == self.spec_steps(),
    {
        &self.steps
    }

    /// Notes that a task finished.
    pub fn mark_completed(&mut self, step: String)
        ensures
            final(self).spec_completed() == old(self).spec_completed().push(step),
            final(self).spec_steps() == old(self).spec_steps(),
    {
        self.completed_steps.push(step);
    }

    pub fn completed_count(&self) -> (n: usize)
        ensures
            n == self.spec_completed().len(),
    {
        self.completed_steps.len()
    }

    /// Tasks not yet completed.
    pub fn remaining_count(&self) -> (n: usize)
        requires
            self.spec_completed().len() <= self.spec_steps().len(),
        ensures
            n == self.spec_steps().len() - self.spec_completed().len(),
    {
        self.steps.len() - self.completed_steps.len()
    }
}

} // verus!
