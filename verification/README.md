# Self-Smart

A coding agent that talks to a local OpenAI-compatible model server (vLLM or
Ollama), runs tools on the code it is asked about, and can commit its work to
git. The part that decides and computes is a library verified with Verus; the
program around it does the I/O.

## Layout

- `src/` – the verified library (crate `self_smart`)
  - `llm/` – messages, the token budget and the conversation context
    (adding within the budget, trimming to the newest messages that fit);
    `llm/vllm.rs` – server addresses and the reading of streamed replies and
    model listings
  - `tools/` – tool results, per-tool counters and the tool registry (which
    tool may run, what each run counts for); the tools' text work:
    `analyze` (code metrics), `document` (outlines of Rust and Python
    sources), `generate` (boilerplate), `refactor` (code smells, renames),
    `test` (cargo runs chosen and reported)
  - `agent/` – tool calls read from replies, the prompts, the state of a
    session and of the ReAct loop, auto-commit plans, the outer loops' schedule
  - `text.rs` – the character-level operations everything above is stated in
    (lines, trimming, words, search, replace, integer parsing, decimals)
  - `path.rs` – file extensions and stems, answered by `std::path::Path`
  - `config.rs` – session settings
- `tests/` – tests of the library
- `app/` – the program: command line, HTTP client, file system, git, the
  interactive loop, and the tools as runnable objects

## Usage

```bash
self-smart --prompt "Analyze src/main.rs and suggest improvements"
self-smart --interactive
self-smart --auto-commit --prompt "Refactor the code in src/"
self-smart --endpoint http://localhost:8000 --model Qwen/Qwen2.5-Coder-32B
```
