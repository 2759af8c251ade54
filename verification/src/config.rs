//! Settings of an agent session.
use vstd::prelude::*;

verus! {

/// Where the model server is, which model to use, the working directory, and
/// whether to commit after each turn.
#[derive(Debug)]
pub struct Config {
    pub endpoint: String,
    pub model: String,
    pub workdir: String,
    pub auto_commit: bool,
}

impl Clone for Config {
    fn clone(&self) -> (c: Self)
        ensures
            c == *self,
    {
        Config {
            endpoint: self.endpoint.clone(),
            model: self.model.clone(),
            workdir: self.workdir.clone(),
            auto_commit: self.auto_commit,
        }
    }
}

impl Default for Config {
    /// A local vLLM server, the default model, the current directory, no auto-commit.
    fn default() -> (c: Config)
        ensures
            c.endpoint@ == "http://localhost:48000"@,
            c.model@ == "Intel/Qwen3.5-9B-int4-AutoRound"@,
            c.workdir@ == "."@,
            !c.auto_commit,
    {
        Config {
            endpoint: String::from_str("http://localhost:48000"),
            model: String::from_str("Intel/Qwen3.5-9B-int4-AutoRound"),
            workdir: String::from_str("."),
            auto_commit: false,
        }
    }
}

} // verus!
