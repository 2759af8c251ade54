//! Boilerplate generation for new source files.
use vstd::prelude::*;
use crate::path::{extension_of, file_stem_of, path_extension, path_file_stem};
use crate::text::{push_str, str_eq, string_from, to_chars, trim, trim_exec};

verus! {

/// A request to create a file: where, what for, and optionally in which language.
#[derive(Debug)]
pub struct GenerateRequest {
    pub path: String,
    pub description: String,
    pub language: Option<String>,
}

impl GenerateRequest {
    /// The request an argument string stands for when it is not a JSON
    /// request: the trimmed text is the path, boilerplate is wanted, and the
    /// language is left to the file's extension.
    pub fn from_plain_args(args: &str) -> (r: GenerateRequest)
        ensures
            r.path@ == trim(args@),
            r.description@ == "Generate boilerplate"@,
            r.language is None,
    {
        let path = trim_exec(&to_chars(args));
        GenerateRequest {
            path: string_from(&path),
            description: String::from_str("Generate boilerplate"),
            language: None,
        }
    }
}

/// The language named by a file extension.
pub open spec fn language_of(ext: Option<Seq<char>>) -> Seq<char> {
    match ext {
        Some(e) => if e == "rs"@ {
            "rust"@
        } else if e == "py"@ {
            "python"@
        } else if e == "js"@ {
            "javascript"@
        } else if e == "ts"@ {
            "typescript"@
        } else if e == "go"@ {
            "go"@
        } else if e == "c"@ {
            "c"@
        } else if e == "cpp"@ {
            "cpp"@
        } else {
            "unknown"@
        },
        None => "unknown"@,
    }
}

/// The starter file for a module called `name` in `language`.
pub open spec fn boilerplate(name: Seq<char>, language: Seq<char>) -> Seq<char> {
    if language == "rust"@ {
        "//! "@ + name + " module\n\nuse anyhow::Result;\n\n/// TODO: Implement "@ + name
            + " functionality\npub fn run() -> Result<()> {\n    todo!(\"Implement "@ + name
            + "\")\n}\n\n#[cfg(test)]\nmod tests {\n    use super::*;\n\n    #[test]\n    fn test_run() {\n        // TODO: Add tests\n    }\n}\n"@
    } else if language == "python"@ {
        "\"\"\""@ + name + " module.\"\"\"\n\n\ndef run():\n    \"\"\"TODO: Implement "@ + name
            + " functionality.\"\"\"\n    raise NotImplementedError(\"Implement "@ + name
            + "\")\n\n\nif __name__ == \"__main__\":\n    run()\n"@
    } else {
        "// "@ + name + " module\n// TODO: Implement functionality\n"@
    }
}

/// The module name used for the path with this text: its file stem, else `module`.
pub open spec fn module_name(path: Seq<char>) -> Seq<char> {
    match file_stem_of(path) {
        Some(s) => s,
        None => "module"@,
    }
}

/// The language a request asks for, else the one its path's extension names.
pub open spec fn request_language(r: GenerateRequest) -> Seq<char> {
    match r.language {
        Some(l) => l@,
        None => language_of(extension_of(r.path@)),
    }
}

/// What to create for a request: the file, its language and its content.
#[derive(Debug)]
pub struct GeneratePlan {
    pub path: String,
    pub language: String,
    pub content: String,
}

/// Creates source files with boilerplate.
pub struct CodeGenerator;

impl CodeGenerator {
    pub fn new() -> (g: CodeGenerator) {
        CodeGenerator
    }

    pub fn name(&self) -> (s: &'static str)
        ensures
            s@ == "generate"@,
    {
        "generate"
    }

    pub fn description(&self) -> (s: &'static str)
        ensures
            s@ == "Generate code files with boilerplate or from description"@,
    {
        "Generate code files with boilerplate or from description"
    }

    /// The language named by an extension (`rs` is rust, and so on).
    pub fn language_for_extension(ext: Option<&str>) -> (l: &'static str)
        ensures
            l@ == language_of(
                match ext {
                    Some(e) => Some(e@),
                    None => None,
                },
            ),
    {
        match ext {
            Some(e) => if str_eq(e, "rs") {
                "rust"
            } else if str_eq(e, "py") {
                "python"
            } else if str_eq(e, "js") {
                "javascript"
            } else if str_eq(e, "ts") {
                "typescript"
            } else if str_eq(e, "go") {
                "go"
            } else if str_eq(e, "c") {
                "c"
            } else if str_eq(e, "cpp") {
                "cpp"
            } else {
                "unknown"
            },
            None => "unknown",
        }
    }

    /// The language of the file at `path`, from its extension.
    pub fn detect_language(&self, path: &str) -> (l: &'static str)
        ensures
            l@ == language_of(extension_of(path@)),
    {
        let ext = path_extension(path);
        match &ext {
            Some(e) => Self::language_for_extension(Some(e.as_str())),
            None => Self::language_for_extension(None),
        }
    }

    /// The starter content for a module called `name` in `language`.
    pub fn boilerplate_for(name: &str, language: &str) -> (s: String)
        ensures
            s@ == boilerplate(name@, language@),
    {
        let mut out: Vec<char> = Vec::new();
        if str_eq(language, "rust") {
            push_str(&mut out, "//! ");
            push_str(&mut out, name);
            push_str(&mut out, " module\n\nuse anyhow::Result;\n\n/// TODO: Implement ");
            push_str(&mut out, name);
            push_str(&mut out, " functionality\npub fn run() -> Result<()> {\n    todo!(\"Implement ");
            push_str(&mut out, name);
            push_str(
                &mut out,
                "\")\n}\n\n#[cfg(test)]\nmod tests {\n    use super::*;\n\n    #[test]\n    fn test_run() {\n        // TODO: Add tests\n    }\n}\n",
            );
        } else if str_eq(language, "python") {
            push_str(&mut out, "\"\"\"");
            push_str(&mut out, name);
            push_str(&mut out, " module.\"\"\"\n\n\ndef run():\n    \"\"\"TODO: Implement ");
            push_str(&mut out, name);
            push_str(&mut out, " functionality.\"\"\"\n    raise NotImplementedError(\"Implement ");
            push_str(&mut out, name);
            push_str(&mut out, "\")\n\n\nif __name__ == \"__main__\":\n    run()\n");
        } else {
            push_str(&mut out, "// ");
            push_str(&mut out, name);
            push_str(&mut out, " module\n// TODO: Implement functionality\n");
        }
        string_from(&out)
    }

    /// The boilerplate for the file at `path`, named after its file stem.
    pub fn generate_boilerplate(&self, path: &str, language: &str) -> (s: String)
        ensures
            s@ == boilerplate(module_name(path@), language@),
    {
        let stem = path_file_stem(path);
        match &stem {
            Some(n) => Self::boilerplate_for(n.as_str(), language),
            None => Self::boilerplate_for("module", language),
        }
    }

    /// What to write for a request: its path, its language (as asked, else from
    /// the extension) and the boilerplate in that language.
    pub fn plan(&self, request: &GenerateRequest) -> (p: GeneratePlan)
        ensures
            p.path@ == request.path@,
            p.language@ == request_language(*request),
            p.content@ == boilerplate(module_name(request.path@), request_language(*request)),
    {
        let language = match &request.language {
            Some(l) => l.clone(),
            None => String::from_str(self.detect_language(request.path.as_str())),
        };
        let content = self.generate_boilerplate(request.path.as_str(), language.as_str());
        GeneratePlan { path: request.path.clone(), language, content }
    }

    /// The result reported when the target file already exists.
    pub fn exists_result(path: &str) -> (r: crate::tools::ToolResult)
        ensures
            crate::tools::is_error_result(r, "File already exists: "@ + path@),
    {
        let mut msg = to_chars("File already exists: ");
        push_str(&mut msg, path);
        crate::tools::ToolResult::error(string_from(&msg).as_str())
    }

    /// The result reported once the file is written.
    pub fn created_result(plan: &GeneratePlan) -> (r: crate::tools::ToolResult)
        ensures
            r.success,
            r.output@ == "Created "@ + plan.path@ + " with "@ + plan.language@ + " boilerplate"@,
            r.error is None,
    {
        let mut msg = to_chars("Created ");
        push_str(&mut msg, plan.path.as_str());
        push_str(&mut msg, " with ");
        push_str(&mut msg, plan.language.as_str());
        push_str(&mut msg, " boilerplate");
        proof {
            assert(msg@ =~= "Created "@ + plan.path@ + " with "@ + plan.language@ + " boilerplate"@);
        }
        crate::tools::ToolResult::success(string_from(&msg).as_str())
    }
}

} // verus!
