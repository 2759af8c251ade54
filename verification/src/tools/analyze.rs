//! Code metrics for one file and line totals for a directory of code files.
use vstd::prelude::*;
use crate::llm::byte_count;
use crate::path::{extension_of, opt_text, path_extension};
use crate::text::{
    contains, count_where, lemma_contains_iff_occurs, lemma_count_where_mono, occurs, contains_str, count_matches, count_str, decimal, decimal_chars, join, join_exec,
    lines, lines_exec, push_all, push_str, str_eq, string_from, to_chars, trim, trim_exec, views,
};

verus! {

/// What the analysis calls the language of a file with this extension: the
/// extension itself, else `unknown`.
pub open spec fn language_label(ext: Option<Seq<char>>) -> Seq<char> {
    match ext {
        Some(e) => e,
        None => "unknown"@,
    }
}

/// One report line per line (from index `i`) mentioning `TODO` or `FIXME`:
/// its 1-based number and its trimmed text.
pub open spec fn todo_lines(ls: Seq<Seq<char>>, i: int) -> Seq<Seq<char>>
    decreases ls.len() - i,
{
    if i < 0 || i >= ls.len() {
        seq![]
    } else {
        let here = if contains(ls[i], "TODO"@) || contains(ls[i], "FIXME"@) {
            seq!["  Line "@ + decimal((i + 1) as nat) + ": "@ + trim(ls[i])]
        } else {
            seq![]
        };
        here + todo_lines(ls, i + 1)
    }
}

/// A line the analysis reports: `TODO` or `FIXME` occurs somewhere in it.
pub open spec fn flags_todo(l: Seq<char>) -> bool {
    occurs(l, "TODO"@) || occurs(l, "FIXME"@)
}

pub open spec fn todo_flag() -> spec_fn(Seq<char>) -> bool {
    |l: Seq<char>| flags_todo(l)
}

/// The report entry for line `k`: its 1-based number and its trimmed text.
pub open spec fn todo_entry(ls: Seq<Seq<char>>, k: int) -> Seq<char> {
    "  Line "@ + decimal((k + 1) as nat) + ": "@ + trim(ls[k])
}

/// The TODO/FIXME report lists exactly the lines in which `TODO` or `FIXME`
/// occurs, each once and in order: there are as many entries as such lines,
/// and the entry for such a line `k` comes after those of the earlier ones.
pub proof fn law_todo_report_lists_flagged_lines(ls: Seq<Seq<char>>)
    ensures
        todo_lines(ls, 0).len() == count_where(ls, ls.len() as int, todo_flag()),
        forall|k: int|
            0 <= k < ls.len() && flags_todo(ls[k]) ==> todo_lines(ls, 0)[count_where(
                ls,
                k,
                todo_flag(),
            ) as int] == todo_entry(ls, k),
{
    lemma_todo_lines_from(ls, 0);
}

proof fn lemma_todo_lines_from(ls: Seq<Seq<char>>, i: int)
    requires
        0 <= i <= ls.len(),
    ensures
        todo_lines(ls, i).len() == count_where(ls, ls.len() as int, todo_flag()) - count_where(
            ls,
            i,
            todo_flag(),
        ),
        forall|k: int|
            i <= k < ls.len() && flags_todo(ls[k]) ==> todo_lines(ls, i)[count_where(
                ls,
                k,
                todo_flag(),
            ) - count_where(ls, i, todo_flag())] == todo_entry(ls, k),
    decreases ls.len() - i,
{
    let f = todo_flag();
    if i < ls.len() {
        lemma_todo_lines_from(ls, i + 1);
        lemma_contains_iff_occurs(ls[i], "TODO"@);
        lemma_contains_iff_occurs(ls[i], "FIXME"@);
        assert(f(ls[i]) == flags_todo(ls[i]));
        assert(count_where(ls, i + 1, f) == count_where(ls, i, f) + if f(ls[i]) { 1nat } else { 0nat });
        lemma_count_where_mono(ls, f, i + 1, ls.len() as int);
        let here = if contains(ls[i], "TODO"@) || contains(ls[i], "FIXME"@) {
            seq!["  Line "@ + decimal((i + 1) as nat) + ": "@ + trim(ls[i])]
        } else {
            seq![]
        };
        assert(todo_lines(ls, i) == here + todo_lines(ls, i + 1));
        assert forall|k: int|
            i <= k < ls.len() && flags_todo(ls[k]) implies todo_lines(ls, i)[count_where(ls, k, f)
            - count_where(ls, i, f)] == todo_entry(ls, k) by {
            assert(f(ls[k]) == flags_todo(ls[k]));
            lemma_count_where_mono(ls, f, k, ls.len() as int);
            if k > i {
                lemma_count_where_mono(ls, f, i + 1, k);
                let t = todo_lines(ls, i + 1);
                let idx = count_where(ls, k, f) - count_where(ls, i + 1, f);
                assert(t[idx] == todo_entry(ls, k));
                assert((here + t)[here.len() + idx] == t[idx]);
            } else {
                assert(here[0] == todo_entry(ls, k));
            }
        }
    }
}

/// A report line `label` + `n` when `n` is not zero.
pub open spec fn count_line(label: Seq<char>, n: nat) -> Seq<Seq<char>> {
    if n > 0 {
        seq![label + decimal(n)]
    } else {
        seq![]
    }
}

/// The report lines of one file's analysis, the path's extension being `ext`.
pub open spec fn file_analysis_lines_for(path: Seq<char>, ext: Option<Seq<char>>, content: Seq<char>) -> Seq<Seq<char>> {
    let todos = todo_lines(lines(content), 0);
    seq![
        "File: "@ + path,
        "Language: "@ + language_label(ext),
        "Lines: "@ + decimal(lines(content).len()),
        "Size: "@ + decimal(byte_count(content) as nat) + " bytes"@,
    ] + count_line("Functions: "@, count_matches(content, "fn "@)) + count_line(
        "Structs: "@,
        count_matches(content, "struct "@),
    ) + count_line("Enums: "@, count_matches(content, "enum "@)) + count_line(
        "Impl blocks: "@,
        count_matches(content, "impl "@),
    ) + if todos.len() > 0 {
        seq!["TODOs/FIXMEs:"@] + todos
    } else {
        seq![]
    }
}

/// The report lines of one file's analysis, the extension being the one
/// `Path::extension` finds in the path.
pub open spec fn file_analysis_lines(path: Seq<char>, content: Seq<char>) -> Seq<Seq<char>> {
    file_analysis_lines_for(path, extension_of(path), content)
}

/// A file read during a directory walk: its extension, and its text when it could be read.
#[derive(Debug)]
pub struct CodeFile {
    pub extension: Option<String>,
    pub content: Option<String>,
}

/// The extensions the directory walk counts as code.
pub open spec fn is_code_ext(e: Seq<char>) -> bool {
    e == "rs"@ || e == "py"@ || e == "js"@ || e == "ts"@ || e == "go"@ || e == "c"@ || e == "cpp"@
}

/// Whether a file counts as a readable code file.
pub open spec fn counted(f: CodeFile) -> bool {
    &&& f.extension matches Some(e) && is_code_ext(e@)
    &&& f.content is Some
}

/// Number of counted files among `fs[i..]`.
pub open spec fn counted_files(fs: Seq<CodeFile>, i: int) -> nat
    decreases fs.len() - i,
{
    if i < 0 || i >= fs.len() {
        0
    } else {
        (if counted(fs[i]) {
            1nat
        } else {
            0nat
        }) + counted_files(fs, i + 1)
    }
}

/// Total lines of the counted files among `fs[i..]`.
pub open spec fn counted_lines(fs: Seq<CodeFile>, i: int) -> nat
    decreases fs.len() - i,
{
    if i < 0 || i >= fs.len() {
        0
    } else {
        (if counted(fs[i]) {
            lines(fs[i].content->0@).len()
        } else {
            0nat
        }) + counted_lines(fs, i + 1)
    }
}

/// The directory report: its path, how many code files, how many lines in them.
pub open spec fn directory_report(dir: Seq<char>, files: nat, total_lines: nat) -> Seq<char> {
    join(
        seq![
            "Directory: "@ + dir,
            "Code files: "@ + decimal(files),
            "Total lines: "@ + decimal(total_lines),
        ],
        "\n"@,
    )
}

/// Analyzes code files and directories.
pub struct CodeAnalyzer;

fn labelled(label: &str, digits: &Vec<char>) -> (r: Vec<char>)
    ensures
        r@ == label@ + digits@,
{
    let mut r = to_chars(label);
    push_all(&mut r, digits);
    r
}

impl CodeAnalyzer {
    pub fn new() -> (a: CodeAnalyzer) {
        CodeAnalyzer
    }

    pub fn name(&self) -> (s: &'static str)
        ensures
            s@ == "analyze"@,
    {
        "analyze"
    }

    pub fn description(&self) -> (s: &'static str)
        ensures
            s@ == "Analyze code files or directories for metrics and structure"@,
    {
        "Analyze code files or directories for metrics and structure"
    }

    /// Whether an extension belongs to a language the directory walk counts.
    pub fn is_code_extension(ext: &str) -> (b: bool)
        ensures
            b == is_code_ext(ext@),
    {
        str_eq(ext, "rs") || str_eq(ext, "py") || str_eq(ext, "js") || str_eq(ext, "ts")
            || str_eq(ext, "go") || str_eq(ext, "c") || str_eq(ext, "cpp")
    }

    /// The analysis of a file with this path and content: name, language,
    /// line count, byte size, counts of `fn `, `struct `, `enum ` and `impl `
    /// (those that occur), and the lines that mention `TODO` or `FIXME`.
    pub fn analyze_content(&self, path: &str, content: &str) -> (s: String)
        ensures
            s@ == join(file_analysis_lines(path@, content@), "\n"@),
    {
        match path_extension(path) {
            Some(e) => self.analyze_content_with_extension(path, Some(e.as_str()), content),
            None => self.analyze_content_with_extension(path, None, content),
        }
    }

    /// The analysis of a file with this path, extension and content; the
    /// language line names the extension, or `unknown` when there is none.
    pub fn analyze_content_with_extension(&self, path: &str, ext: Option<&str>, content: &str) -> (s: String)
        ensures
            s@ == join(file_analysis_lines_for(path@, opt_text(ext), content@), "\n"@),
    {
        let text = to_chars(content);
        let ls = lines_exec(&text);
        let mut parts: Vec<Vec<char>> = Vec::new();
        let mut p0 = to_chars("File: ");
        push_str(&mut p0, path);
        parts.push(p0);
        let mut p1 = to_chars("Language: ");
        match ext {
            Some(e) => push_str(&mut p1, e),
            None => push_str(&mut p1, "unknown"),
        }
        parts.push(p1);
        parts.push(labelled("Lines: ", &decimal_chars(ls.len() as u64)));
        let mut p3 = labelled("Size: ", &decimal_chars(content.len() as u64));
        push_str(&mut p3, " bytes");
        parts.push(p3);
        let ghost head = views(parts@);
        let functions = count_str(&text, "fn ");
        if functions > 0 {
            parts.push(labelled("Functions: ", &decimal_chars(functions as u64)));
        }
        let ghost after_fn = views(parts@);
        let structs = count_str(&text, "struct ");
        if structs > 0 {
            parts.push(labelled("Structs: ", &decimal_chars(structs as u64)));
        }
        let ghost after_struct = views(parts@);
        let enums = count_str(&text, "enum ");
        if enums > 0 {
            parts.push(labelled("Enums: ", &decimal_chars(enums as u64)));
        }
        let ghost after_enum = views(parts@);
        let impls = count_str(&text, "impl ");
        if impls > 0 {
            parts.push(labelled("Impl blocks: ", &decimal_chars(impls as u64)));
        }
        let ghost after_impl = views(parts@);
        let todos = Self::todo_report(&ls);
        if todos.len() > 0 {
            parts.push(to_chars("TODOs/FIXMEs:"));
            let ghost mid = views(parts@);
            let mut k: usize = 0;
            while k < todos.len()
                invariant
                    k <= todos@.len(),
                    views(parts@) == mid + views(todos@).take(k as int),
                decreases todos@.len() - k,
            {
                let ghost before = views(parts@);
                let item = todos[k].clone();
                parts.push(item);
                assert(views(parts@) =~= before.push(item@));
                assert(views(todos@).take(k + 1) =~= views(todos@).take(k as int).push(todos@[k as int]@));
                k = k + 1;
            }
            assert(views(todos@).take(k as int) =~= views(todos@));
        }
        proof {
            let lsv = lines(content@);
            assert(head =~= seq![
                "File: "@ + path@,
                "Language: "@ + language_label(opt_text(ext)),
                "Lines: "@ + decimal(lsv.len()),
                "Size: "@ + decimal(byte_count(content@) as nat) + " bytes"@,
            ]);
            assert(after_fn =~= head + count_line("Functions: "@, count_matches(content@, "fn "@)));
            assert(after_struct =~= after_fn + count_line(
                "Structs: "@,
                count_matches(content@, "struct "@),
            ));
            assert(after_enum =~= after_struct + count_line("Enums: "@, count_matches(content@, "enum "@)));
            assert(after_impl =~= after_enum + count_line(
                "Impl blocks: "@,
                count_matches(content@, "impl "@),
            ));
            let t = todo_lines(lsv, 0);
            if t.len() > 0 {
                assert(views(parts@) =~= after_impl + (seq!["TODOs/FIXMEs:"@] + t));
            } else {
                assert(views(parts@) =~= after_impl + Seq::<Seq<char>>::empty());
            }
            assert(views(parts@) =~= file_analysis_lines_for(path@, opt_text(ext), content@));
        }
        string_from(&join_exec(&parts, "\n"))
    }

    /// The `  Line N: text` entries for the lines mentioning `TODO` or `FIXME`.
    fn todo_report(ls: &Vec<Vec<char>>) -> (r: Vec<Vec<char>>)
        ensures
            views(r@) == todo_lines(views(ls@), 0),
    {
        let mut r: Vec<Vec<char>> = Vec::new();
        let mut k: usize = 0;
        while k < ls.len()
            invariant
                k <= ls@.len(),
                views(r@) + todo_lines(views(ls@), k as int) == todo_lines(views(ls@), 0),
            decreases ls@.len() - k,
        {
            let line = &ls[k];
            let ghost before = views(r@);
            if contains_str(line, "TODO") || contains_str(line, "FIXME") {
                let mut entry = to_chars("  Line ");
                let digits = decimal_chars(k as u64 + 1);
                push_all(&mut entry, &digits);
                push_str(&mut entry, ": ");
                let t = trim_exec(line);
                push_all(&mut entry, &t);
                r.push(entry);
                assert(views(r@) =~= before + seq![entry@]);
            }
            assert(views(ls@)[k as int] == ls@[k as int]@);
            k = k + 1;
        }
        assert(views(r@) =~= todo_lines(views(ls@), 0));
        r
    }

    /// The directory report over the files a walk found: how many are
    /// readable code files and how many lines they hold together.
    /// Gives `None` when the line total does not fit in a `usize`.
    pub fn analyze_files(&self, dir: &str, files: &Vec<CodeFile>) -> (s: Option<String>)
        ensures
            s is None <==> counted_lines(files@, 0) > usize::MAX,
            s matches Some(r) ==> r@ == directory_report(
                dir@,
                counted_files(files@, 0),
                counted_lines(files@, 0),
            ),
    {
        let mut total_lines: usize = 0;
        let mut total_files: usize = 0;
        let mut k: usize = 0;
        proof {
            lemma_counted_bounds(files@, 0);
        }
        while k < files.len()
            invariant
                k <= files@.len(),
                total_files + counted_files(files@, k as int) == counted_files(files@, 0),
                total_lines + counted_lines(files@, k as int) == counted_lines(files@, 0),
                counted_files(files@, 0) <= files@.len(),
            decreases files@.len() - k,
        {
            let f = &files[k];
            proof {
                lemma_counted_bounds(files@, k + 1);
            }
            match (&f.extension, &f.content) {
                (Some(e), Some(c)) => {
                    if Self::is_code_extension(e.as_str()) {
                        let n = lines_exec(&to_chars(c.as_str())).len();
                        if n > usize::MAX - total_lines {
                            return None;
                        }
                        total_lines = total_lines + n;
                        total_files = total_files + 1;
                    }
                },
                _ => {},
            }
            k = k + 1;
        }
        let mut parts: Vec<Vec<char>> = Vec::new();
        let mut p0 = to_chars("Directory: ");
        push_str(&mut p0, dir);
        parts.push(p0);
        parts.push(labelled("Code files: ", &decimal_chars(total_files as u64)));
        parts.push(labelled("Total lines: ", &decimal_chars(total_lines as u64)));
        proof {
            assert(views(parts@) =~= seq![
                "Directory: "@ + dir@,
                "Code files: "@ + decimal(counted_files(files@, 0)),
                "Total lines: "@ + decimal(counted_lines(files@, 0)),
            ]);
        }
        Some(string_from(&join_exec(&parts, "\n")))
    }
}

proof fn lemma_counted_bounds(fs: Seq<CodeFile>, i: int)
    requires
        0 <= i,
    ensures
        counted_files(fs, i) <= if i <= fs.len() {
            fs.len() - i
        } else {
            0
        },
    decreases fs.len() - i,
{
    if i < fs.len() {
        lemma_counted_bounds(fs, i + 1);
    }
}

} // verus!
