//! Documentation outlines extracted from Rust and Python sources.
use vstd::prelude::*;
use crate::llm::byte_count;
use crate::path::{extension_of, opt_text, path_extension};
use crate::text::{
    count_where, lemma_contains_iff_occurs, lemma_count_where_mono, occurs, before_first, before_first_exec, contains, contains_str, decimal, decimal_chars, join,
    join_exec, lines, lines_exec, push_all, push_str, second_piece, second_piece_exec, starts_with,
    starts_with_str, str_eq, string_from, to_chars, trim, trim_exec, views,
};

verus! {

/// The entries for public functions among the lines from index `i`: a heading
/// with the name (text after `pub fn ` up to `(`, trimmed) and the trimmed line
/// in a rust code block.
pub open spec fn rust_fn_docs(ls: Seq<Seq<char>>, i: int) -> Seq<Seq<char>>
    decreases ls.len() - i,
{
    if i < 0 || i >= ls.len() {
        seq![]
    } else {
        let here = if contains(ls[i], "pub fn "@) {
            match second_piece(ls[i], "pub fn "@) {
                Some(rest) => seq![
                    "## Function: `"@ + trim(before_first(rest, "("@)) + "`"@,
                    "```rust\n"@ + trim(ls[i]) + "\n```\n"@,
                ],
                None => seq![],
            }
        } else {
            seq![]
        };
        here + rust_fn_docs(ls, i + 1)
    }
}

/// A line documented as a public function: `pub fn ` occurs somewhere in it.
pub open spec fn flags_pub_fn(l: Seq<char>) -> bool {
    occurs(l, "pub fn "@)
}

pub open spec fn pub_fn_flag() -> spec_fn(Seq<char>) -> bool {
    |l: Seq<char>| flags_pub_fn(l)
}

/// The heading for a public function line: the name between the first
/// `pub fn ` and the next `(` (or the next `pub fn `), trimmed.
pub open spec fn pub_fn_heading(l: Seq<char>) -> Seq<char> {
    "## Function: `"@ + trim(before_first(second_piece(l, "pub fn "@)->0, "("@)) + "`"@
}

/// The code block for a public function line: the trimmed line.
pub open spec fn pub_fn_block(l: Seq<char>) -> Seq<char> {
    "```rust\n"@ + trim(l) + "\n```\n"@
}

/// Each line in which `pub fn ` occurs, indented or not, gives exactly two
/// entries, its heading and its code block, and no other line gives any:
/// there are twice as many entries as such lines, and those of such a line
/// `k` follow those of the earlier ones.
pub proof fn law_every_pub_fn_line_is_documented(ls: Seq<Seq<char>>)
    ensures
        rust_fn_docs(ls, 0).len() == 2 * count_where(ls, ls.len() as int, pub_fn_flag()),
        forall|k: int|
            0 <= k < ls.len() && flags_pub_fn(ls[k]) ==> {
                let at: int = 2 * count_where(ls, k, pub_fn_flag()) as int;
                &&& rust_fn_docs(ls, 0)[at] == pub_fn_heading(ls[k])
                &&& rust_fn_docs(ls, 0)[at + 1] == pub_fn_block(ls[k])
            },
{
    lemma_rust_fn_docs_from(ls, 0);
}

proof fn lemma_rust_fn_docs_from(ls: Seq<Seq<char>>, i: int)
    requires
        0 <= i <= ls.len(),
    ensures
        rust_fn_docs(ls, i).len() == 2 * (count_where(ls, ls.len() as int, pub_fn_flag())
            - count_where(ls, i, pub_fn_flag())),
        forall|k: int|
            i <= k < ls.len() && flags_pub_fn(ls[k]) ==> {
                let at: int = 2 * (count_where(ls, k, pub_fn_flag()) - count_where(ls, i, pub_fn_flag()));
                &&& rust_fn_docs(ls, i)[at] == pub_fn_heading(ls[k])
                &&& rust_fn_docs(ls, i)[at + 1] == pub_fn_block(ls[k])
            },
    decreases ls.len() - i,
{
    let f = pub_fn_flag();
    if i < ls.len() {
        lemma_rust_fn_docs_from(ls, i + 1);
        lemma_contains_iff_occurs(ls[i], "pub fn "@);
        assert(f(ls[i]) == flags_pub_fn(ls[i]));
        assert(count_where(ls, i + 1, f) == count_where(ls, i, f) + if f(ls[i]) { 1nat } else { 0nat });
        lemma_count_where_mono(ls, f, i + 1, ls.len() as int);
        let here = if contains(ls[i], "pub fn "@) {
            seq![pub_fn_heading(ls[i]), pub_fn_block(ls[i])]
        } else {
            seq![]
        };
        assert(rust_fn_docs(ls, i) == here + rust_fn_docs(ls, i + 1));
        assert forall|k: int|
            i <= k < ls.len() && flags_pub_fn(ls[k]) implies {
                let at: int = 2 * (count_where(ls, k, f) - count_where(ls, i, f));
                &&& rust_fn_docs(ls, i)[at] == pub_fn_heading(ls[k])
                &&& rust_fn_docs(ls, i)[at + 1] == pub_fn_block(ls[k])
            } by {
            assert(f(ls[k]) == flags_pub_fn(ls[k]));
            lemma_count_where_mono(ls, f, k, ls.len() as int);
            if k > i {
                lemma_count_where_mono(ls, f, i + 1, k);
                let t = rust_fn_docs(ls, i + 1);
                let idx = 2 * (count_where(ls, k, f) - count_where(ls, i + 1, f));
                assert(t[idx] == pub_fn_heading(ls[k]));
                assert(t[idx + 1] == pub_fn_block(ls[k]));
                assert((here + t)[here.len() + idx] == t[idx]);
                assert((here + t)[here.len() + idx + 1] == t[idx + 1]);
            }
        }
    }
}

/// The entries for public structs among the lines from index `i`: a heading
/// with the name (text after `pub struct ` up to `{`, trimmed).
pub open spec fn rust_struct_docs(ls: Seq<Seq<char>>, i: int) -> Seq<Seq<char>>
    decreases ls.len() - i,
{
    if i < 0 || i >= ls.len() {
        seq![]
    } else {
        let here = if contains(ls[i], "pub struct "@) {
            match second_piece(ls[i], "pub struct "@) {
                Some(rest) => seq!["## Struct: `"@ + trim(before_first(rest, "{"@)) + "`"@],
                None => seq![],
            }
        } else {
            seq![]
        };
        here + rust_struct_docs(ls, i + 1)
    }
}

/// The outline of a Rust source: its public functions, then its public
/// structs, or a note that there are none.
pub open spec fn rust_docs(content: Seq<char>) -> Seq<char> {
    let d = rust_fn_docs(lines(content), 0) + rust_struct_docs(lines(content), 0);
    if d.len() == 0 {
        "No public API documentation found."@
    } else {
        join(d, "\n"@)
    }
}

/// The name a Python `def` line declares: the text after `def ` up to `(`.
pub open spec fn python_def_name(line: Seq<char>) -> Seq<char> {
    match second_piece(line, "def "@) {
        Some(rest) => before_first(rest, "("@),
        None => "unknown"@,
    }
}

/// A heading for each line from index `i` that starts with `def ` or `async def `.
pub open spec fn python_fn_docs(ls: Seq<Seq<char>>, i: int) -> Seq<Seq<char>>
    decreases ls.len() - i,
{
    if i < 0 || i >= ls.len() {
        seq![]
    } else {
        let here = if starts_with(ls[i], "def "@) || starts_with(ls[i], "async def "@) {
            seq!["## Function: `"@ + trim(python_def_name(ls[i])) + "`"@]
        } else {
            seq![]
        };
        here + python_fn_docs(ls, i + 1)
    }
}

/// The outline of a Python source: its top-level functions, or a note that there are none.
pub open spec fn python_docs(content: Seq<char>) -> Seq<char> {
    let d = python_fn_docs(lines(content), 0);
    if d.len() == 0 {
        "No function documentation found."@
    } else {
        join(d, "\n"@)
    }
}

/// The documentation of the file at `path`: a title, then the outline for
/// Rust and Python files, or line and byte counts for any other file type.
pub open spec fn file_docs(path: Seq<char>, content: Seq<char>) -> Seq<char> {
    file_docs_for(path, extension_of(path), content)
}

/// The documentation of a file with this path, extension (`unknown` when it
/// has none) and content.
pub open spec fn file_docs_for(path: Seq<char>, extension: Option<Seq<char>>, content: Seq<char>) -> Seq<char> {
    let ext = match extension {
        Some(e) => e,
        None => "unknown"@,
    };
    let body = if ext == "rs"@ {
        seq![rust_docs(content)]
    } else if ext == "py"@ {
        seq![python_docs(content)]
    } else {
        seq![
            "File type '"@ + ext + "' - basic documentation:"@,
            "- Lines: "@ + decimal(lines(content).len()),
            "- Size: "@ + decimal(byte_count(content) as nat) + " bytes"@,
        ]
    };
    join(seq!["# Documentation for "@ + path, Seq::empty()] + body, "\n"@)
}

/// Generates documentation outlines for source files.
pub struct DocGenerator;

fn wrap(prefix: &str, middle: &Vec<char>, suffix: &str) -> (r: Vec<char>)
    ensures
        r@ == prefix@ + middle@ + suffix@,
{
    let mut r = to_chars(prefix);
    push_all(&mut r, middle);
    push_str(&mut r, suffix);
    r
}

fn append_views(parts: &mut Vec<Vec<char>>, more: &Vec<Vec<char>>)
    ensures
        views(final(parts)@) == views(old(parts)@) + views(more@),
{
    let ghost start = views(parts@);
    let mut k: usize = 0;
    while k < more.len()
        invariant
            k <= more@.len(),
            views(parts@) == start + views(more@).take(k as int),
        decreases more@.len() - k,
    {
        let ghost before = views(parts@);
        let item = more[k].clone();
        parts.push(item);
        assert(views(parts@) =~= before.push(item@));
        assert(views(more@).take(k + 1) =~= views(more@).take(k as int).push(more@[k as int]@));
        k = k + 1;
    }
    assert(views(more@).take(k as int) =~= views(more@));
}

impl DocGenerator {
    pub fn new() -> (d: DocGenerator) {
        DocGenerator
    }

    pub fn name(&self) -> (s: &'static str)
        ensures
            s@ == "document"@,
    {
        "document"
    }

    pub fn description(&self) -> (s: &'static str)
        ensures
            s@ == "Generate documentation for code files"@,
    {
        "Generate documentation for code files"
    }

    fn rust_fn_entries(ls: &Vec<Vec<char>>) -> (r: Vec<Vec<char>>)
        ensures
            views(r@) == rust_fn_docs(views(ls@), 0),
    {
        let mut r: Vec<Vec<char>> = Vec::new();
        let mut k: usize = 0;
        while k < ls.len()
            invariant
                k <= ls@.len(),
                views(r@) + rust_fn_docs(views(ls@), k as int) == rust_fn_docs(views(ls@), 0),
            decreases ls@.len() - k,
        {
            let line = &ls[k];
            let ghost before = views(r@);
            assert(views(ls@)[k as int] == line@);
            if contains_str(line, "pub fn ") {
                match second_piece_exec(line, "pub fn ") {
                    Some(rest) => {
                        let name = trim_exec(&before_first_exec(&rest, "("));
                        let heading = wrap("## Function: `", &name, "`");
                        let block = wrap("```rust\n", &trim_exec(line), "\n```\n");
                        r.push(heading);
                        r.push(block);
                        assert(views(r@) =~= before + seq![heading@, block@]);
                    },
                    None => {},
                }
            }
            k = k + 1;
        }
        assert(views(r@) =~= rust_fn_docs(views(ls@), 0));
        r
    }

    fn rust_struct_entries(ls: &Vec<Vec<char>>) -> (r: Vec<Vec<char>>)
        ensures
            views(r@) == rust_struct_docs(views(ls@), 0),
    {
        let mut r: Vec<Vec<char>> = Vec::new();
        let mut k: usize = 0;
        while k < ls.len()
            invariant
                k <= ls@.len(),
                views(r@) + rust_struct_docs(views(ls@), k as int) == rust_struct_docs(
                    views(ls@),
                    0,
                ),
            decreases ls@.len() - k,
        {
            let line = &ls[k];
            let ghost before = views(r@);
            assert(views(ls@)[k as int] == line@);
            if contains_str(line, "pub struct ") {
                match second_piece_exec(line, "pub struct ") {
                    Some(rest) => {
                        let name = trim_exec(&before_first_exec(&rest, "{"));
                        let heading = wrap("## Struct: `", &name, "`");
                        r.push(heading);
                        assert(views(r@) =~= before + seq![heading@]);
                    },
                    None => {},
                }
            }
            k = k + 1;
        }
        assert(views(r@) =~= rust_struct_docs(views(ls@), 0));
        r
    }

    /// The outline of a Rust source.
    pub fn extract_rust_docs(&self, content: &str) -> (s: String)
        ensures
            s@ == rust_docs(content@),
    {
        let ls = lines_exec(&to_chars(content));
        let mut docs = Self::rust_fn_entries(&ls);
        let structs = Self::rust_struct_entries(&ls);
        append_views(&mut docs, &structs);
        if docs.len() == 0 {
            String::from_str("No public API documentation found.")
        } else {
            string_from(&join_exec(&docs, "\n"))
        }
    }

    /// The outline of a Python source.
    pub fn extract_python_docs(&self, content: &str) -> (s: String)
        ensures
            s@ == python_docs(content@),
    {
        let ls = lines_exec(&to_chars(content));
        let mut r: Vec<Vec<char>> = Vec::new();
        let mut k: usize = 0;
        while k < ls.len()
            invariant
                k <= ls@.len(),
                views(ls@) == lines(content@),
                views(r@) + python_fn_docs(views(ls@), k as int) == python_fn_docs(
                    views(ls@),
                    0,
                ),
            decreases ls@.len() - k,
        {
            let line = &ls[k];
            let ghost before = views(r@);
            assert(views(ls@)[k as int] == line@);
            if starts_with_str(line, "def ") || starts_with_str(line, "async def ") {
                let name = match second_piece_exec(line, "def ") {
                    Some(rest) => before_first_exec(&rest, "("),
                    None => to_chars("unknown"),
                };
                let heading = wrap("## Function: `", &trim_exec(&name), "`");
                r.push(heading);
                assert(views(r@) =~= before + seq![heading@]);
            }
            k = k + 1;
        }
        assert(views(r@) =~= python_fn_docs(views(ls@), 0));
        if r.len() == 0 {
            String::from_str("No function documentation found.")
        } else {
            string_from(&join_exec(&r, "\n"))
        }
    }

    /// The documentation of a file with this path and content.
    pub fn generate_file_docs(&self, path: &str, content: &str) -> (s: String)
        ensures
            s@ == file_docs(path@, content@),
    {
        match path_extension(path) {
            Some(e) => self.generate_file_docs_with_extension(path, Some(e.as_str()), content),
            None => self.generate_file_docs_with_extension(path, None, content),
        }
    }

    /// The documentation of a file with this path, extension and content:
    /// Rust and Python sources get their outline, other files line and byte counts.
    pub fn generate_file_docs_with_extension(&self, path: &str, extension: Option<&str>, content: &str) -> (s: String)
        ensures
            s@ == file_docs_for(path@, opt_text(extension), content@),
    {
        let ext = match extension {
            Some(e) => String::from_str(e),
            None => String::from_str("unknown"),
        };
        let mut docs: Vec<Vec<char>> = Vec::new();
        let mut title = to_chars("# Documentation for ");
        push_str(&mut title, path);
        docs.push(title);
        docs.push(Vec::new());
        let ghost head = views(docs@);
        if str_eq(ext.as_str(), "rs") {
            docs.push(to_chars(self.extract_rust_docs(content).as_str()));
        } else if str_eq(ext.as_str(), "py") {
            docs.push(to_chars(self.extract_python_docs(content).as_str()));
        } else {
            let mut l0 = to_chars("File type '");
            push_str(&mut l0, ext.as_str());
            push_str(&mut l0, "' - basic documentation:");
            docs.push(l0);
            let mut l1 = to_chars("- Lines: ");
            let text = to_chars(content);
            push_all(&mut l1, &decimal_chars(lines_exec(&text).len() as u64));
            docs.push(l1);
            let mut l2 = to_chars("- Size: ");
            push_all(&mut l2, &decimal_chars(content.len() as u64));
            push_str(&mut l2, " bytes");
            docs.push(l2);
        }
        proof {
            assert(head =~= seq!["# Documentation for "@ + path@, Seq::<char>::empty()]);
            let e = match opt_text(extension) {
                Some(e) => e,
                None => "unknown"@,
            };
            assert(e == ext@);
            if e == "rs"@ {
                assert(views(docs@) =~= head + seq![rust_docs(content@)]);
            } else if e == "py"@ {
                assert(views(docs@) =~= head + seq![python_docs(content@)]);
            } else {
                assert(views(docs@) =~= head + seq![
                    "File type '"@ + e + "' - basic documentation:"@,
                    "- Lines: "@ + decimal(lines(content@).len()),
                    "- Size: "@ + decimal(byte_count(content@) as nat) + " bytes"@,
                ]);
            }
        }
        string_from(&join_exec(&docs, "\n"))
    }
}

} // verus!
