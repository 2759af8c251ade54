//! Code-smell detection (long functions, magic numbers, duplicated blocks)
//! and the rename refactoring.
use vstd::prelude::*;
use crate::text::{
    chars_eq, contains, contains_str, count_char, count_matches, count_str, decimal, decimal_chars,
    is_digit, join, join_exec, lines, lines_exec, parse_i64, parse_i64_exec, push_all, push_str,
    replace_all, replace_exec, signed_decimal, signed_decimal_chars, starts_with, starts_with_str,
    string_from, to_chars, trim, trim_exec, views, words, words_exec,
};
use crate::tools::{is_error_result, ToolResult};

verus! {

/// The report line for a long function.
pub open spec fn long_fn_message(start_line: nat, length: nat) -> Seq<char> {
    "Long function starting at line "@ + decimal(start_line) + " ("@ + decimal(length)
        + " lines)"@
}

/// Whether a line opens a function: it holds `fn ` and an opening brace.
pub open spec fn opens_fn(line: Seq<char>) -> bool {
    contains(line, "fn "@) && contains(line, "{"@)
}

/// Long functions among the lines from index `i`. `start` is the line where the
/// function being tracked opened, `braces` its open-brace balance. A line that
/// opens a function restarts tracking with balance 1; inside a function each
/// line adds its `{` and subtracts its `}`; at balance 0 the function ends, and
/// it is reported when it spans more than 50 lines after its first.
pub open spec fn long_fn_scan(ls: Seq<Seq<char>>, i: int, start: Option<int>, braces: int) -> Seq<
    Seq<char>,
>
    decreases ls.len() - i,
{
    if i < 0 || i >= ls.len() {
        seq![]
    } else if opens_fn(ls[i]) {
        long_fn_scan(ls, i + 1, Some(i), 1)
    } else {
        match start {
            Some(st) => {
                let b = braces + count_char(ls[i], '{') - count_char(ls[i], '}');
                if b == 0 {
                    let length = i - st;
                    (if length > 50 {
                        seq![long_fn_message((st + 1) as nat, length as nat)]
                    } else {
                        seq![]
                    }) + long_fn_scan(ls, i + 1, None, 0)
                } else {
                    long_fn_scan(ls, i + 1, Some(st), b)
                }
            },
            None => long_fn_scan(ls, i + 1, None, braces),
        }
    }
}

/// The brace balance never leaves the range of `i32` during the scan.
pub open spec fn braces_fit(ls: Seq<Seq<char>>, i: int, start: Option<int>, braces: int) -> bool
    decreases ls.len() - i,
{
    if i < 0 || i >= ls.len() {
        true
    } else if opens_fn(ls[i]) {
        braces_fit(ls, i + 1, Some(i), 1)
    } else {
        match start {
            Some(st) => {
                let up = braces + count_char(ls[i], '{');
                let b = up - count_char(ls[i], '}');
                &&& count_char(ls[i], '{') <= i32::MAX
                &&& count_char(ls[i], '}') <= i32::MAX
                &&& i32::MIN <= up <= i32::MAX
                &&& i32::MIN <= b <= i32::MAX
                &&& if b == 0 {
                    braces_fit(ls, i + 1, None, 0)
                } else {
                    braces_fit(ls, i + 1, Some(st), b)
                }
            },
            None => braces_fit(ls, i + 1, None, braces),
        }
    }
}

/// Whether the magic-number check looks at a (trimmed) line: not a comment
/// line (`//` or `*` first) and holding a decimal digit.
pub open spec fn scanned_for_numbers(t: Seq<char>) -> bool {
    &&& !starts_with(t, "//"@)
    &&& !starts_with(t, "*"@)
    &&& exists|k: int| 0 <= k < t.len() && is_digit(#[trigger] t[k])
}

/// The report line for a magic number.
pub open spec fn magic_message(num: int, line_no: nat) -> Seq<char> {
    "Possible magic number "@ + signed_decimal(num) + " at line "@ + decimal(line_no)
}

/// Magic numbers among the words from index `w` of a line numbered `line_no`:
/// words that parse as an `i64` other than 0, 1 and -1, without a `.`.
pub open spec fn magic_in_words(ws: Seq<Seq<char>>, w: int, line_no: nat) -> Seq<Seq<char>>
    decreases ws.len() - w,
{
    if w < 0 || w >= ws.len() {
        seq![]
    } else {
        let here = match parse_i64(ws[w]) {
            Some(num) => if num != 0 && num != 1 && num != -1 && !contains(ws[w], "."@) {
                seq![magic_message(num, line_no)]
            } else {
                seq![]
            },
            None => seq![],
        };
        here + magic_in_words(ws, w + 1, line_no)
    }
}

/// Magic numbers in the lines from index `i`, in order.
pub open spec fn magic_scan(ls: Seq<Seq<char>>, i: int) -> Seq<Seq<char>>
    decreases ls.len() - i,
{
    if i < 0 || i >= ls.len() {
        seq![]
    } else {
        let t = trim(ls[i]);
        (if scanned_for_numbers(t) {
            magic_in_words(words(t), 0, (i + 1) as nat)
        } else {
            seq![]
        }) + magic_scan(ls, i + 1)
    }
}

/// The five lines from index `i`, joined with newlines.
pub open spec fn window(ls: Seq<Seq<char>>, i: int) -> Seq<char> {
    join(ls.subrange(i, i + 5), "\n"@)
}

/// How many windows the duplicate check compares: the line count less five, at least zero.
pub open spec fn window_bound(n: nat) -> int {
    if n >= 5 {
        n - 5
    } else {
        0
    }
}

/// The report line for a duplicated block.
pub open spec fn duplicate_message(a: nat, b: nat) -> Seq<char> {
    "Duplicate code block at lines "@ + decimal(a) + " and "@ + decimal(b)
}

/// Duplicates of window `i` among the windows from `j` below `bound`.
pub open spec fn dup_inner(ls: Seq<Seq<char>>, bound: int, i: int, j: int) -> Seq<Seq<char>>
    decreases bound - j,
{
    if j >= bound || j < 0 {
        seq![]
    } else {
        (if window(ls, i) == window(ls, j) && trim(window(ls, i)).len() != 0 {
            seq![duplicate_message((i + 1) as nat, (j + 1) as nat)]
        } else {
            seq![]
        }) + dup_inner(ls, bound, i, j + 1)
    }
}

/// Duplicated blocks: each window from `i` below `bound` compared with every
/// later window at least five lines further on.
pub open spec fn dup_outer(ls: Seq<Seq<char>>, bound: int, i: int) -> Seq<Seq<char>>
    decreases bound - i,
{
    if i >= bound || i < 0 {
        seq![]
    } else {
        dup_inner(ls, bound, i, i + 5) + dup_outer(ls, bound, i + 1)
    }
}

/// Windows `i` and `j` form a duplicated block: both start below `bound`,
/// `j` at least five lines after `i`, and the two five-line windows are
/// equal and not blank.
pub open spec fn duplicate_pair(ls: Seq<Seq<char>>, bound: int, i: int, j: int) -> bool {
    &&& 0 <= i
    &&& i + 5 <= j < bound
    &&& window(ls, i) == window(ls, j)
    &&& trim(window(ls, i)).len() != 0
}

/// A report line for some duplicated block.
pub open spec fn reports_duplicate(ls: Seq<Seq<char>>, bound: int, x: Seq<char>) -> bool {
    exists|i: int, j: int|
        #[trigger] duplicate_pair(ls, bound, i, j) && x == duplicate_message((i + 1) as nat, (j + 1) as nat)
}

proof fn lemma_dup_inner_has(ls: Seq<Seq<char>>, bound: int, i: int, l: int, j: int)
    requires
        0 <= l <= j,
        duplicate_pair(ls, bound, i, j),
    ensures
        dup_inner(ls, bound, i, l).contains(duplicate_message((i + 1) as nat, (j + 1) as nat)),
    decreases j - l,
{
    let m = duplicate_message((i + 1) as nat, (j + 1) as nat);
    let here = if window(ls, i) == window(ls, l) && trim(window(ls, i)).len() != 0 {
        seq![duplicate_message((i + 1) as nat, (l + 1) as nat)]
    } else {
        seq![]
    };
    let rest = dup_inner(ls, bound, i, l + 1);
    assert(dup_inner(ls, bound, i, l) == here + rest);
    if l == j {
        assert((here + rest)[0] == m);
    } else {
        lemma_dup_inner_has(ls, bound, i, l + 1, j);
        let idx = choose|idx: int| 0 <= idx < rest.len() && rest[idx] == m;
        assert((here + rest)[here.len() + idx] == m);
    }
}

proof fn lemma_dup_outer_has(ls: Seq<Seq<char>>, bound: int, k: int, i: int, j: int)
    requires
        0 <= k <= i,
        duplicate_pair(ls, bound, i, j),
    ensures
        dup_outer(ls, bound, k).contains(duplicate_message((i + 1) as nat, (j + 1) as nat)),
    decreases i - k,
{
    let m = duplicate_message((i + 1) as nat, (j + 1) as nat);
    let inner = dup_inner(ls, bound, k, k + 5);
    let rest = dup_outer(ls, bound, k + 1);
    assert(dup_outer(ls, bound, k) == inner + rest);
    if k == i {
        lemma_dup_inner_has(ls, bound, i, i + 5, j);
        let idx = choose|idx: int| 0 <= idx < inner.len() && inner[idx] == m;
        assert((inner + rest)[idx] == m);
    } else {
        lemma_dup_outer_has(ls, bound, k + 1, i, j);
        let idx = choose|idx: int| 0 <= idx < rest.len() && rest[idx] == m;
        assert((inner + rest)[inner.len() + idx] == m);
    }
}

proof fn lemma_dup_inner_sound(ls: Seq<Seq<char>>, bound: int, i: int, l: int)
    requires
        0 <= i,
        i + 5 <= l,
    ensures
        forall|x: Seq<char>| dup_inner(ls, bound, i, l).contains(x) ==> reports_duplicate(ls, bound, x),
    decreases bound - l,
{
    if l < bound {
        lemma_dup_inner_sound(ls, bound, i, l + 1);
        let here = if window(ls, i) == window(ls, l) && trim(window(ls, i)).len() != 0 {
            seq![duplicate_message((i + 1) as nat, (l + 1) as nat)]
        } else {
            seq![]
        };
        let rest = dup_inner(ls, bound, i, l + 1);
        assert(dup_inner(ls, bound, i, l) == here + rest);
        assert forall|x: Seq<char>| dup_inner(ls, bound, i, l).contains(x) implies reports_duplicate(
            ls,
            bound,
            x,
        ) by {
            let idx = choose|idx: int| 0 <= idx < (here + rest).len() && (here + rest)[idx] == x;
            if idx < here.len() {
                assert(duplicate_pair(ls, bound, i, l));
            } else {
                assert(rest[idx - here.len()] == x);
                assert(rest.contains(x));
            }
        }
    }
}

proof fn lemma_dup_outer_sound(ls: Seq<Seq<char>>, bound: int, k: int)
    requires
        0 <= k,
    ensures
        forall|x: Seq<char>| dup_outer(ls, bound, k).contains(x) ==> reports_duplicate(ls, bound, x),
    decreases bound - k,
{
    if k < bound {
        lemma_dup_outer_sound(ls, bound, k + 1);
        lemma_dup_inner_sound(ls, bound, k, k + 5);
        let inner = dup_inner(ls, bound, k, k + 5);
        let rest = dup_outer(ls, bound, k + 1);
        assert(dup_outer(ls, bound, k) == inner + rest);
        assert forall|x: Seq<char>| dup_outer(ls, bound, k).contains(x) implies reports_duplicate(
            ls,
            bound,
            x,
        ) by {
            let idx = choose|idx: int| 0 <= idx < (inner + rest).len() && (inner + rest)[idx] == x;
            if idx < inner.len() {
                assert(inner[idx] == x);
                assert(inner.contains(x));
            } else {
                assert(rest[idx - inner.len()] == x);
                assert(rest.contains(x));
            }
        }
    }
}

/// Every duplicated block is reported: for any window `i` and any later
/// window `j` at least five lines on (both below the line count less five)
/// that hold the same five lines, not all blank, the smells of the text
/// include `Duplicate code block at lines {i+1} and {j+1}`, however far
/// apart the two are.
pub proof fn law_every_repeated_block_is_reported(content: Seq<char>, i: int, j: int)
    requires
        duplicate_pair(lines(content), window_bound(lines(content).len()), i, j),
    ensures
        code_smells(content).contains(duplicate_message((i + 1) as nat, (j + 1) as nat)),
{
    let ls = lines(content);
    let m = duplicate_message((i + 1) as nat, (j + 1) as nat);
    let front = long_fn_scan(ls, 0, None, 0) + magic_scan(ls, 0);
    let dups = dup_outer(ls, window_bound(ls.len()), 0);
    lemma_dup_outer_has(ls, window_bound(ls.len()), 0, i, j);
    let idx = choose|idx: int| 0 <= idx < dups.len() && dups[idx] == m;
    assert((front + dups)[front.len() + idx] == m);
}

/// Only duplicated blocks are reported as such: every entry of the
/// duplicate check names a pair of windows that hold the same five lines,
/// not all blank, the second at least five lines after the first.
pub proof fn law_only_repeated_blocks_are_reported(ls: Seq<Seq<char>>)
    ensures
        forall|x: Seq<char>|
            dup_outer(ls, window_bound(ls.len()), 0).contains(x) ==> reports_duplicate(
                ls,
                window_bound(ls.len()),
                x,
            ),
{
    lemma_dup_outer_sound(ls, window_bound(ls.len()), 0);
}

/// All code smells of a text: long functions, then magic numbers, then duplicated blocks.
pub open spec fn code_smells(content: Seq<char>) -> Seq<Seq<char>> {
    let ls = lines(content);
    long_fn_scan(ls, 0, None, 0) + magic_scan(ls, 0) + dup_outer(ls, window_bound(ls.len()), 0)
}

/// A refactoring request: the file, the operation, and for a rename the old
/// and the new name.
#[derive(Debug)]
pub struct RefactorRequest {
    pub path: String,
    pub operation: String,
    pub target: Option<String>,
    pub replacement: Option<String>,
}

impl RefactorRequest {
    /// The request an argument string stands for when it is not a JSON
    /// request: analyze the file at the trimmed text.
    pub fn from_plain_args(args: &str) -> (r: RefactorRequest)
        ensures
            r.path@ == trim(args@),
            r.operation@ == "analyze"@,
            r.target is None,
            r.replacement is None,
    {
        let path = trim_exec(&to_chars(args));
        RefactorRequest {
            path: string_from(&path),
            operation: String::from_str("analyze"),
            target: None,
            replacement: None,
        }
    }
}

/// What a refactoring request comes to once the file's content is known.
#[derive(Debug)]
pub enum RefactorOutcome {
    /// Report this result; nothing is written.
    Report(ToolResult),
    /// Write this content back to the file, then report the result.
    Rewrite { content: String, result: ToolResult },
    /// The request cannot be carried out; the run fails with this message.
    Failed(String),
}

/// The text of the analysis report for a list of smells.
pub open spec fn smells_report(smells: Seq<Seq<char>>) -> Seq<char> {
    if smells.len() == 0 {
        "No obvious code smells detected."@
    } else {
        "Found "@ + decimal(smells.len()) + " potential issues:\n"@ + join(smells, "\n"@)
    }
}

/// The result message of a rename.
pub open spec fn rename_message(target: Seq<char>, replacement: Seq<char>, path: Seq<char>) -> Seq<
    char,
> {
    "Renamed '"@ + target + "' to '"@ + replacement + "' in "@ + path
}

pub open spec fn opt_int(o: Option<usize>) -> Option<int> {
    match o {
        Some(v) => Some(v as int),
        None => None,
    }
}

/// Detects code smells and renames identifiers.
pub struct Refactorer;

fn slice_lines(ls: &Vec<Vec<char>>, lo: usize, hi: usize) -> (r: Vec<Vec<char>>)
    requires
        lo <= hi <= ls@.len(),
    ensures
        views(r@) == views(ls@).subrange(lo as int, hi as int),
{
    let mut r: Vec<Vec<char>> = Vec::new();
    let mut k = lo;
    while k < hi
        invariant
            lo <= k <= hi <= ls@.len(),
            views(r@) == views(ls@).subrange(lo as int, k as int),
        decreases hi - k,
    {
        let ghost before = views(r@);
        let item = ls[k].clone();
        r.push(item);
        assert(views(r@) =~= before.push(item@));
        assert(views(ls@).subrange(lo as int, k + 1) =~= views(ls@).subrange(lo as int, k as int).push(
            ls@[k as int]@,
        ));
        k = k + 1;
    }
    r
}

fn has_digit(t: &Vec<char>) -> (b: bool)
    ensures
        b == exists|k: int| 0 <= k < t@.len() && is_digit(#[trigger] t@[k]),
{
    let mut k: usize = 0;
    while k < t.len()
        invariant
            k <= t@.len(),
            forall|j: int| 0 <= j < k ==> !is_digit(#[trigger] t@[j]),
        decreases t@.len() - k,
    {
        if '0' <= t[k] && t[k] <= '9' {
            return true;
        }
        k = k + 1;
    }
    false
}

impl Refactorer {
    pub fn new() -> (r: Refactorer) {
        Refactorer
    }

    pub fn name(&self) -> (s: &'static str)
        ensures
            s@ == "refactor"@,
    {
        "refactor"
    }

    pub fn description(&self) -> (s: &'static str)
        ensures
            s@ == "Analyze code for refactoring opportunities and apply refactoring"@,
    {
        "Analyze code for refactoring opportunities and apply refactoring"
    }

    fn long_functions(ls: &Vec<Vec<char>>) -> (r: Vec<Vec<char>>)
        requires
            braces_fit(views(ls@), 0, None, 0),
        ensures
            views(r@) == long_fn_scan(views(ls@), 0, None, 0),
    {
        let ghost lv = views(ls@);
        let mut r: Vec<Vec<char>> = Vec::new();
        let mut start: Option<usize> = None;
        let mut braces: i32 = 0;
        let mut k: usize = 0;
        while k < ls.len()
            invariant
                k <= ls@.len(),
                lv == views(ls@),
                start matches Some(st) ==> st < k,
                braces_fit(lv, k as int, opt_int(start), braces as int),
                views(r@) + long_fn_scan(lv, k as int, opt_int(start), braces as int)
                    == long_fn_scan(lv, 0, None, 0),
            decreases ls@.len() - k,
        {
            let line = &ls[k];
            assert(lv[k as int] == line@);
            let ghost before = views(r@);
            if contains_str(line, "fn ") && contains_str(line, "{") {
                start = Some(k);
                braces = 1;
            } else {
                match start {
                    Some(st) => {
                        let opens = count_str(line, "{");
                        let closes = count_str(line, "}");
                        proof {
                            reveal_strlit("{");
                            reveal_strlit("}");
                            assert("{"@ =~= seq!['{']);
                            assert("}"@ =~= seq!['}']);
                        }
                        braces = braces + opens as i32;
                        braces = braces - closes as i32;
                        if braces == 0 {
                            let length = k - st;
                            if length > 50 {
                                let mut msg = to_chars("Long function starting at line ");
                                push_all(&mut msg, &decimal_chars(st as u64 + 1));
                                push_str(&mut msg, " (");
                                push_all(&mut msg, &decimal_chars(length as u64));
                                push_str(&mut msg, " lines)");
                                r.push(msg);
                                assert(views(r@) =~= before + seq![long_fn_message((st + 1) as nat, length as nat)]);
                            } else {
                                assert(views(r@) =~= before + Seq::<Seq<char>>::empty());
                            }
                            start = None;
                        }
                    },
                    None => {},
                }
            }
            k = k + 1;
        }
        assert(views(r@) =~= long_fn_scan(lv, 0, None, 0));
        r
    }

    /// Whether the long-function scan of this text keeps its brace balance in
    /// the range of `i32` (the condition `detect_code_smells` needs).
    pub fn braces_fit_check(content: &str) -> (b: bool)
        ensures
            b == braces_fit(lines(content@), 0, None, 0),
    {
        let ls = lines_exec(&to_chars(content));
        let ghost lv = views(ls@);
        let mut start: Option<usize> = None;
        let mut braces: i64 = 0;
        let mut k: usize = 0;
        while k < ls.len()
            invariant
                k <= ls@.len(),
                lv == views(ls@),
                lv == lines(content@),
                i32::MIN <= braces <= i32::MAX,
                braces_fit(lv, k as int, opt_int(start), braces as int) == braces_fit(lv, 0, None, 0),
            decreases ls@.len() - k,
        {
            let line = &ls[k];
            assert(lv[k as int] == line@);
            if contains_str(line, "fn ") && contains_str(line, "{") {
                start = Some(k);
                braces = 1;
            } else {
                match start {
                    Some(st) => {
                        let opens = count_str(line, "{");
                        let closes = count_str(line, "}");
                        proof {
                            reveal_strlit("{");
                            reveal_strlit("}");
                            assert("{"@ =~= seq!['{']);
                            assert("}"@ =~= seq!['}']);
                        }
                        if opens > 0x7fff_ffff || closes > 0x7fff_ffff {
                            return false;
                        }
                        let up = braces + opens as i64;
                        if up > 0x7fff_ffff {
                            return false;
                        }
                        let b = up - closes as i64;
                        if b < -0x8000_0000 {
                            return false;
                        }
                        braces = b;
                        if braces == 0 {
                            start = None;
                        }
                    },
                    None => {},
                }
            }
            k = k + 1;
        }
        true
    }

    fn magic_numbers(ls: &Vec<Vec<char>>) -> (r: Vec<Vec<char>>)
        ensures
            views(r@) == magic_scan(views(ls@), 0),
    {
        let ghost lv = views(ls@);
        let mut r: Vec<Vec<char>> = Vec::new();
        let mut k: usize = 0;
        while k < ls.len()
            invariant
                k <= ls@.len(),
                lv == views(ls@),
                views(r@) + magic_scan(lv, k as int) == magic_scan(lv, 0),
            decreases ls@.len() - k,
        {
            let line = &ls[k];
            assert(lv[k as int] == line@);
            let ghost before = views(r@);
            let t = trim_exec(line);
            if !starts_with_str(&t, "//") && !starts_with_str(&t, "*") && has_digit(&t) {
                let line_number: u64 = k as u64 + 1;
                let ws = words_exec(&t);
                let mut w: usize = 0;
                let ghost wv = views(ws@);
                let ghost line_no = (k + 1) as nat;
                while w < ws.len()
                    invariant
                        w <= ws@.len(),
                        wv == views(ws@),
                        wv == words(t@),
                        line_no == k + 1,
                        line_number == k + 1,
                        k < ls@.len(),
                        views(r@) == before + magic_in_words(wv, 0, line_no).subrange(0, magic_in_words(wv, 0, line_no).len() - magic_in_words(wv, w as int, line_no).len()),
                        magic_in_words(wv, 0, line_no) == magic_in_words(wv, 0, line_no).subrange(0, magic_in_words(wv, 0, line_no).len() - magic_in_words(wv, w as int, line_no).len()) + magic_in_words(wv, w as int, line_no),
                    decreases ws@.len() - w,
                {
                    let word = &ws[w];
                    assert(wv[w as int] == word@);
                    let ghost r0 = views(r@);
                    match parse_i64_exec(word) {
                        Some(num) => {
                            if num != 0 && num != 1 && num != -1 && !contains_str(word, ".") {
                                let mut msg = to_chars("Possible magic number ");
                                push_all(&mut msg, &signed_decimal_chars(num));
                                push_str(&mut msg, " at line ");
                                push_all(&mut msg, &decimal_chars(line_number));
                                r.push(msg);
                                assert(views(r@) =~= r0.push(magic_message(num as int, line_no)));
                            }
                        },
                        None => {},
                    }
                    proof {
                        let all = magic_in_words(wv, 0, line_no);
                        let rest = magic_in_words(wv, w as int, line_no);
                        let rest2 = magic_in_words(wv, w + 1, line_no);
                        let here = rest.subrange(0, rest.len() - rest2.len());
                        assert(rest =~= here + rest2);
                        assert(all.subrange(0, all.len() - rest2.len()) =~= all.subrange(0, all.len() - rest.len()) + here);
                        assert(views(r@) =~= before + all.subrange(0, all.len() - rest2.len()));
                        assert(all =~= all.subrange(0, all.len() - rest2.len()) + rest2);
                    }
                    w = w + 1;
                }
                proof {
                    let all = magic_in_words(wv, 0, line_no);
                    assert(views(r@) =~= before + all);
                }
            }
            k = k + 1;
        }
        assert(views(r@) =~= magic_scan(lv, 0));
        r
    }

    fn duplicates(ls: &Vec<Vec<char>>) -> (r: Vec<Vec<char>>)
        ensures
            views(r@) == dup_outer(views(ls@), window_bound(ls@.len()), 0),
    {
        let ghost lv = views(ls@);
        let n = ls.len();
        let bound: usize = if n >= 5 {
            n - 5
        } else {
            0
        };
        // the joined windows, and whether each holds more than whitespace
        let mut windows: Vec<Vec<char>> = Vec::new();
        let mut blank: Vec<bool> = Vec::new();
        let mut i: usize = 0;
        while i < bound
            invariant
                i <= bound,
                bound == window_bound(n as nat),
                n == ls@.len(),
                lv == views(ls@),
                windows@.len() == i,
                blank@.len() == i,
                forall|j: int| 0 <= j < i ==> (#[trigger] windows@[j])@ == window(lv, j),
                forall|j: int| 0 <= j < i ==> (#[trigger] blank@[j]) == (trim(window(lv, j)).len() == 0),
            decreases bound - i,
        {
            let piece = slice_lines(ls, i, i + 5);
            let w = join_exec(&piece, "\n");
            let t = trim_exec(&w);
            windows.push(w);
            blank.push(t.len() == 0);
            i = i + 1;
        }
        let mut r: Vec<Vec<char>> = Vec::new();
        let mut i: usize = 0;
        while i < bound
            invariant
                i <= bound,
                bound == window_bound(n as nat),
                n == ls@.len(),
                lv == views(ls@),
                windows@.len() == bound,
                blank@.len() == bound,
                forall|j: int| 0 <= j < bound ==> (#[trigger] windows@[j])@ == window(lv, j),
                forall|j: int| 0 <= j < bound ==> (#[trigger] blank@[j]) == (trim(window(lv, j)).len() == 0),
                views(r@) + dup_outer(lv, bound as int, i as int) == dup_outer(lv, bound as int, 0),
            decreases bound - i,
        {
            let ghost outer_before = views(r@);
            let mut j: usize = i + 5;
            while j < bound
                invariant
                    i < bound,
                    i + 5 <= j || j >= bound,
                    bound == window_bound(n as nat),
                    n == ls@.len(),
                    lv == views(ls@),
                    windows@.len() == bound,
                    blank@.len() == bound,
                    forall|q: int| 0 <= q < bound ==> (#[trigger] windows@[q])@ == window(lv, q),
                    forall|q: int| 0 <= q < bound ==> (#[trigger] blank@[q]) == (trim(window(lv, q)).len() == 0),
                    views(r@) + dup_inner(lv, bound as int, i as int, j as int) == outer_before
                        + dup_inner(lv, bound as int, i as int, i + 5),
                decreases bound - j,
            {
                let ghost before = views(r@);
                if chars_eq(&windows[i], &windows[j]) && !blank[i] {
                    let mut msg = to_chars("Duplicate code block at lines ");
                    push_all(&mut msg, &decimal_chars(i as u64 + 1));
                    push_str(&mut msg, " and ");
                    push_all(&mut msg, &decimal_chars(j as u64 + 1));
                    r.push(msg);
                    assert(views(r@) =~= before.push(duplicate_message((i + 1) as nat, (j + 1) as nat)));
                }
                assert(views(r@) + dup_inner(lv, bound as int, i as int, j + 1) =~= before + dup_inner(
                    lv,
                    bound as int,
                    i as int,
                    j as int,
                ));
                j = j + 1;
            }
            assert(views(r@) =~= outer_before + dup_inner(lv, bound as int, i as int, i + 5));
            i = i + 1;
        }
        assert(views(r@) =~= dup_outer(lv, bound as int, 0));
        r
    }

    /// All code smells of a text: functions spanning more than 50 lines,
    /// magic numbers, and five-line blocks that occur again further on.
    pub fn detect_code_smells(&self, content: &str) -> (r: Vec<String>)
        requires
            braces_fit(lines(content@), 0, None, 0),
        ensures
            r@.map_values(|s: String| s@) == code_smells(content@),
    {
        let ls = lines_exec(&to_chars(content));
        let mut all = Self::long_functions(&ls);
        let magic = Self::magic_numbers(&ls);
        let dups = Self::duplicates(&ls);
        let ghost a = views(all@);
        let mut k: usize = 0;
        while k < magic.len()
            invariant
                k <= magic@.len(),
                views(all@) == a + views(magic@).take(k as int),
            decreases magic@.len() - k,
        {
            let ghost b = views(all@);
            let item = magic[k].clone();
            all.push(item);
            assert(views(all@) =~= b.push(item@));
            assert(views(magic@).take(k + 1) =~= views(magic@).take(k as int).push(magic@[k as int]@));
            k = k + 1;
        }
        assert(views(magic@).take(k as int) =~= views(magic@));
        let ghost a2 = views(all@);
        let mut k: usize = 0;
        while k < dups.len()
            invariant
                k <= dups@.len(),
                views(all@) == a2 + views(dups@).take(k as int),
            decreases dups@.len() - k,
        {
            let ghost b = views(all@);
            let item = dups[k].clone();
            all.push(item);
            assert(views(all@) =~= b.push(item@));
            assert(views(dups@).take(k + 1) =~= views(dups@).take(k as int).push(dups@[k as int]@));
            k = k + 1;
        }
        assert(views(dups@).take(k as int) =~= views(dups@));
        let mut out: Vec<String> = Vec::new();
        let mut k: usize = 0;
        while k < all.len()
            invariant
                k <= all@.len(),
                out@.len() == k,
                forall|j: int| 0 <= j < k ==> (#[trigger] out@[j])@ == all@[j]@,
            decreases all@.len() - k,
        {
            out.push(string_from(&all[k]));
            k = k + 1;
        }
        assert(out@.map_values(|s: String| s@) =~= views(all@));
        out
    }

    /// What a request does to a file with this content: `analyze` reports the
    /// smells; `rename` (with both names) rewrites every occurrence of the
    /// target; any other operation is reported as unknown.
    pub fn plan(&self, request: &RefactorRequest, content: &str) -> (o: RefactorOutcome)
        requires
            request.operation@ == "analyze"@ ==> braces_fit(lines(content@), 0, None, 0),
        ensures
            request.operation@ == "analyze"@ ==> (o matches RefactorOutcome::Report(r) && r.success
                && r.error is None && r.output@ == smells_report(code_smells(content@))),
            request.operation@ == "rename"@ && request.target is None ==> (
            o matches RefactorOutcome::Failed(m) && m@ == "Target name required for rename"@),
            request.operation@ == "rename"@ && request.target is Some && request.replacement is None
                ==> (o matches RefactorOutcome::Failed(m) && m@
                == "Replacement name required for rename"@),
            request.operation@ == "rename"@ && request.target is Some && request.replacement is Some
                ==> (o matches RefactorOutcome::Rewrite { content: c, result: r } && c@
                == replace_all(content@, request.target->0@, request.replacement->0@) && r.success
                && r.error is None && r.output@ == rename_message(
                request.target->0@,
                request.replacement->0@,
                request.path@,
            )),
            request.operation@ != "analyze"@ && request.operation@ != "rename"@ ==> (
            o matches RefactorOutcome::Report(r) && is_error_result(
                r,
                "Unknown operation: "@ + request.operation@,
            )),
    {
        let op = request.operation.as_str();
        proof {
            reveal_strlit("analyze");
            reveal_strlit("rename");
            assert("rename"@[0] != "analyze"@[0]);
            assert("rename"@ != "analyze"@);
        }
        if crate::text::str_eq(op, "analyze") {
            let smells = self.detect_code_smells(content);
            let ghost sv = smells@.map_values(|s: String| s@);
            if smells.len() == 0 {
                RefactorOutcome::Report(ToolResult::success("No obvious code smells detected."))
            } else {
                let mut pieces: Vec<Vec<char>> = Vec::new();
                let mut k: usize = 0;
                while k < smells.len()
                    invariant
                        k <= smells@.len(),
                        pieces@.len() == k,
                        forall|j: int| 0 <= j < k ==> (#[trigger] pieces@[j])@ == smells@[j]@,
                    decreases smells@.len() - k,
                {
                    pieces.push(to_chars(smells[k].as_str()));
                    k = k + 1;
                }
                assert(views(pieces@) =~= sv);
                let mut msg = to_chars("Found ");
                push_all(&mut msg, &decimal_chars(smells.len() as u64));
                push_str(&mut msg, " potential issues:\n");
                push_all(&mut msg, &join_exec(&pieces, "\n"));
                RefactorOutcome::Report(ToolResult::success(string_from(&msg).as_str()))
            }
        } else if crate::text::str_eq(op, "rename") {
            match (&request.target, &request.replacement) {
                (None, _) => RefactorOutcome::Failed(String::from_str("Target name required for rename")),
                (Some(_), None) => RefactorOutcome::Failed(
                    String::from_str("Replacement name required for rename"),
                ),
                (Some(target), Some(replacement)) => {
                    let new_content = replace_exec(
                        &to_chars(content),
                        &to_chars(target.as_str()),
                        &to_chars(replacement.as_str()),
                    );
                    let mut msg = to_chars("Renamed '");
                    push_str(&mut msg, target.as_str());
                    push_str(&mut msg, "' to '");
                    push_str(&mut msg, replacement.as_str());
                    push_str(&mut msg, "' in ");
                    push_str(&mut msg, request.path.as_str());
                    RefactorOutcome::Rewrite {
                        content: string_from(&new_content),
                        result: ToolResult::success(string_from(&msg).as_str()),
                    }
                },
            }
        } else {
            let mut msg = to_chars("Unknown operation: ");
            push_str(&mut msg, op);
            RefactorOutcome::Report(ToolResult::error(string_from(&msg).as_str()))
        }
    }
}

} // verus!
