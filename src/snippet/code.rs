//! Code snippets, language detection and the code-likeness heuristic.

use vstd::prelude::*;
use vstd::string::*;
use crate::chars::{byte_len, lower_of, lowercase, same_chars, to_chars, utf8_len};
use crate::lexer::{trim_bounds, trimmed};
use crate::lines::{join_first, join_lines, lines, split_lines};
use crate::scan::{is_match, regex_is_match};

verus! {

/// Source code with its language name.
#[derive(Clone, Debug)]
pub struct CodeData {
    pub code: String,
    pub language: String,
}

/// Which language patterns a piece of code matches (`json` also asks that
/// the trimmed code be bracketed as an object or an array).
#[derive(Clone, Copy, Debug, PartialEq, Eq, Structural)]
pub struct LanguageSignals {
    pub typescript: bool,
    pub javascript: bool,
    pub rust: bool,
    pub python: bool,
    pub go: bool,
    pub json: bool,
    pub html: bool,
    pub css: bool,
    pub sql: bool,
    pub shell: bool,
}

pub open spec fn rust_pattern() -> Seq<char> {
    r"(?m)^\s*(fn\s+\w+|impl\s+|struct\s+|enum\s+|trait\s+|mod\s+|use\s+|let\s+mut|pub\s+fn|#\[derive)"@
}

pub open spec fn python_pattern() -> Seq<char> {
    r"(?m)^\s*(def\s+\w+|class\s+\w+|import\s+|from\s+\w+\s+import|if\s+__name__|@\w+)"@
}

pub open spec fn javascript_pattern() -> Seq<char> {
    r"(?m)(function\s+\w+|const\s+\w+\s*=|let\s+\w+\s*=|var\s+\w+\s*=|=>\s*\{|export\s+(default\s+)?|import\s+.*from|require\()"@
}

pub open spec fn typescript_pattern() -> Seq<char> {
    r"(?m)(:\s*(string|number|boolean|any|void|never)|interface\s+\w+|type\s+\w+\s*=|<\w+>)"@
}

pub open spec fn json_pattern() -> Seq<char> {
    r"^\s*[\{\[]"@
}

pub open spec fn html_pattern() -> Seq<char> {
    r"(?i)^\s*<!DOCTYPE|<html|<div|<span|<p\s|<a\s|<script|<style"@
}

pub open spec fn css_pattern() -> Seq<char> {
    r"(?m)^\s*(\.|#|@media|@keyframes|[a-z-]+\s*:\s*[^;]+;)"@
}

pub open spec fn sql_pattern() -> Seq<char> {
    r"(?i)^\s*(SELECT|INSERT|UPDATE|DELETE|CREATE|ALTER|DROP|FROM|WHERE|JOIN)"@
}

pub open spec fn shell_pattern() -> Seq<char> {
    r"(?m)^(\s*#!\/bin\/(ba)?sh|^\s*\$\s+|\becho\s+|\bcd\s+|\bls\s|\bmkdir\s|\bgrep\s|\bsed\s)"@
}

pub open spec fn go_pattern() -> Seq<char> {
    r"(?m)^\s*(package\s+\w+|func\s+\w+|import\s+\(|type\s+\w+\s+struct)"@
}

/// Starts with `{` and ends with `}`, or starts with `[` and ends with `]`.
pub open spec fn json_shaped(t: Seq<char>) -> bool {
    t.len() > 0 && ((t[0] == '{' && t.last() == '}') || (t[0] == '[' && t.last() == ']'))
}

pub open spec fn signals_of(c: Seq<char>) -> LanguageSignals {
    LanguageSignals {
        typescript: regex_is_match(typescript_pattern(), c),
        javascript: regex_is_match(javascript_pattern(), c),
        rust: regex_is_match(rust_pattern(), c),
        python: regex_is_match(python_pattern(), c),
        go: regex_is_match(go_pattern(), c),
        json: regex_is_match(json_pattern(), c) && json_shaped(trimmed(c)),
        html: regex_is_match(html_pattern(), c),
        css: regex_is_match(css_pattern(), c),
        sql: regex_is_match(sql_pattern(), c),
        shell: regex_is_match(shell_pattern(), c),
    }
}

/// The first language that the signals point to, most specific first.
pub open spec fn language_name(s: LanguageSignals) -> Seq<char> {
    if s.typescript && s.javascript {
        "typescript"@
    } else if s.rust {
        "rust"@
    } else if s.python {
        "python"@
    } else if s.go {
        "go"@
    } else if s.javascript {
        "javascript"@
    } else if s.json {
        "json"@
    } else if s.html {
        "html"@
    } else if s.css {
        "css"@
    } else if s.sql {
        "sql"@
    } else if s.shell {
        "shell"@
    } else {
        "plain"@
    }
}

/// The language name for given signals.
pub fn pick_language(s: &LanguageSignals) -> (r: &'static str)
    ensures
        r@ == language_name(*s),
{
    if s.typescript && s.javascript {
        "typescript"
    } else if s.rust {
        "rust"
    } else if s.python {
        "python"
    } else if s.go {
        "go"
    } else if s.javascript {
        "javascript"
    } else if s.json {
        "json"
    } else if s.html {
        "html"
    } else if s.css {
        "css"
    } else if s.sql {
        "sql"
    } else if s.shell {
        "shell"
    } else {
        "plain"
    }
}

fn is_json_shaped(code: &str) -> (r: bool)
    ensures
        r == json_shaped(trimmed(code@)),
{
    let v = to_chars(code);
    let (lo, hi) = trim_bounds(&v);
    if lo == hi {
        return false;
    }
    let first = v[lo];
    let last = v[hi - 1];
    (first == '{' && last == '}') || (first == '[' && last == ']')
}

fn language_signals(code: &str) -> (r: LanguageSignals)
    ensures
        r == signals_of(code@),
{
    LanguageSignals {
        typescript: is_match(
            r"(?m)(:\s*(string|number|boolean|any|void|never)|interface\s+\w+|type\s+\w+\s*=|<\w+>)",
            code,
        ),
        javascript: is_match(
            r"(?m)(function\s+\w+|const\s+\w+\s*=|let\s+\w+\s*=|var\s+\w+\s*=|=>\s*\{|export\s+(default\s+)?|import\s+.*from|require\()",
            code,
        ),
        rust: is_match(
            r"(?m)^\s*(fn\s+\w+|impl\s+|struct\s+|enum\s+|trait\s+|mod\s+|use\s+|let\s+mut|pub\s+fn|#\[derive)",
            code,
        ),
        python: is_match(
            r"(?m)^\s*(def\s+\w+|class\s+\w+|import\s+|from\s+\w+\s+import|if\s+__name__|@\w+)",
            code,
        ),
        go: is_match(r"(?m)^\s*(package\s+\w+|func\s+\w+|import\s+\(|type\s+\w+\s+struct)", code),
        json: is_match(r"^\s*[\{\[]", code) && is_json_shaped(code),
        html: is_match(r"(?i)^\s*<!DOCTYPE|<html|<div|<span|<p\s|<a\s|<script|<style", code),
        css: is_match(r"(?m)^\s*(\.|#|@media|@keyframes|[a-z-]+\s*:\s*[^;]+;)", code),
        sql: is_match(
            r"(?i)^\s*(SELECT|INSERT|UPDATE|DELETE|CREATE|ALTER|DROP|FROM|WHERE|JOIN)",
            code,
        ),
        shell: is_match(
            r"(?m)^(\s*#!\/bin\/(ba)?sh|^\s*\$\s+|\becho\s+|\bcd\s+|\bls\s|\bmkdir\s|\bgrep\s|\bsed\s)",
            code,
        ),
    }
}

/// Detects the programming language of `code`.
pub fn detect_language(code: &str) -> (r: String)
    ensures
        r@ == language_name(signals_of(code@)),
{
    String::from_str(pick_language(&language_signals(code)))
}

/// File extension for a lowercase language name, `txt` when unknown.
pub open spec fn extension_of(l: Seq<char>) -> Seq<char> {
    if l == "rust"@ {
        "rs"@
    } else if l == "python"@ {
        "py"@
    } else if l == "javascript"@ {
        "js"@
    } else if l == "typescript"@ {
        "ts"@
    } else if l == "json"@ {
        "json"@
    } else if l == "html"@ {
        "html"@
    } else if l == "css"@ {
        "css"@
    } else if l == "sql"@ {
        "sql"@
    } else if l == "shell"@ || l == "bash"@ || l == "sh"@ {
        "sh"@
    } else if l == "go"@ {
        "go"@
    } else if l == "c"@ {
        "c"@
    } else if l == "cpp"@ || l == "c++"@ {
        "cpp"@
    } else if l == "java"@ {
        "java"@
    } else if l == "ruby"@ {
        "rb"@
    } else if l == "php"@ {
        "php"@
    } else if l == "swift"@ {
        "swift"@
    } else if l == "kotlin"@ {
        "kt"@
    } else if l == "scala"@ {
        "scala"@
    } else if l == "yaml"@ || l == "yml"@ {
        "yaml"@
    } else if l == "toml"@ {
        "toml"@
    } else if l == "markdown"@ || l == "md"@ {
        "md"@
    } else if l == "xml"@ {
        "xml"@
    } else {
        "txt"@
    }
}

fn is_word(v: &Vec<char>, w: &str) -> (r: bool)
    ensures
        r == (v@ == w@),
{
    same_chars(v, &to_chars(w))
}

/// The extension for a language name that is already lowercase.
pub fn extension_for(lower: &str) -> (r: &'static str)
    ensures
        r@ == extension_of(lower@),
{
    let l = to_chars(lower);
    if is_word(&l, "rust") {
        "rs"
    } else if is_word(&l, "python") {
        "py"
    } else if is_word(&l, "javascript") {
        "js"
    } else if is_word(&l, "typescript") {
        "ts"
    } else if is_word(&l, "json") {
        "json"
    } else if is_word(&l, "html") {
        "html"
    } else if is_word(&l, "css") {
        "css"
    } else if is_word(&l, "sql") {
        "sql"
    } else if is_word(&l, "shell") || is_word(&l, "bash") || is_word(&l, "sh") {
        "sh"
    } else if is_word(&l, "go") {
        "go"
    } else if is_word(&l, "c") {
        "c"
    } else if is_word(&l, "cpp") || is_word(&l, "c++") {
        "cpp"
    } else if is_word(&l, "java") {
        "java"
    } else if is_word(&l, "ruby") {
        "rb"
    } else if is_word(&l, "php") {
        "php"
    } else if is_word(&l, "swift") {
        "swift"
    } else if is_word(&l, "kotlin") {
        "kt"
    } else if is_word(&l, "scala") {
        "scala"
    } else if is_word(&l, "yaml") || is_word(&l, "yml") {
        "yaml"
    } else if is_word(&l, "toml") {
        "toml"
    } else if is_word(&l, "markdown") || is_word(&l, "md") {
        "md"
    } else if is_word(&l, "xml") {
        "xml"
    } else {
        "txt"
    }
}

/// Maps a language name, in any case, to a file extension.
pub fn language_to_extension(language: &str) -> (r: &'static str)
    ensures
        r@ == extension_of(lower_of(language@)),
{
    extension_for(lowercase(language).as_str())
}

impl CodeData {
    pub open spec fn new_spec(code: Seq<char>, language: Seq<char>) -> (Seq<char>, Seq<char>) {
        (code, if language.len() == 0 { language_name(signals_of(code)) } else { language })
    }

    pub open spec fn view(&self) -> (Seq<char>, Seq<char>) {
        (self.code@, self.language@)
    }

    /// Code with its language; an empty language is detected from the code.
    pub fn new(code: String, language: String) -> (r: CodeData)
        ensures
            r.code@ == code@,
            r.language@ == if language@.len() == 0 {
                language_name(signals_of(code@))
            } else {
                language@
            },
    {
        let language = if language.as_str().is_empty() {
            detect_language(code.as_str())
        } else {
            language
        };
        CodeData { code, language }
    }

    pub fn line_count(&self) -> (r: usize)
        ensures
            r == lines(self.code@).len(),
    {
        split_lines(&to_chars(self.code.as_str())).len()
    }

    /// The first `max_lines` lines, joined with line breaks.
    pub fn preview(&self, max_lines: usize) -> (r: String)
        ensures
            r@ == join_lines(
                lines(self.code@).take(
                    if max_lines < lines(self.code@).len() {
                        max_lines as int
                    } else {
                        lines(self.code@).len() as int
                    },
                ),
            ),
    {
        join_first(&split_lines(&to_chars(self.code.as_str())), max_lines)
    }
}


/// Patterns that hint at code, with their weights in `code_weights`.
pub open spec fn code_patterns() -> Seq<Seq<char>> {
    seq![
        r"\{[\s\S]*\}"@,
        r"\[[\s\S]*\]"@,
        r"\([\s\S]*\)"@,
        r";\s*$"@,
        r":\s*$"@,
        r"\b(fn|func|function|def|class|struct|enum|impl|trait|interface|type)\b"@,
        r"\b(if|else|for|while|loop|match|switch|case)\b"@,
        r"\b(return|break|continue|yield)\b"@,
        r"\b(import|from|use|require|(?:incl)ude)\b"@,
        r"\b(const|let|var|mut)\b"@,
        r"\b(pub|private|public|protected|static)\b"@,
        r"=>"@,
        r"->"@,
        r"::"@,
        r"==|!=|<=|>="@,
        r"//.*$"@,
        r"/\*[\s\S]*\*/"@,
        r"#.*$"@,
    ]
}

pub open spec fn code_weights() -> Seq<int> {
    seq![5, 3, 2, 4, 3, 5, 3, 3, 4, 3, 3, 3, 3, 3, 2, 3, 3, 2]
}

/// The sum of the weights of the first `n` patterns that hit.
pub open spec fn score(hits: Seq<bool>, n: int) -> int
    decreases n,
{
    if n <= 0 {
        0
    } else {
        score(hits, n - 1) + if hits[n - 1] {
            code_weights()[n - 1]
        } else {
            0
        }
    }
}

/// Which of `code_patterns` match `t`.
pub open spec fn pattern_hits(t: Seq<char>) -> Seq<bool> {
    Seq::new(18, |k: int| regex_is_match(code_patterns()[k], t))
}

/// A line indented by two spaces or a tab.
pub open spec fn is_indented(l: Seq<char>) -> bool {
    (l.len() >= 2 && l[0] == ' ' && l[1] == ' ') || (l.len() >= 1 && l[0] == '\t')
}

pub open spec fn indented_count(ls: Seq<Seq<char>>, n: int) -> int
    decreases n,
{
    if n <= 0 {
        0
    } else {
        indented_count(ls, n - 1) + if is_indented(ls[n - 1]) {
            1int
        } else {
            0
        }
    }
}

/// Five points when the text has several lines and over a third of them
/// are indented.
pub open spec fn indent_bonus(t: Seq<char>) -> int {
    let ls = lines(t);
    if ls.len() > 1 && indented_count(ls, ls.len() as int) > ls.len() / 3 {
        5
    } else {
        0
    }
}

pub open spec fn is_special(c: char) -> bool {
    c == '{' || c == '}' || c == '[' || c == ']' || c == '(' || c == ')' || c == ';' || c == ':'
        || c == '=' || c == '<' || c == '>' || c == '+' || c == '-' || c == '*' || c == '/' || c
        == '&' || c == '|' || c == '!' || c == '@' || c == '#' || c == '$' || c == '%' || c == '^'
}

pub open spec fn special_count(t: Seq<char>, n: int) -> int
    decreases n,
{
    if n <= 0 {
        0
    } else {
        special_count(t, n - 1) + if is_special(t[n - 1]) {
            1int
        } else {
            0
        }
    }
}

/// UTF-8 length, saturating at `usize::MAX`.
pub open spec fn sat_len(t: Seq<char>) -> int {
    if utf8_len(t) < usize::MAX {
        utf8_len(t) as int
    } else {
        usize::MAX as int
    }
}

/// Three points when special characters make up over 5% of the bytes.
pub open spec fn special_bonus(t: Seq<char>) -> int {
    if special_count(t, t.len() as int) > sat_len(t) / 20 {
        3
    } else {
        0
    }
}

/// The verdict on trimmed text `t` given which patterns hit.
pub open spec fn code_verdict(t: Seq<char>, hits: Seq<bool>) -> bool {
    score(hits, 18) + indent_bonus(t) + special_bonus(t) >= 8
}

pub open spec fn looks_like_code_spec(s: Seq<char>) -> bool {
    let t = trimmed(s);
    sat_len(t) >= 10 && code_verdict(t, pattern_hits(t))
}

fn code_hits(t: &str) -> (r: Vec<bool>)
    ensures
        r@ == pattern_hits(t@),
{
    let pats: [&str; 18] = [
        r"\{[\s\S]*\}",
        r"\[[\s\S]*\]",
        r"\([\s\S]*\)",
        r";\s*$",
        r":\s*$",
        r"\b(fn|func|function|def|class|struct|enum|impl|trait|interface|type)\b",
        r"\b(if|else|for|while|loop|match|switch|case)\b",
        r"\b(return|break|continue|yield)\b",
        r"\b(import|from|use|require|(?:incl)ude)\b",
        r"\b(const|let|var|mut)\b",
        r"\b(pub|private|public|protected|static)\b",
        r"=>",
        r"->",
        r"::",
        r"==|!=|<=|>=",
        r"//.*$",
        r"/\*[\s\S]*\*/",
        r"#.*$",
    ];
    let ghost ps = code_patterns();
    assert(pats@.map_values(|p: &str| p@) =~= ps);
    let mut r: Vec<bool> = Vec::new();
    let mut i: usize = 0;
    while i < 18
        invariant
            i <= 18,
            pats@.len() == 18,
            pats@.map_values(|p: &str| p@) == code_patterns(),
            r@ == pattern_hits(t@).take(i as int),
        decreases 18 - i,
    {
        assert(pats@[i as int]@ == code_patterns()[i as int]);
        let h = is_match(pats[i], t);
        r.push(h);
        assert(r@ =~= pattern_hits(t@).take(i + 1));
        i = i + 1;
    }
    assert(r@ =~= pattern_hits(t@));
    r
}

/// The verdict on trimmed text `t`, given which of `code_patterns` hit.
pub fn code_verdict_given(t: &str, hits: &Vec<bool>) -> (r: bool)
    requires
        hits@.len() == 18,
    ensures
        r == code_verdict(t@, hits@),
{
    let mut sc: u32 = 0;
    let ws: [u32; 18] = [5, 3, 2, 4, 3, 5, 3, 3, 4, 3, 3, 3, 3, 3, 2, 3, 3, 2];
    assert(ws@.map_values(|w: u32| w as int) =~= code_weights());
    let mut i: usize = 0;
    while i < 18
        invariant
            i <= 18,
            hits@.len() == 18,
            ws@.len() == 18,
            ws@.map_values(|w: u32| w as int) == code_weights(),
            sc == score(hits@, i as int),
            sc <= 5 * i,
        decreases 18 - i,
    {
        assert(ws@[i as int] as int == code_weights()[i as int]);
        if hits[i] {
            sc = sc + ws[i];
        }
        i = i + 1;
    }
    let v = to_chars(t);
    let ls = split_lines(&v);
    let ghost lv = ls@.map_values(|l: Vec<char>| l@);
    let mut ind: usize = 0;
    let mut k: usize = 0;
    while k < ls.len()
        invariant
            k <= ls@.len(),
            lv == ls@.map_values(|l: Vec<char>| l@),
            ind == indented_count(lv, k as int),
            ind <= k,
        decreases ls@.len() - k,
    {
        let l = &ls[k];
        assert(lv[k as int] == l@);
        if (l.len() >= 2 && l[0] == ' ' && l[1] == ' ') || (l.len() >= 1 && l[0] == '\t') {
            ind = ind + 1;
        }
        k = k + 1;
    }
    let bonus1: u32 = if ls.len() > 1 && ind > ls.len() / 3 { 5 } else { 0 };
    let mut sp: usize = 0;
    let mut j: usize = 0;
    while j < v.len()
        invariant
            j <= v@.len(),
            sp == special_count(v@, j as int),
            sp <= j,
        decreases v@.len() - j,
    {
        let c = v[j];
        if c == '{' || c == '}' || c == '[' || c == ']' || c == '(' || c == ')' || c == ';' || c
            == ':' || c == '=' || c == '<' || c == '>' || c == '+' || c == '-' || c == '*' || c
            == '/' || c == '&' || c == '|' || c == '!' || c == '@' || c == '#' || c == '$' || c
            == '%' || c == '^' {
            sp = sp + 1;
        }
        j = j + 1;
    }
    let bonus2: u32 = if sp > byte_len(&v) / 20 { 3 } else { 0 };
    sc + bonus1 + bonus2 >= 8
}

/// Whether `text` looks like code: a weighted score of code patterns,
/// indentation and punctuation; see `looks_like_code_spec`.
pub fn looks_like_code(text: &str) -> (r: bool)
    ensures
        r == looks_like_code_spec(text@),
{
    let v = to_chars(text);
    let (lo, hi) = trim_bounds(&v);
    let tv = crate::chars::sub_chars(&v, lo, hi);
    if byte_len(&tv) < 10 {
        return false;
    }
    let t = crate::chars::string_of(&v, lo, hi);
    code_verdict_given(t.as_str(), &code_hits(t.as_str()))
}

} // verus!
