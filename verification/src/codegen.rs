//! Code snippets that use the current pattern in other languages.

use vstd::prelude::*;

use crate::engine::{flag_letter, EngineFlags};
use crate::text::{chars_of, owned, push_char, push_str};

verus! {

/// The languages a snippet can be generated for.
#[derive(Debug, Clone, Copy, PartialEq, Eq, Structural)]
pub enum Language {
    Rust,
    Python,
    JavaScript,
    Go,
    Java,
    CSharp,
    Php,
    Ruby,
}

impl Language {
    /// Every language, in menu order.
    pub fn all() -> (r: Vec<Language>)
        ensures
            r@ == seq![
                Language::Rust,
                Language::Python,
                Language::JavaScript,
                Language::Go,
                Language::Java,
                Language::CSharp,
                Language::Php,
                Language::Ruby,
            ],
    {
        let mut r = Vec::new();
        r.push(Language::Rust);
        r.push(Language::Python);
        r.push(Language::JavaScript);
        r.push(Language::Go);
        r.push(Language::Java);
        r.push(Language::CSharp);
        r.push(Language::Php);
        r.push(Language::Ruby);
        assert(r@ =~= seq![
            Language::Rust,
            Language::Python,
            Language::JavaScript,
            Language::Go,
            Language::Java,
            Language::CSharp,
            Language::Php,
            Language::Ruby,
        ]);
        r
    }

    pub open spec fn spec_label(self) -> Seq<char> {
        match self {
            Language::Rust => "Rust"@,
            Language::Python => "Python"@,
            Language::JavaScript => "JavaScript"@,
            Language::Go => "Go"@,
            Language::Java => "Java"@,
            Language::CSharp => "C#"@,
            Language::Php => "PHP"@,
            Language::Ruby => "Ruby"@,
        }
    }

    /// The language's display name.
    pub fn label(self) -> (r: String)
        ensures
            r@ == self.spec_label(),
    {
        match self {
            Language::Rust => owned("Rust"),
            Language::Python => owned("Python"),
            Language::JavaScript => owned("JavaScript"),
            Language::Go => owned("Go"),
            Language::Java => owned("Java"),
            Language::CSharp => owned("C#"),
            Language::Php => owned("PHP"),
            Language::Ruby => owned("Ruby"),
        }
    }
}

/// `s` with every occurrence of `c` replaced by `rep`.
pub open spec fn replace_char(s: Seq<char>, c: char, rep: Seq<char>) -> Seq<char>
    decreases s.len(),
{
    if s.len() == 0 {
        Seq::empty()
    } else {
        replace_char(s.drop_last(), c, rep) + if s.last() == c {
            rep
        } else {
            seq![s.last()]
        }
    }
}

/// `parts` joined with `sep` between neighbours.
pub open spec fn join(parts: Seq<Seq<char>>, sep: Seq<char>) -> Seq<char>
    decreases parts.len(),
{
    if parts.len() == 0 {
        Seq::empty()
    } else if parts.len() == 1 {
        parts[0]
    } else {
        join(parts.drop_last(), sep) + sep + parts.last()
    }
}

/// `[name]` when the flag is on, nothing otherwise.
pub open spec fn flag_part(on: bool, name: Seq<char>) -> Seq<Seq<char>> {
    if on {
        seq![name]
    } else {
        Seq::empty()
    }
}

/// `text` when the flag is on, nothing otherwise.
pub open spec fn flag_text(on: bool, text: Seq<char>) -> Seq<char> {
    if on {
        text
    } else {
        Seq::empty()
    }
}

/// The pattern inside a double-quoted string: backslashes and quotes
/// escaped.
pub open spec fn escape_quoted(p: Seq<char>) -> Seq<char> {
    replace_char(replace_char(p, '\\', "\\\\"@), '"', "\\\""@)
}

/// A Rust string literal that denotes `p` exactly: a raw string `r"..."`
/// holding the pattern as it is, or, when the pattern holds a double quote
/// (which ends a raw string), an ordinary string with backslashes and quotes
/// escaped.
pub open spec fn rust_literal(p: Seq<char>) -> Seq<char> {
    if !p.contains('"') {
        "r\""@ + p + "\""@
    } else {
        "\""@ + escape_quoted(p) + "\""@
    }
}

/// A Python raw string can hold the pattern as it is: no double quote, and
/// no backslash at its end (it would escape the closing quote).
pub open spec fn python_raw_ok(p: Seq<char>) -> bool {
    !p.contains('"') && !(p.len() > 0 && p.last() == '\\')
}

/// A Python string literal that denotes `p` exactly: a raw string holding
/// the pattern as it is where that can be done, else an ordinary string with
/// backslashes and quotes escaped.
pub open spec fn python_literal(p: Seq<char>) -> Seq<char> {
    if python_raw_ok(p) {
        "r\""@ + p + "\""@
    } else {
        "\""@ + escape_quoted(p) + "\""@
    }
}

pub open spec fn spec_rust(p: Seq<char>, f: EngineFlags) -> Seq<char> {
    let lit = rust_literal(p);
    if f.case_insensitive || f.multi_line || f.dot_matches_newline || f.unicode || f.extended {
        "use regex::RegexBuilder;\n\n"@ + "let re = RegexBuilder::new("@ + lit + ")\n"@
            + flag_text(f.case_insensitive, "    .case_insensitive(true)\n"@)
            + flag_text(f.multi_line, "    .multi_line(true)\n"@)
            + flag_text(f.dot_matches_newline, "    .dot_matches_new_line(true)\n"@)
            + flag_text(f.unicode, "    .unicode(true)\n"@)
            + flag_text(f.extended, "    .ignore_whitespace(true)\n"@)
            + "    .build()\n    .unwrap();\n"@
            + "let matches: Vec<&str> = re.find_iter(text).map(|m| m.as_str()).collect();\n"@
    } else {
        "use regex::Regex;\n\nlet re = Regex::new("@ + lit
            + ").unwrap();\nlet matches: Vec<&str> = re.find_iter(text).map(|m| m.as_str()).collect();\n"@
    }
}

pub open spec fn python_parts(f: EngineFlags) -> Seq<Seq<char>> {
    flag_part(f.case_insensitive, "re.IGNORECASE"@) + flag_part(f.multi_line, "re.MULTILINE"@)
        + flag_part(f.dot_matches_newline, "re.DOTALL"@) + flag_part(f.unicode, "re.UNICODE"@)
        + flag_part(f.extended, "re.VERBOSE"@)
}

pub open spec fn spec_python(p: Seq<char>, f: EngineFlags) -> Seq<char> {
    let lit = python_literal(p);
    if python_parts(f).len() == 0 {
        "import re\n\npattern = re.compile("@ + lit + ")\nmatches = pattern.findall(text)\n"@
    } else {
        "import re\n\npattern = re.compile("@ + lit + ", "@ + join(python_parts(f), " | "@)
            + ")\nmatches = pattern.findall(text)\n"@
    }
}

pub open spec fn spec_javascript(p: Seq<char>, f: EngineFlags) -> Seq<char> {
    "const regex = /"@ + replace_char(p, '/', "\\/"@) + "/"@ + "g"@ + flag_letter(f.case_insensitive, 'i')
        + flag_letter(f.multi_line, 'm') + flag_letter(f.dot_matches_newline, 's') + flag_letter(
        f.unicode,
        'u',
    ) + ";\nconst matches = [...text.matchAll(regex)];\n"@
}

pub open spec fn go_inline(f: EngineFlags) -> Seq<char> {
    flag_letter(f.case_insensitive, 'i') + flag_letter(f.multi_line, 'm') + flag_letter(
        f.dot_matches_newline,
        's',
    ) + flag_letter(f.unicode, 'U')
}

pub open spec fn spec_go(p: Seq<char>, f: EngineFlags) -> Seq<char> {
    let e = replace_char(p, '`', "`+\"`\"+`"@);
    let quoted = if go_inline(f).len() == 0 {
        "`"@ + e + "`"@
    } else {
        "`(?"@ + go_inline(f) + ")"@ + e + "`"@
    };
    "import \"regexp\"\n\nre := regexp.MustCompile("@ + quoted + ")\nmatches := re.FindAllString(text, -1)\n"@
}

pub open spec fn java_parts(f: EngineFlags) -> Seq<Seq<char>> {
    flag_part(f.case_insensitive, "Pattern.CASE_INSENSITIVE"@) + flag_part(f.multi_line, "Pattern.MULTILINE"@)
        + flag_part(f.dot_matches_newline, "Pattern.DOTALL"@) + flag_part(
        f.unicode,
        "Pattern.UNICODE_CHARACTER_CLASS"@,
    ) + flag_part(f.extended, "Pattern.COMMENTS"@)
}

pub open spec fn spec_java(p: Seq<char>, f: EngineFlags) -> Seq<char> {
    let e = escape_quoted(p);
    let tail = "Matcher matcher = pattern.matcher(text);\nwhile (matcher.find()) {\n    System.out.println(matcher.group());\n}\n"@;
    if java_parts(f).len() == 0 {
        "import java.util.regex.*;\n\nPattern pattern = Pattern.compile(\""@ + e + "\");\n"@ + tail
    } else {
        "import java.util.regex.*;\n\nPattern pattern = Pattern.compile(\""@ + e + "\", "@ + join(
            java_parts(f),
            " | "@,
        ) + ");\n"@ + tail
    }
}

pub open spec fn csharp_parts(f: EngineFlags) -> Seq<Seq<char>> {
    flag_part(f.case_insensitive, "RegexOptions.IgnoreCase"@) + flag_part(f.multi_line, "RegexOptions.Multiline"@)
        + flag_part(f.dot_matches_newline, "RegexOptions.Singleline"@) + flag_part(
        f.extended,
        "RegexOptions.IgnorePatternWhitespace"@,
    )
}

pub open spec fn spec_csharp(p: Seq<char>, f: EngineFlags) -> Seq<char> {
    let e = replace_char(p, '"', "\"\""@);
    if csharp_parts(f).len() == 0 {
        "using System.Text.RegularExpressions;\n\nvar regex = new Regex(@\""@ + e
            + "\");\nvar matches = regex.Matches(text);\n"@
    } else {
        "using System.Text.RegularExpressions;\n\nvar regex = new Regex(@\""@ + e + "\", "@ + join(
            csharp_parts(f),
            " | "@,
        ) + ");\nvar matches = regex.Matches(text);\n"@
    }
}

pub open spec fn spec_php(p: Seq<char>, f: EngineFlags) -> Seq<char> {
    let e = replace_char(replace_char(p, '\'', "\\'"@), '/', "\\/"@);
    "$pattern = '/"@ + e + "/"@ + f.spec_letters() + "';\npreg_match_all($pattern, $text, $matches);\n"@
}

pub open spec fn spec_ruby(p: Seq<char>, f: EngineFlags) -> Seq<char> {
    "pattern = /"@ + replace_char(p, '/', "\\/"@) + "/"@ + flag_letter(f.case_insensitive, 'i') + flag_letter(
        f.multi_line,
        'm',
    ) + flag_letter(f.extended, 'x') + "\nmatches = text.scan(pattern)\n"@
}

/// The snippet for a language.
pub open spec fn spec_generate_code(lang: Language, p: Seq<char>, f: EngineFlags) -> Seq<char> {
    match lang {
        Language::Rust => spec_rust(p, f),
        Language::Python => spec_python(p, f),
        Language::JavaScript => spec_javascript(p, f),
        Language::Go => spec_go(p, f),
        Language::Java => spec_java(p, f),
        Language::CSharp => spec_csharp(p, f),
        Language::Php => spec_php(p, f),
        Language::Ruby => spec_ruby(p, f),
    }
}

/// A snippet that compiles `pattern` with `flags` in `lang` and collects its
/// matches in a variable `text`.
pub fn generate_code(lang: &Language, pattern: &str, flags: &EngineFlags) -> (r: String)
    ensures
        r@ == spec_generate_code(*lang, pattern@, *flags),
{
    match lang {
        Language::Rust => generate_rust(pattern, flags),
        Language::Python => generate_python(pattern, flags),
        Language::JavaScript => generate_javascript(pattern, flags),
        Language::Go => generate_go(pattern, flags),
        Language::Java => generate_java(pattern, flags),
        Language::CSharp => generate_csharp(pattern, flags),
        Language::Php => generate_php(pattern, flags),
        Language::Ruby => generate_ruby(pattern, flags),
    }
}

/// `s` with every `c` replaced by `rep`, as `str::replace` does it.
pub fn replace_str(s: &str, c: char, rep: &str) -> (r: String)
    ensures
        r@ == replace_char(s@, c, rep@),
{
    let cs = chars_of(s);
    let mut r = String::new();
    let mut i: usize = 0;
    while i < cs.len()
        invariant
            cs@ == s@,
            i <= cs.len(),
            r@ == replace_char(s@.take(i as int), c, rep@),
        decreases cs.len() - i,
    {
        assert(s@.take(i + 1).drop_last() =~= s@.take(i as int));
        if cs[i] == c {
            push_str(&mut r, rep);
        } else {
            push_char(&mut r, cs[i]);
        }
        i = i + 1;
        assert(r@ =~= replace_char(s@.take(i as int), c, rep@));
    }
    assert(s@.take(i as int) =~= s@);
    r
}

/// Joins string slices with a separator, as `[&str]::join` does.
fn join_strs(parts: &Vec<&str>, sep: &str) -> (r: String)
    ensures
        r@ == join(parts@.map_values(|s: &str| s@), sep@),
{
    let ghost ps = parts@.map_values(|s: &str| s@);
    let mut r = String::new();
    let mut i: usize = 0;
    while i < parts.len()
        invariant
            ps == parts@.map_values(|s: &str| s@),
            i <= parts.len(),
            r@ == join(ps.take(i as int), sep@),
        decreases parts.len() - i,
    {
        assert(ps.take(i + 1).drop_last() =~= ps.take(i as int));
        if i > 0 {
            push_str(&mut r, sep);
        }
        push_str(&mut r, parts[i]);
        i = i + 1;
        assert(ps.take(i as int).last() == parts@[i - 1]@);
        if i == 1 {
            assert(r@ =~= join(ps.take(i as int), sep@));
        } else {
            assert(r@ =~= join(ps.take(i as int), sep@));
        }
    }
    assert(ps.take(i as int) =~= ps);
    r
}

fn push_if(s: &mut String, on: bool, text: &str)
    ensures
        final(s)@ == old(s)@ + flag_text(on, text@),
{
    if on {
        push_str(s, text);
    } else {
        assert(final(s)@ =~= old(s)@ + flag_text(on, text@));
    }
}

fn push_letter(s: &mut String, on: bool, c: char)
    ensures
        final(s)@ == old(s)@ + flag_letter(on, c),
{
    if on {
        push_char(s, c);
        assert(final(s)@ =~= old(s)@ + flag_letter(on, c));
    } else {
        assert(final(s)@ =~= old(s)@ + flag_letter(on, c));
    }
}

fn push_part<'a>(parts: &mut Vec<&'a str>, on: bool, name: &'a str)
    ensures
        final(parts)@.map_values(|s: &str| s@) == old(parts)@.map_values(|s: &str| s@) + flag_part(on, name@),
{
    if on {
        parts.push(name);
    }
    assert(final(parts)@.map_values(|s: &str| s@) =~= old(parts)@.map_values(|s: &str| s@) + flag_part(on, name@));
}

fn has_char(s: &str, c: char) -> (r: bool)
    ensures
        r == s@.contains(c),
{
    let cs = chars_of(s);
    let mut i: usize = 0;
    while i < cs.len()
        invariant
            cs@ == s@,
            i <= cs.len(),
            forall|j: int| 0 <= j < i ==> cs@[j] != c,
        decreases cs.len() - i,
    {
        if cs[i] == c {
            return true;
        }
        i = i + 1;
    }
    false
}

fn ends_with_backslash(s: &str) -> (r: bool)
    ensures
        r == (s@.len() > 0 && s@.last() == '\\'),
{
    let cs = chars_of(s);
    cs.len() > 0 && cs[cs.len() - 1] == '\\'
}

fn quoted_escaped(pattern: &str) -> (r: String)
    ensures
        r@ == "\""@ + escape_quoted(pattern@) + "\""@,
{
    let step = replace_str(pattern, '\\', "\\\\");
    let escaped = replace_str(step.as_str(), '"', "\\\"");
    let mut r = owned("\"");
    push_str(&mut r, escaped.as_str());
    push_str(&mut r, "\"");
    r
}

fn raw_quoted(pattern: &str) -> (r: String)
    ensures
        r@ == "r\""@ + pattern@ + "\""@,
{
    let mut r = owned("r\"");
    push_str(&mut r, pattern);
    push_str(&mut r, "\"");
    r
}

fn rust_literal_string(pattern: &str) -> (r: String)
    ensures
        r@ == rust_literal(pattern@),
{
    if has_char(pattern, '"') {
        quoted_escaped(pattern)
    } else {
        raw_quoted(pattern)
    }
}

fn python_literal_string(pattern: &str) -> (r: String)
    ensures
        r@ == python_literal(pattern@),
{
    if has_char(pattern, '"') || ends_with_backslash(pattern) {
        quoted_escaped(pattern)
    } else {
        raw_quoted(pattern)
    }
}

fn generate_rust(pattern: &str, flags: &EngineFlags) -> (r: String)
    ensures
        r@ == spec_rust(pattern@, *flags),
{
    let lit = rust_literal_string(pattern);
    let has_flags = flags.case_insensitive || flags.multi_line || flags.dot_matches_newline
        || flags.unicode || flags.extended;
    if has_flags {
        let mut lines = owned("use regex::RegexBuilder;\n\n");
        push_str(&mut lines, "let re = RegexBuilder::new(");
        push_str(&mut lines, lit.as_str());
        push_str(&mut lines, ")\n");
        push_if(&mut lines, flags.case_insensitive, "    .case_insensitive(true)\n");
        push_if(&mut lines, flags.multi_line, "    .multi_line(true)\n");
        push_if(&mut lines, flags.dot_matches_newline, "    .dot_matches_new_line(true)\n");
        push_if(&mut lines, flags.unicode, "    .unicode(true)\n");
        push_if(&mut lines, flags.extended, "    .ignore_whitespace(true)\n");
        push_str(&mut lines, "    .build()\n    .unwrap();\n");
        push_str(&mut lines, "let matches: Vec<&str> = re.find_iter(text).map(|m| m.as_str()).collect();\n");
        assert(lines@ =~= spec_rust(pattern@, *flags));
        lines
    } else {
        let mut r = owned("use regex::Regex;\n\nlet re = Regex::new(");
        push_str(&mut r, lit.as_str());
        push_str(&mut r, ").unwrap();\nlet matches: Vec<&str> = re.find_iter(text).map(|m| m.as_str()).collect();\n");
        assert(r@ =~= spec_rust(pattern@, *flags));
        r
    }
}

fn generate_python(pattern: &str, flags: &EngineFlags) -> (r: String)
    ensures
        r@ == spec_python(pattern@, *flags),
{
    let lit = python_literal_string(pattern);
    let mut parts: Vec<&str> = Vec::new();
    assert(parts@.map_values(|s: &str| s@) =~= Seq::<Seq<char>>::empty());
    push_part(&mut parts, flags.case_insensitive, "re.IGNORECASE");
    push_part(&mut parts, flags.multi_line, "re.MULTILINE");
    push_part(&mut parts, flags.dot_matches_newline, "re.DOTALL");
    push_part(&mut parts, flags.unicode, "re.UNICODE");
    push_part(&mut parts, flags.extended, "re.VERBOSE");
    assert(parts@.map_values(|s: &str| s@) =~= python_parts(*flags));
    let mut r = owned("import re\n\npattern = re.compile(");
    push_str(&mut r, lit.as_str());
    if parts.len() == 0 {
        push_str(&mut r, ")\nmatches = pattern.findall(text)\n");
    } else {
        push_str(&mut r, ", ");
        let joined = join_strs(&parts, " | ");
        push_str(&mut r, joined.as_str());
        push_str(&mut r, ")\nmatches = pattern.findall(text)\n");
    }
    assert(r@ =~= spec_python(pattern@, *flags));
    r
}

fn generate_javascript(pattern: &str, flags: &EngineFlags) -> (r: String)
    ensures
        r@ == spec_javascript(pattern@, *flags),
{
    let escaped = replace_str(pattern, '/', "\\/");
    let mut r = owned("const regex = /");
    push_str(&mut r, escaped.as_str());
    push_str(&mut r, "/");
    push_str(&mut r, "g");
    push_letter(&mut r, flags.case_insensitive, 'i');
    push_letter(&mut r, flags.multi_line, 'm');
    push_letter(&mut r, flags.dot_matches_newline, 's');
    push_letter(&mut r, flags.unicode, 'u');
    push_str(&mut r, ";\nconst matches = [...text.matchAll(regex)];\n");
    assert(r@ =~= spec_javascript(pattern@, *flags));
    r
}

fn generate_go(pattern: &str, flags: &EngineFlags) -> (r: String)
    ensures
        r@ == spec_go(pattern@, *flags),
{
    let escaped = replace_str(pattern, '`', "`+\"`\"+`");
    let mut inline_flags = String::new();
    push_letter(&mut inline_flags, flags.case_insensitive, 'i');
    push_letter(&mut inline_flags, flags.multi_line, 'm');
    push_letter(&mut inline_flags, flags.dot_matches_newline, 's');
    push_letter(&mut inline_flags, flags.unicode, 'U');
    assert(inline_flags@ =~= go_inline(*flags));
    let mut r = owned("import \"regexp\"\n\nre := regexp.MustCompile(");
    if inline_flags.unicode_len() == 0 {
        push_str(&mut r, "`");
    } else {
        push_str(&mut r, "`(?");
        push_str(&mut r, inline_flags.as_str());
        push_str(&mut r, ")");
    }
    push_str(&mut r, escaped.as_str());
    push_str(&mut r, "`");
    push_str(&mut r, ")\nmatches := re.FindAllString(text, -1)\n");
    assert(r@ =~= spec_go(pattern@, *flags));
    r
}

fn generate_java(pattern: &str, flags: &EngineFlags) -> (r: String)
    ensures
        r@ == spec_java(pattern@, *flags),
{
    let step = replace_str(pattern, '\\', "\\\\");
    let escaped = replace_str(step.as_str(), '"', "\\\"");
    let mut parts: Vec<&str> = Vec::new();
    assert(parts@.map_values(|s: &str| s@) =~= Seq::<Seq<char>>::empty());
    push_part(&mut parts, flags.case_insensitive, "Pattern.CASE_INSENSITIVE");
    push_part(&mut parts, flags.multi_line, "Pattern.MULTILINE");
    push_part(&mut parts, flags.dot_matches_newline, "Pattern.DOTALL");
    push_part(&mut parts, flags.unicode, "Pattern.UNICODE_CHARACTER_CLASS");
    push_part(&mut parts, flags.extended, "Pattern.COMMENTS");
    assert(parts@.map_values(|s: &str| s@) =~= java_parts(*flags));
    let mut r = owned("import java.util.regex.*;\n\nPattern pattern = Pattern.compile(\"");
    push_str(&mut r, escaped.as_str());
    if parts.len() == 0 {
        push_str(&mut r, "\");\n");
    } else {
        push_str(&mut r, "\", ");
        let joined = join_strs(&parts, " | ");
        push_str(&mut r, joined.as_str());
        push_str(&mut r, ");\n");
    }
    push_str(
        &mut r,
        "Matcher matcher = pattern.matcher(text);\nwhile (matcher.find()) {\n    System.out.println(matcher.group());\n}\n",
    );
    assert(r@ =~= spec_java(pattern@, *flags));
    r
}

fn generate_csharp(pattern: &str, flags: &EngineFlags) -> (r: String)
    ensures
        r@ == spec_csharp(pattern@, *flags),
{
    let escaped = replace_str(pattern, '"', "\"\"");
    let mut parts: Vec<&str> = Vec::new();
    assert(parts@.map_values(|s: &str| s@) =~= Seq::<Seq<char>>::empty());
    push_part(&mut parts, flags.case_insensitive, "RegexOptions.IgnoreCase");
    push_part(&mut parts, flags.multi_line, "RegexOptions.Multiline");
    push_part(&mut parts, flags.dot_matches_newline, "RegexOptions.Singleline");
    push_part(&mut parts, flags.extended, "RegexOptions.IgnorePatternWhitespace");
    assert(parts@.map_values(|s: &str| s@) =~= csharp_parts(*flags));
    let mut r = owned("using System.Text.RegularExpressions;\n\nvar regex = new Regex(@\"");
    push_str(&mut r, escaped.as_str());
    if parts.len() == 0 {
        push_str(&mut r, "\");\nvar matches = regex.Matches(text);\n");
    } else {
        push_str(&mut r, "\", ");
        let joined = join_strs(&parts, " | ");
        push_str(&mut r, joined.as_str());
        push_str(&mut r, ");\nvar matches = regex.Matches(text);\n");
    }
    assert(r@ =~= spec_csharp(pattern@, *flags));
    r
}

fn generate_php(pattern: &str, flags: &EngineFlags) -> (r: String)
    ensures
        r@ == spec_php(pattern@, *flags),
{
    let step = replace_str(pattern, '\'', "\\'");
    let escaped = replace_str(step.as_str(), '/', "\\/");
    let mut r = owned("$pattern = '/");
    push_str(&mut r, escaped.as_str());
    push_str(&mut r, "/");
    push_letter(&mut r, flags.case_insensitive, 'i');
    push_letter(&mut r, flags.multi_line, 'm');
    push_letter(&mut r, flags.dot_matches_newline, 's');
    push_letter(&mut r, flags.unicode, 'u');
    push_letter(&mut r, flags.extended, 'x');
    push_str(&mut r, "';\npreg_match_all($pattern, $text, $matches);\n");
    assert(r@ =~= spec_php(pattern@, *flags));
    r
}

fn generate_ruby(pattern: &str, flags: &EngineFlags) -> (r: String)
    ensures
        r@ == spec_ruby(pattern@, *flags),
{
    let escaped = replace_str(pattern, '/', "\\/");
    let mut r = owned("pattern = /");
    push_str(&mut r, escaped.as_str());
    push_str(&mut r, "/");
    push_letter(&mut r, flags.case_insensitive, 'i');
    push_letter(&mut r, flags.multi_line, 'm');
    push_letter(&mut r, flags.extended, 'x');
    push_str(&mut r, "\nmatches = text.scan(pattern)\n");
    assert(r@ =~= spec_ruby(pattern@, *flags));
    r
}

/// What a Java string literal's body denotes, read by Java's rules from
/// just after its opening quote up to its closing quote: a character stands
/// for itself, a backslash begins a two-character escape (`\\`, `\"`, `\'`,
/// `\b`, `\t`, `\n`, `\f`, `\r`, `\s`), and a raw line break or an unclosed
/// literal is an error (`None`). Escapes this reading does not take (octal
/// and `\u` escapes, other letters) are errors too.
pub open spec fn java_string_body(s: Seq<char>) -> Option<Seq<char>>
    decreases s.len(),
{
    if s.len() == 0 {
        None
    } else if s[0] == '"' {
        Some(Seq::empty())
    } else if s[0] == '\n' || s[0] == '\r' {
        None
    } else if s[0] == '\\' {
        if s.len() < 2 {
            None
        } else {
            let c = s[1];
            let denoted: Option<char> = if c == '\\' || c == '"' || c == '\'' {
                Some(c)
            } else if c == 'b' {
                Some('\u{8}')
            } else if c == 't' {
                Some('\t')
            } else if c == 'n' {
                Some('\n')
            } else if c == 'f' {
                Some('\u{c}')
            } else if c == 'r' {
                Some('\r')
            } else if c == 's' {
                Some(' ')
            } else {
                None
            };
            match denoted {
                Some(d) => match java_string_body(s.skip(2)) {
                    Some(r) => Some(seq![d] + r),
                    None => None,
                },
                None => None,
            }
        }
    } else {
        match java_string_body(s.skip(1)) {
            Some(r) => Some(seq![s[0]] + r),
            None => None,
        }
    }
}

proof fn lemma_replace_char_concat(a: Seq<char>, b: Seq<char>, c: char, rep: Seq<char>)
    ensures
        replace_char(a + b, c, rep) == replace_char(a, c, rep) + replace_char(b, c, rep),
    decreases b.len(),
{
    if b.len() == 0 {
        assert(a + b =~= a);
        assert(replace_char(a, c, rep) + Seq::<char>::empty() =~= replace_char(a, c, rep));
    } else {
        assert((a + b).drop_last() =~= a + b.drop_last());
        assert((a + b).last() == b.last());
        lemma_replace_char_concat(a, b.drop_last(), c, rep);
        let piece = if b.last() == c {
            rep
        } else {
            seq![b.last()]
        };
        assert(replace_char(a + b, c, rep) == replace_char(a + b.drop_last(), c, rep) + piece);
        assert(replace_char(b, c, rep) == replace_char(b.drop_last(), c, rep) + piece);
        assert(replace_char(a, c, rep) + replace_char(b.drop_last(), c, rep) + piece =~= replace_char(a, c, rep) + (
        replace_char(b.drop_last(), c, rep) + piece));
    }
}

proof fn lemma_replace_char_single(x: char, c: char, rep: Seq<char>)
    ensures
        replace_char(seq![x], c, rep) == if x == c {
            rep
        } else {
            seq![x]
        },
{
    let s1 = seq![x];
    assert(s1.drop_last() =~= Seq::<char>::empty());
    assert(s1.last() == x);
    assert(replace_char(Seq::<char>::empty(), c, rep) == Seq::<char>::empty());
    let piece = if x == c {
        rep
    } else {
        seq![x]
    };
    assert(replace_char(s1, c, rep) == replace_char(s1.drop_last(), c, rep) + piece);
    assert(Seq::<char>::empty() + piece =~= piece);
}

proof fn lemma_escape_quoted_cons(x: char, p: Seq<char>)
    ensures
        escape_quoted(seq![x] + p) == escape_quoted(seq![x]) + escape_quoted(p),
        escape_quoted(seq![x]) == if x == '\\' {
            seq!['\\', '\\']
        } else if x == '"' {
            seq!['\\', '"']
        } else {
            seq![x]
        },
{
    reveal_strlit("\\\\");
    reveal_strlit("\\\"");
    lemma_replace_char_concat(seq![x], p, '\\', "\\\\"@);
    lemma_replace_char_single(x, '\\', "\\\\"@);
    let one = replace_char(seq![x], '\\', "\\\\"@);
    lemma_replace_char_concat(one, replace_char(p, '\\', "\\\\"@), '"', "\\\""@);
    if x == '\\' {
        assert(one =~= seq!['\\'] + seq!['\\']);
        lemma_replace_char_concat(seq!['\\'], seq!['\\'], '"', "\\\""@);
        lemma_replace_char_single('\\', '"', "\\\""@);
        assert(replace_char(one, '"', "\\\""@) =~= seq!['\\', '\\']);
    } else {
        assert(one =~= seq![x]);
        lemma_replace_char_single(x, '"', "\\\""@);
        if x == '"' {
            assert(replace_char(one, '"', "\\\""@) =~= seq!['\\', '"']);
        } else {
            assert(replace_char(one, '"', "\\\""@) =~= seq![x]);
        }
    }
}

proof fn lemma_java_body_of_escaped(p: Seq<char>, q: Seq<char>)
    requires
        !p.contains('\n'),
        !p.contains('\r'),
    ensures
        java_string_body(escape_quoted(p) + q) == match java_string_body(q) {
            Some(r) => Some(p + r),
            None => None::<Seq<char>>,
        },
    decreases p.len(),
{
    if p.len() == 0 {
        assert(p =~= Seq::<char>::empty());
        assert(escape_quoted(p) =~= Seq::<char>::empty());
        assert(escape_quoted(p) + q =~= q);
        match java_string_body(q) {
            Some(r) => { assert(p + r =~= r); },
            None => {},
        }
    } else {
        let x = p[0];
        let rest = p.drop_first();
        assert(p =~= seq![x] + rest);
        assert(!rest.contains('\n') && !rest.contains('\r')) by {
            if rest.contains('\n') {
                let k = choose|k: int| 0 <= k < rest.len() && rest[k] == '\n';
                assert(p[k + 1] == '\n');
            }
            if rest.contains('\r') {
                let k = choose|k: int| 0 <= k < rest.len() && rest[k] == '\r';
                assert(p[k + 1] == '\r');
            }
        }
        assert(x != '\n' && x != '\r') by {
            assert(p[0] == x);
        }
        lemma_escape_quoted_cons(x, rest);
        lemma_java_body_of_escaped(rest, q);
        let tail = escape_quoted(rest) + q;
        let s = escape_quoted(p) + q;
        if x == '\\' || x == '"' {
            assert(s =~= seq!['\\', x] + tail);
            assert(s.skip(2) =~= tail);
            assert(s[0] == '\\' && s[1] == x);
        } else {
            assert(s =~= seq![x] + tail);
            assert(s.skip(1) =~= tail);
            assert(s[0] == x);
        }
        match java_string_body(q) {
            Some(r) => {
                assert(seq![x] + (rest + r) =~= p + r);
            },
            None => {},
        }
    }
}

/// The opening of every Java snippet, up to the opening quote of the
/// pattern's string literal.
pub open spec fn java_head() -> Seq<char> {
    "import java.util.regex.*;\n\nPattern pattern = Pattern.compile(\""@
}

/// The Java snippet's string literal denotes the pattern exactly: for
/// every pattern without a line break (which a Java string literal cannot
/// hold) and every set of flags, the snippet begins with `java_head`, and
/// reading the literal that follows by Java's rules gives back the pattern.
pub proof fn lemma_java_literal_denotes_pattern(p: Seq<char>, f: EngineFlags)
    requires
        !p.contains('\n'),
        !p.contains('\r'),
    ensures
        spec_java(p, f).subrange(0, java_head().len() as int) == java_head(),
        java_string_body(spec_java(p, f).skip(java_head().len() as int)) == Some(p),
{
    reveal_strlit("\");\n");
    reveal_strlit("\", ");
    let h = java_head();
    let escaped = escape_quoted(p);
    let tail = "Matcher matcher = pattern.matcher(text);\nwhile (matcher.find()) {\n    System.out.println(matcher.group());\n}\n"@;
    let q = if java_parts(f).len() == 0 {
        "\");\n"@ + tail
    } else {
        "\", "@ + join(java_parts(f), " | "@) + ");\n"@ + tail
    };
    assert(spec_java(p, f) =~= h + escaped + q);
    assert(spec_java(p, f).subrange(0, h.len() as int) =~= h);
    assert(spec_java(p, f).skip(h.len() as int) =~= escaped + q);
    assert(q[0] == '"');
    assert(java_string_body(q) == Some(Seq::<char>::empty()));
    lemma_java_body_of_escaped(p, q);
    assert(p + Seq::<char>::empty() =~= p);
}

} // verus!
