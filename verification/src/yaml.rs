use vstd::prelude::*;
use regex::Regex;
use crate::chars::{contains_seq, split_str, replace_str, join_with, line_views, chars_contain, split_chars,
    replace_chars, join_lines, push_all};
use crate::text::{chars_of, string_of_chars};

verus! {

/// For each match, in order, of the regex `(?m)^(\s*)([^\s\n][^"\n]*)"([^\n]+)"$`
/// (a line `key: "value"` of YAML) in a text: its three groups, the indentation,
/// the key and the quoted value.
pub uninterp spec fn yaml_quoted_captures(text: Seq<char>) -> Seq<(Seq<char>, Seq<char>, Seq<char>)>;

/// The parts of a text between the matches of that same regex.
pub uninterp spec fn yaml_quoted_gaps(text: Seq<char>) -> Seq<Seq<char>>;

/// The groups of the matches of the quoted-line regex, with regex's
/// `Regex::captures_iter`. The contract claims only that the result is that
/// function of the text: the regex's semantics are not stated.
#[verifier::external_body]
fn quoted_line_captures(text: &str) -> (r: Vec<(String, String, String)>)
    ensures
        r@.len() == yaml_quoted_captures(text@).len(),
        forall|i: int|
            0 <= i < r@.len() ==> (#[trigger] r@[i]).0@ == yaml_quoted_captures(text@)[i].0 && r@[i].1@
                == yaml_quoted_captures(text@)[i].1 && r@[i].2@ == yaml_quoted_captures(text@)[i].2,
{
    let re = Regex::new(r#"(?m)^(\s*)([^\s\n][^"\n]*)"([^\n]+)"$"#).unwrap();
    re.captures_iter(text).map(|c| (c[1].to_string(), c[2].to_string(), c[3].to_string())).collect()
}

/// The whole line that a match of the quoted-line regex covers: the pattern is its
/// three groups with a quote before and after the last one (its anchors match no
/// character).
pub open spec fn quoted_whole_line(c: (Seq<char>, Seq<char>, Seq<char>)) -> Seq<char> {
    c.0 + c.1 + "\""@ + c.2 + "\""@
}

pub open spec fn quoted_whole_lines(caps: Seq<(Seq<char>, Seq<char>, Seq<char>)>) -> Seq<Seq<char>> {
    Seq::new(caps.len(), |i: int| quoted_whole_line(caps[i]))
}

/// The parts of a text between the matches of the quoted-line regex, with regex's
/// `Regex::split`, which yields one part more than there are matches. As regex's
/// documentation of `split` says, the parts and the matched lines, taken in turn,
/// make up the text again (`split` and `captures_iter` walk the same matches).
#[verifier::external_body]
fn quoted_line_gaps(text: &str) -> (r: Vec<String>)
    ensures
        r@.len() == yaml_quoted_gaps(text@).len(),
        r@.len() == yaml_quoted_captures(text@).len() + 1,
        forall|i: int| 0 <= i < r@.len() ==> (#[trigger] r@[i])@ == yaml_quoted_gaps(text@)[i],
        interleave(Seq::new(r@.len(), |i: int| r@[i]@), quoted_whole_lines(yaml_quoted_captures(text@)),
            yaml_quoted_captures(text@).len() as int) + r@[yaml_quoted_captures(text@).len() as int]@ == text@,
{
    let re = Regex::new(r#"(?m)^(\s*)([^\s\n][^"\n]*)"([^\n]+)"$"#).unwrap();
    re.split(text).map(|g| g.to_string()).collect()
}

/// A line of a multi-line string with its escapes `\"`, `\\` and `\t` undone.
pub open spec fn unescape_line(l: Seq<char>) -> Seq<char> {
    replace_str(replace_str(replace_str(l, "\\\""@, "\""@), "\\\\"@, "\\"@), "\\t"@, "\t"@)
}

/// A `key: "value"` line of YAML as it is exported: a value holding `\n` becomes a
/// literal block `|`, one line of the block per line of the value, indented two
/// spaces deeper than the key; any other value stays quoted.
pub open spec fn fixed_quoted_line(indent: Seq<char>, key: Seq<char>, contents: Seq<char>) -> Seq<char> {
    let line_start = indent + key;
    if contains_seq(contents, "\\n"@) {
        let sep = "\n  "@ + indent;
        let lines = split_str(contents, "\\n"@);
        line_start + "|"@ + sep + join_with(Seq::new(lines.len(), |i: int| unescape_line(lines[i])), sep)
    } else {
        line_start + "\""@ + contents + "\""@
    }
}

/// The text made of the gaps with the replacements between them:
/// `gaps[0] + fixed[0] + gaps[1] + ... + fixed[n - 1] + gaps[n]`.
pub open spec fn interleave(gaps: Seq<Seq<char>>, fixed: Seq<Seq<char>>, n: int) -> Seq<char>
    decreases n,
{
    if n <= 0 {
        Seq::empty()
    } else {
        interleave(gaps, fixed, n - 1) + gaps[n - 1] + fixed[n - 1]
    }
}

/// The YAML output with its quoted multi-line strings rewritten.
pub open spec fn yaml_fixed(raw: Seq<char>) -> Seq<char> {
    let caps = yaml_quoted_captures(raw);
    let gaps = yaml_quoted_gaps(raw);
    let fixed = Seq::new(caps.len(), |i: int| fixed_quoted_line(caps[i].0, caps[i].1, caps[i].2));
    interleave(gaps, fixed, caps.len() as int) + gaps[caps.len() as int]
}

fn unescape_chars(l: &Vec<char>) -> (r: Vec<char>)
    ensures
        r@ == unescape_line(l@),
{
    proof {
        reveal_strlit("\\\"");
        reveal_strlit("\\\\");
        reveal_strlit("\\t");
    }
    let a = replace_chars(l, &chars_of("\\\""), &chars_of("\""));
    let b = replace_chars(&a, &chars_of("\\\\"), &chars_of("\\"));
    replace_chars(&b, &chars_of("\\t"), &chars_of("\t"))
}

/// Rewrites one quoted line of YAML (see `fixed_quoted_line`).
pub fn fix_quoted_line(indent: &str, key: &str, contents: &str) -> (r: String)
    ensures
        r@ == fixed_quoted_line(indent@, key@, contents@),
{
    let ind = chars_of(indent);
    let c = chars_of(contents);
    let mut out = chars_of(indent);
    push_all(&mut out, &chars_of(key));
    let esc_n = chars_of("\\n");
    if chars_contain(&c, &esc_n) {
        let mut sep = chars_of("\n  ");
        push_all(&mut sep, &ind);
        proof {
            reveal_strlit("\\n");
        }
        let lines = split_chars(&c, &esc_n);
        let ghost lv = line_views(lines@);
        let mut unescaped: Vec<Vec<char>> = Vec::new();
        let mut i: usize = 0;
        while i < lines.len()
            invariant
                i <= lines@.len(),
                lv == line_views(lines@),
                line_views(unescaped@) =~= Seq::new(lv.len(), |j: int| unescape_line(lv[j])).take(i as int),
            decreases lines@.len() - i,
        {
            let u = unescape_chars(&lines[i]);
            let ghost before = line_views(unescaped@);
            unescaped.push(u);
            assert(line_views(unescaped@) =~= before.push(u@));
            i = i + 1;
        }
        assert(line_views(unescaped@) =~= Seq::new(lv.len(), |j: int| unescape_line(lv[j])));
        let body = join_lines(&unescaped, &sep);
        push_all(&mut out, &chars_of("|"));
        push_all(&mut out, &sep);
        push_all(&mut out, &body);
    } else {
        push_all(&mut out, &chars_of("\""));
        push_all(&mut out, &c);
        push_all(&mut out, &chars_of("\""));
    }
    string_of_chars(&out)
}

/// The text made of the gaps of a YAML text with its quoted lines, unchanged,
/// between them.
pub open spec fn yaml_rebuilt(raw: Seq<char>) -> Seq<char> {
    let caps = yaml_quoted_captures(raw);
    interleave(yaml_quoted_gaps(raw), quoted_whole_lines(caps), caps.len() as int) + yaml_quoted_gaps(raw)[caps.len() as int]
}

/// No quoted line of a YAML text holds an escaped line break.
pub open spec fn no_escaped_newline(raw: Seq<char>) -> bool {
    forall|i: int| 0 <= i < yaml_quoted_captures(raw).len() ==> !contains_seq(#[trigger] yaml_quoted_captures(raw)[i].2, "\\n"@)
}

/// Rewrites the YAML that serde_yaml writes so that strings holding line breaks
/// become literal blocks (`|`), easier to read in an exported project. The text
/// is its gaps with its quoted lines between them, and the result keeps the gaps
/// and rewrites only those lines; a text whose quoted lines hold no `\n` comes
/// back unchanged.
pub fn yaml_fix_multiline_strings(raw_output: &str) -> (r: String)
    ensures
        r@ == yaml_fixed(raw_output@),
        raw_output@ == yaml_rebuilt(raw_output@),
        no_escaped_newline(raw_output@) ==> r@ == raw_output@,
{
    let caps = quoted_line_captures(raw_output);
    let gaps = quoted_line_gaps(raw_output);
    proof {
        let g = yaml_quoted_gaps(raw_output@);
        let c = yaml_quoted_captures(raw_output@);
        assert(Seq::new(gaps@.len(), |i: int| gaps@[i]@) =~= g);
        assert(gaps@[c.len() as int]@ == g[c.len() as int]);
        if no_escaped_newline(raw_output@) {
            let fixed = Seq::new(c.len(), |i: int| fixed_quoted_line(c[i].0, c[i].1, c[i].2));
            assert forall|i: int| 0 <= i < c.len() implies fixed[i] == quoted_whole_lines(c)[i] by {
                assert(!contains_seq(c[i].2, "\\n"@));
                assert(fixed[i] =~= quoted_whole_line(c[i]));
            }
            assert(fixed =~= quoted_whole_lines(c));
        }
    }
    let r = assemble_fixed_yaml(&caps, &gaps);
    proof {
        let c = yaml_quoted_captures(raw_output@);
        assert(capture_views(caps@) =~= c);
        assert(gap_views(gaps@) =~= yaml_quoted_gaps(raw_output@));
    }
    r
}

/// The texts of the captures of quoted lines.
pub open spec fn capture_views(caps: Seq<(String, String, String)>) -> Seq<(Seq<char>, Seq<char>, Seq<char>)> {
    Seq::new(caps.len(), |i: int| (caps[i].0@, caps[i].1@, caps[i].2@))
}

pub open spec fn gap_views(gaps: Seq<String>) -> Seq<Seq<char>> {
    Seq::new(gaps.len(), |i: int| gaps[i]@)
}

/// The rewritten lines of the given captures (see `fixed_quoted_line`).
pub open spec fn fixed_lines(c: Seq<(Seq<char>, Seq<char>, Seq<char>)>) -> Seq<Seq<char>> {
    Seq::new(c.len(), |i: int| fixed_quoted_line(c[i].0, c[i].1, c[i].2))
}

/// Puts a YAML text back together from the parts between its quoted lines and
/// the captures of those lines, each line rewritten by `fixed_quoted_line`:
/// `gaps[0] + fixed[0] + gaps[1] + ... + fixed[n - 1] + gaps[n]`.
pub fn assemble_fixed_yaml(caps: &Vec<(String, String, String)>, gaps: &Vec<String>) -> (r: String)
    requires
        gaps@.len() == caps@.len() + 1,
    ensures
        r@ == interleave(gap_views(gaps@), fixed_lines(capture_views(caps@)), caps@.len() as int)
            + gaps@[caps@.len() as int]@,
{
    let ghost c = capture_views(caps@);
    let ghost g = gap_views(gaps@);
    let ghost fixed = fixed_lines(c);
    let mut out = String::new();
    let mut i: usize = 0;
    while i < caps.len()
        invariant
            i <= caps@.len(),
            gaps@.len() == caps@.len() + 1,
            c == capture_views(caps@),
            g == gap_views(gaps@),
            fixed == fixed_lines(c),
            out@ == interleave(g, fixed, i as int),
        decreases caps@.len() - i,
    {
        out.append(gaps[i].as_str());
        let cap = &caps[i];
        let line = fix_quoted_line(cap.0.as_str(), cap.1.as_str(), cap.2.as_str());
        out.append(line.as_str());
        assert(g[i as int] == gaps@[i as int]@);
        assert(fixed[i as int] == line@);
        i = i + 1;
    }
    out.append(gaps[i].as_str());
    out
}

} // verus!
