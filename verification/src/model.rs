//! Deriving a model name from the benchmark tool's `info` report: anything
//! on the tool's error stream is fatal, the first line of its output must
//! read `<label>: <description>`, and the description is normalized into a
//! directory-safe name.

use vstd::prelude::*;
use crate::PipelineError;
use crate::text::{
    chars_of, find_char, lemma_find_char_from_none, lemma_find_char_from_some,
    spec_find_char_from, string_from_chars, sub_chars,
};

verus! {

/// The characters that count as whitespace when the description is
/// normalized: the Unicode white-space set.
pub open spec fn is_wsp(c: char) -> bool {
    ||| c == ' '
    ||| c == '\t'
    ||| c == '\n'
    ||| c == '\u{b}'
    ||| c == '\u{c}'
    ||| c == '\r'
    ||| c == '\u{85}'
    ||| c == '\u{a0}'
    ||| c == '\u{1680}'
    ||| ('\u{2000}' <= c && c <= '\u{200a}')
    ||| c == '\u{2028}'
    ||| c == '\u{2029}'
    ||| c == '\u{202f}'
    ||| c == '\u{205f}'
    ||| c == '\u{3000}'
}

fn is_wsp_exec(c: char) -> (r: bool)
    ensures
        r == is_wsp(c),
{
    c == ' ' || c == '\t' || c == '\n' || c == '\u{b}' || c == '\u{c}' || c == '\r'
        || c == '\u{85}' || c == '\u{a0}' || c == '\u{1680}' || ('\u{2000}' <= c && c
        <= '\u{200a}') || c == '\u{2028}' || c == '\u{2029}' || c == '\u{202f}' || c == '\u{205f}'
        || c == '\u{3000}'
}

/// The rest of the normalization, walking `s` from position `i`:
/// whitespace emits nothing but leaves an underscore pending once a word
/// has been seen; every other character flushes the pending underscore
/// and emits itself.
pub open spec fn spec_collapse_from(
    s: Seq<char>,
    i: int,
    word_seen: bool,
    pending: bool,
) -> Seq<char>
    decreases s.len() - i,
{
    if i < 0 || i >= s.len() {
        Seq::empty()
    } else if is_wsp(s[i]) {
        spec_collapse_from(s, i + 1, word_seen, word_seen)
    } else if pending {
        seq!['_', s[i]] + spec_collapse_from(s, i + 1, true, false)
    } else {
        seq![s[i]] + spec_collapse_from(s, i + 1, true, false)
    }
}

/// A description normalized for use as a directory name: runs of
/// whitespace between words become one underscore each, and whitespace at
/// either end disappears.
pub open spec fn spec_normalized(s: Seq<char>) -> Seq<char> {
    spec_collapse_from(s, 0, false, false)
}

/// Collapse every whitespace run in `desc` to a single underscore,
/// dropping leading and trailing whitespace.
pub fn normalize_description(desc: &Vec<char>) -> (r: Vec<char>)
    ensures
        r@ == spec_normalized(desc@),
{
    let mut r: Vec<char> = Vec::new();
    let mut word_seen = false;
    let mut pending = false;
    let mut i: usize = 0;
    proof {
        assert(Seq::<char>::empty() + spec_normalized(desc@) =~= spec_normalized(desc@));
    }
    while i < desc.len()
        invariant
            i <= desc@.len(),
            spec_normalized(desc@) == r@ + spec_collapse_from(desc@, i as int, word_seen, pending),
        decreases desc@.len() - i,
    {
        let ghost r0 = r@;
        let ghost rest = spec_collapse_from(desc@, i + 1 as int, true, false);
        let c = desc[i];
        if is_wsp_exec(c) {
            pending = word_seen;
            proof {
                assert(spec_collapse_from(desc@, i as int, word_seen, true)
                    == spec_collapse_from(desc@, i + 1 as int, word_seen, word_seen));
                assert(spec_collapse_from(desc@, i as int, word_seen, false)
                    == spec_collapse_from(desc@, i + 1 as int, word_seen, word_seen));
            }
        } else {
            if pending {
                r.push('_');
                r.push(c);
                proof {
                    assert(spec_collapse_from(desc@, i as int, word_seen, true) == seq![
                        '_',
                        desc@[i as int],
                    ] + rest);
                    assert(r@ =~= r0 + seq!['_', desc@[i as int]]);
                    assert(r0 + (seq!['_', desc@[i as int]] + rest) =~= r@ + rest);
                }
            } else {
                r.push(c);
                proof {
                    assert(spec_collapse_from(desc@, i as int, word_seen, false) == seq![
                        desc@[i as int],
                    ] + rest);
                    assert(r@ =~= r0 + seq![desc@[i as int]]);
                    assert(r0 + (seq![desc@[i as int]] + rest) =~= r@ + rest);
                }
            }
            word_seen = true;
            pending = false;
        }
        i += 1;
    }
    proof {
        assert(r@ + Seq::<char>::empty() =~= r@);
    }
    r
}

proof fn lemma_collapse_has_no_whitespace(s: Seq<char>, i: int, word_seen: bool, pending: bool)
    ensures
        forall|k: int| 0 <= k < spec_collapse_from(s, i, word_seen, pending).len() ==> !is_wsp(
            #[trigger] spec_collapse_from(s, i, word_seen, pending)[k],
        ),
    decreases s.len() - i,
{
    if i < 0 || i >= s.len() {
    } else if is_wsp(s[i]) {
        lemma_collapse_has_no_whitespace(s, i + 1, word_seen, word_seen);
        let out = spec_collapse_from(s, i, word_seen, pending);
        let rest = spec_collapse_from(s, i + 1, word_seen, word_seen);
        assert forall|k: int| 0 <= k < out.len() implies !is_wsp(out[k]) by {
            assert(out[k] == rest[k]);
        }
    } else {
        lemma_collapse_has_no_whitespace(s, i + 1, true, false);
        let out = spec_collapse_from(s, i, word_seen, pending);
        let rest = spec_collapse_from(s, i + 1, true, false);
        let head: Seq<char> = if pending {
            seq!['_', s[i]]
        } else {
            seq![s[i]]
        };
        assert(out == head + rest);
        assert forall|k: int| 0 <= k < out.len() implies !is_wsp(out[k]) by {
            assert(!is_wsp('_'));
            if k < head.len() {
                assert(out[k] == head[k]);
            } else {
                assert(out[k] == rest[k - head.len()]);
            }
        }
    }
}

/// A normalized model name holds no whitespace at all: every run was
/// collapsed to an underscore, so the name is safe to use as a single
/// path component.
pub proof fn lemma_normalized_has_no_whitespace(s: Seq<char>)
    ensures
        forall|k: int| 0 <= k < spec_normalized(s).len() ==> !is_wsp(
            #[trigger] spec_normalized(s)[k],
        ),
{
    lemma_collapse_has_no_whitespace(s, 0, false, false);
}

/// The first position at or after `i` where `line` reads `": "`, if any.
pub open spec fn spec_find_sep_from(line: Seq<char>, i: int) -> Option<int>
    decreases line.len() - i,
{
    if i < 0 || i + 1 >= line.len() {
        None
    } else if line[i] == ':' && line[i + 1] == ' ' {
        Some(i)
    } else {
        spec_find_sep_from(line, i + 1)
    }
}

proof fn lemma_find_sep_from_some(line: Seq<char>, i: int)
    requires
        0 <= i,
        spec_find_sep_from(line, i) is Some,
    ensures
        spec_find_sep_from(line, i) matches Some(k) && i <= k && k + 1 < line.len()
            && line[k] == ':' && line[k + 1] == ' ',
    decreases line.len() - i,
{
    if i + 1 < line.len() && !(line[i] == ':' && line[i + 1] == ' ') {
        lemma_find_sep_from_some(line, i + 1);
    }
}

fn find_sep(line: &Vec<char>) -> (r: Option<usize>)
    ensures
        match r {
            Some(i) => spec_find_sep_from(line@, 0) == Some(i as int),
            None => spec_find_sep_from(line@, 0) is None,
        },
{
    if line.len() == 0 {
        return None;
    }
    let mut i: usize = 0;
    while i < line.len() - 1
        invariant
            line@.len() >= 1,
            i <= line@.len() - 1,
            spec_find_sep_from(line@, 0) == spec_find_sep_from(line@, i as int),
        decreases line@.len() - i,
    {
        if line[i] == ':' && line[i + 1] == ' ' {
            return Some(i);
        }
        i += 1;
    }
    None
}

/// The model name that an `info` report yields: the text after the first
/// `": "` on the report's first line, normalized; `None` where the report
/// has no complete first line of that shape.
pub open spec fn spec_model_name_of_report(stdout: Seq<char>) -> Option<Seq<char>> {
    match spec_find_char_from(stdout, '\n', 0) {
        Some(nl) => {
            let line = stdout.take(nl);
            match spec_find_sep_from(line, 0) {
                Some(sep) => Some(spec_normalized(line.skip(sep + 2))),
                None => None,
            }
        },
        None => None,
    }
}

/// Any text on the tool's error stream is fatal, whatever the tool's exit
/// status said: warnings must not be swallowed.
pub fn check_tool_stderr(stderr: &str) -> (r: Result<(), PipelineError>)
    ensures
        match r {
            Ok(()) => stderr@.len() == 0,
            Err(PipelineError::ExternalToolError { stderr: e }) => stderr@.len() > 0 && e@
                == stderr@,
            Err(_) => false,
        },
{
    if stderr.unicode_len() == 0 {
        Ok(())
    } else {
        Err(PipelineError::ExternalToolError { stderr: String::from_str(stderr) })
    }
}

/// Read the model name out of one `info` run of the benchmark tool, given
/// what the tool wrote to its two streams.
///
/// Anything on the error stream wins; then the report must open with a
/// `<label>: <description>` line; and the normalized description must be
/// usable as a directory name, so a path separator in it is refused.
pub fn model_name_from_info(stdout: &str, stderr: &str) -> (r: Result<String, PipelineError>)
    ensures
        match r {
            Ok(name) => {
                &&& stderr@.len() == 0
                &&& spec_model_name_of_report(stdout@) matches Some(m) && m == name@
                &&& !name@.contains('/')
            },
            Err(PipelineError::ExternalToolError { stderr: e }) => stderr@.len() > 0 && e@
                == stderr@,
            Err(PipelineError::ParseError) => stderr@.len() == 0 && spec_model_name_of_report(
                stdout@,
            ) is None,
            Err(PipelineError::InvalidModelName) => {
                &&& stderr@.len() == 0
                &&& spec_model_name_of_report(stdout@) matches Some(m) && m.contains('/')
            },
            Err(_) => false,
        },
{
    match check_tool_stderr(stderr) {
        Ok(()) => (),
        Err(e) => {
            return Err(e);
        },
    }
    let chars = chars_of(stdout);
    let nl = match find_char(&chars, '\n') {
        Some(nl) => nl,
        None => {
            return Err(PipelineError::ParseError);
        },
    };
    proof {
        lemma_find_char_from_some(stdout@, '\n', 0);
    }
    let line = sub_chars(&chars, 0, nl);
    proof {
        assert(line@ =~= stdout@.take(nl as int));
    }
    let sep = match find_sep(&line) {
        Some(s) => s,
        None => {
            return Err(PipelineError::ParseError);
        },
    };
    proof {
        lemma_find_sep_from_some(line@, 0);
    }
    let desc = sub_chars(&line, sep + 2, line.len());
    proof {
        assert(desc@ =~= line@.skip(sep + 2));
    }
    let name = normalize_description(&desc);
    match find_char(&name, '/') {
        Some(k) => {
            proof {
                lemma_find_char_from_some(name@, '/', 0);
                assert(name@.contains('/'));
            }
            Err(PipelineError::InvalidModelName)
        },
        None => {
            proof {
                lemma_find_char_from_none(name@, '/', 0);
                assert(!name@.contains('/')) by {
                    if name@.contains('/') {
                        let j = choose|j: int| 0 <= j < name@.len() && name@[j] == '/';
                        assert(name@[j] != '/');
                    }
                }
            }
            Ok(string_from_chars(&name))
        },
    }
}

/// The argument list for the benchmark tool's `info` call on one result
/// file.
pub fn info_args(result_path: &str) -> (r: Vec<String>)
    ensures
        r.deep_view() == seq!["--result"@, result_path@, "info"@],
{
    let mut r: Vec<String> = Vec::new();
    r.push(String::from_str("--result"));
    r.push(String::from_str(result_path));
    r.push(String::from_str("info"));
    proof {
        assert(r.deep_view() =~= seq!["--result"@, result_path@, "info"@]);
    }
    r
}

/// The summary shown beside each downloaded file; no summary is drawn
/// from the reports yet.
pub fn get_summary(_filename: &str) -> (r: Result<String, PipelineError>)
    ensures
        r matches Ok(s) && s@.len() == 0,
{
    Ok(String::new())
}

} // verus!
