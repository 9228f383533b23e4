//! Interpreting what the external version-control backend answers: the
//! pure part of reading a configuration field, over the decoded output
//! of the backend command.

use vstd::prelude::*;
use vstd::string::StringExecFns;
use crate::errors::GitError;
use crate::chars::{chars_of_str, string_from_chars};

verus! {

/// The whitespace that is stripped from the backend's output.
pub open spec fn is_ws(c: char) -> bool {
    c == ' ' || c == '\t' || c == '\n' || c == '\r'
}

/// The sequence without its leading whitespace.
pub open spec fn lstrip(s: Seq<char>) -> Seq<char>
    decreases s.len(),
{
    if s.len() > 0 && is_ws(s[0]) {
        lstrip(s.skip(1))
    } else {
        s
    }
}

/// The sequence without its trailing whitespace.
pub open spec fn rstrip(s: Seq<char>) -> Seq<char>
    decreases s.len(),
{
    if s.len() > 0 && is_ws(s.last()) {
        rstrip(s.take(s.len() - 1))
    } else {
        s
    }
}

/// The sequence without leading and trailing whitespace.
pub open spec fn trim_spec(s: Seq<char>) -> Seq<char> {
    rstrip(lstrip(s))
}

/// Whether the character counts as whitespace, as executable code.
fn is_ws_exec(c: char) -> (r: bool)
    ensures
        r == is_ws(c),
{
    c == ' ' || c == '\t' || c == '\n' || c == '\r'
}

/// The characters of `v` without leading and trailing whitespace.
pub fn trim_chars(v: &Vec<char>) -> (r: Vec<char>)
    ensures
        r@ == trim_spec(v@),
{
    let mut start: usize = 0;
    proof {
        assert(v@.skip(0) =~= v@);
    }
    while start < v.len() && is_ws_exec(v[start])
        invariant
            start <= v@.len(),
            lstrip(v@) == lstrip(v@.skip(start as int)),
        decreases v@.len() - start,
    {
        proof {
            assert(v@.skip(start as int).skip(1) =~= v@.skip(start + 1));
            assert(v@.skip(start as int)[0] == v@[start as int]);
        }
        start = start + 1;
    }
    assert(lstrip(v@) == v@.skip(start as int)) by {
        if start < v@.len() {
            assert(v@.skip(start as int)[0] == v@[start as int]);
        }
    }
    let mut end: usize = v.len();
    proof {
        assert(v@.subrange(start as int, v@.len() as int) =~= v@.skip(start as int));
    }
    while end > start && is_ws_exec(v[end - 1])
        invariant
            start <= end <= v@.len(),
            rstrip(v@.skip(start as int)) == rstrip(v@.subrange(start as int, end as int)),
        decreases end,
    {
        proof {
            let sub = v@.subrange(start as int, end as int);
            assert(sub.take(sub.len() - 1) =~= v@.subrange(start as int, end - 1));
            assert(sub.last() == v@[end - 1]);
        }
        end = end - 1;
    }
    proof {
        let sub = v@.subrange(start as int, end as int);
        if end > start {
            assert(sub.last() == v@[end - 1]);
        }
        assert(rstrip(sub) == sub);
    }
    let mut out: Vec<char> = Vec::new();
    let mut i: usize = start;
    while i < end
        invariant
            start <= i <= end <= v@.len(),
            out@ == v@.subrange(start as int, i as int),
        decreases end - i,
    {
        out.push(v[i]);
        assert(out@ =~= v@.subrange(start as int, i + 1));
        i = i + 1;
    }
    out
}

/// The message when the backend command reports failure on a field.
pub open spec fn read_fail_msg(field: Seq<char>, err_text: Seq<char>) -> Seq<char> {
    "Git config command failed for field '"@ + field + "': "@ + err_text
}

/// The message when a field is present but holds nothing.
pub open spec fn not_set_msg(field: Seq<char>) -> Seq<char> {
    "Git config field '"@ + field + "' is not set"@
}

/// The error text taken from the backend: its error stream if it
/// decoded, a fixed phrase otherwise.
pub open spec fn stderr_text(stderr: Option<&str>) -> Seq<char> {
    match stderr {
        Some(e) => e@,
        None => "Unknown error"@,
    }
}

/// Interprets the decoded output of the backend's read of one field: a
/// reported failure carries the trimmed error text, an all-whitespace
/// answer means the field is not set, and otherwise the trimmed value
/// is the field's content.
pub fn interpret_config_output(field: &str, success: bool, stdout: &str, stderr: Option<&str>)
    -> (r: Result<String, GitError>)
    ensures
        !success ==> (r matches Err(e) && e matches GitError::ConfigReadError(m) && m@
            == read_fail_msg(field@, trim_spec(stderr_text(stderr)))),
        success && trim_spec(stdout@).len() == 0 ==> (r matches Err(e) && e
            matches GitError::ConfigReadError(m) && m@ == not_set_msg(field@)),
        success && trim_spec(stdout@).len() > 0 ==> (r matches Ok(v) && v@ == trim_spec(
            stdout@,
        )),
{
    if !success {
        let err_text: &str = match stderr {
            Some(e) => e,
            None => "Unknown error",
        };
        let echars = chars_of_str(err_text);
        let trimmed = trim_chars(&echars);
        let t = string_from_chars(&trimmed);
        let mut msg = String::from_str("Git config command failed for field '");
        msg.append(field);
        msg.append("': ");
        msg.append(t.as_str());
        return Err(GitError::ConfigReadError(msg));
    }
    let ochars = chars_of_str(stdout);
    let trimmed = trim_chars(&ochars);
    if trimmed.len() == 0 {
        let mut msg = String::from_str("Git config field '");
        msg.append(field);
        msg.append("' is not set");
        return Err(GitError::ConfigReadError(msg));
    }
    Ok(string_from_chars(&trimmed))
}

} // verus!
