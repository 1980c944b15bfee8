//! Text helpers shared by the parameter and harvesting logic.
use vstd::prelude::*;
use vstd::string::StrSliceExecFns;
use vstd::string::StringExecFns;

verus! {

/// Index of the first `'\n'` in `s` at or after `i`, or `s.len()` if none.
pub open spec fn line_end_from(s: Seq<char>, i: int) -> int
    decreases s.len() - i,
{
    if i < 0 || i >= s.len() || s[i] == '\n' {
        if i < 0 { 0 } else { i }
    } else {
        line_end_from(s, i + 1)
    }
}

/// Index of the first `'\n'` in `s`, or `s.len()` if none.
pub open spec fn line_end(s: Seq<char>) -> int {
    line_end_from(s, 0)
}

/// The first line of `s`: everything before the first line feed, without the
/// carriage return of a `"\r\n"` ending.
pub open spec fn first_line_of(s: Seq<char>) -> Seq<char> {
    let e = line_end(s);
    if e < s.len() && e > 0 && s[e - 1] == '\r' {
        s.take(e - 1)
    } else {
        s.take(e)
    }
}

/// A value that survives being printed on a line of its own and read back:
/// no line feed, and no trailing carriage return.
pub open spec fn is_single_line(s: Seq<char>) -> bool {
    &&& forall|j: int| 0 <= j < s.len() ==> s[j] != '\n'
    &&& (s.len() > 0 ==> s.last() != '\r')
}

proof fn lemma_line_end_from_bounds(s: Seq<char>, i: int)
    requires
        0 <= i <= s.len(),
    ensures
        i <= line_end_from(s, i) <= s.len(),
        line_end_from(s, i) == s.len() || s[line_end_from(s, i)] == '\n',
    decreases s.len() - i,
{
    if i < s.len() && s[i] != '\n' {
        lemma_line_end_from_bounds(s, i + 1);
    }
}

proof fn lemma_line_end_no_newline(s: Seq<char>, i: int)
    requires
        0 <= i <= s.len(),
        forall|j: int| i <= j < s.len() ==> s[j] != '\n',
    ensures
        line_end_from(s, i) == s.len(),
    decreases s.len() - i,
{
    if i < s.len() {
        lemma_line_end_no_newline(s, i + 1);
    }
}

/// Printing a single-line value followed by a line feed and taking the first
/// line gives the value back.
pub proof fn lemma_first_line_of_printed(v: Seq<char>)
    requires
        is_single_line(v),
    ensures
        first_line_of(v.push('\n')) == v,
{
    let s = v.push('\n');
    assert forall|j: int| 0 <= j < v.len() implies s[j] != '\n' by {
        assert(s[j] == v[j]);
    }
    lemma_line_end_no_newline(v, 0);
    lemma_line_end_prefix(s, v.len() as int);
    assert(s.take(v.len() as int) =~= v);
}

proof fn lemma_line_end_prefix(s: Seq<char>, n: int)
    requires
        0 <= n < s.len(),
        s[n] == '\n',
        forall|j: int| 0 <= j < n ==> s[j] != '\n',
    ensures
        line_end(s) == n,
{
    lemma_line_end_upto(s, 0, n);
}

proof fn lemma_line_end_upto(s: Seq<char>, i: int, n: int)
    requires
        0 <= i <= n < s.len(),
        s[n] == '\n',
        forall|j: int| 0 <= j < n ==> s[j] != '\n',
    ensures
        line_end_from(s, i) == n,
    decreases n - i,
{
    if i < n {
        lemma_line_end_upto(s, i + 1, n);
    }
}

/// The first line of `output`, or `None` when `output` holds no line at all
/// (it is empty).
pub fn first_line(output: &str) -> (r: Option<String>)
    ensures
        output@.len() == 0 <==> r is None,
        r matches Some(l) ==> l@ == first_line_of(output@),
{
    let n = output.unicode_len();
    if n == 0 {
        return None;
    }
    let mut i: usize = 0;
    while i < n && output.get_char(i) != '\n'
        invariant
            n == output@.len(),
            0 <= i <= n,
            line_end_from(output@, i as int) == line_end(output@),
        decreases n - i,
    {
        i = i + 1;
    }
    proof {
        lemma_line_end_from_bounds(output@, i as int);
    }
    let mut e = i;
    if i < n && i > 0 && output.get_char(i - 1) == '\r' {
        e = i - 1;
    }
    let line = output.substring_char(0, e);
    Some(String::from_str(line))
}

/// `name=value`, the argument form of a parameter assignment.
pub open spec fn assignment_of(name: Seq<char>, value: Seq<char>) -> Seq<char> {
    name + seq!['='] + value
}

/// Builds the `name=value` assignment handed to the host's parameter setter.
pub fn assignment(name: &str, value: &str) -> (r: String)
    ensures
        r@ == assignment_of(name@, value@),
{
    let mut r = String::from_str(name);
    r.append("=");
    r.append(value);
    proof {
        reveal_strlit("=");
    }
    r
}

/// `dir/name`.
pub open spec fn join_of(dir: Seq<char>, name: Seq<char>) -> Seq<char> {
    dir + seq!['/'] + name
}

/// Joins a directory and a file name with one `'/'`.
pub fn join_path(dir: &str, name: &str) -> (r: String)
    ensures
        r@ == join_of(dir@, name@),
{
    let mut r = String::from_str(dir);
    r.append("/");
    r.append(name);
    proof {
        reveal_strlit("/");
    }
    r
}

} // verus!
