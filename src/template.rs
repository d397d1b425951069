use vstd::prelude::*;
use crate::facts::{FactValue, chars_of, text_is};

verus! {

/// A character that may stand in a tag's name.
pub open spec fn is_name_char(c: char) -> bool {
    ('a' <= c && c <= 'z') || ('A' <= c && c <= 'Z') || ('0' <= c && c <= '9') || c == '_'
        || c == '-'
}

/// The position of the first `}` at or after `j`, or the length when there is
/// none.
pub open spec fn close_at(t: Seq<char>, j: int) -> int
    decreases t.len() - j,
{
    if j < 0 || j >= t.len() {
        t.len() as int
    } else if t[j] == '}' {
        j
    } else {
        close_at(t, j + 1)
    }
}

/// The position after the spaces that start at `j`, short of `k`.
pub open spec fn skip_spaces(t: Seq<char>, j: int, k: int) -> int
    decreases k - j,
{
    if 0 <= j < k && k <= t.len() && t[j] == ' ' {
        skip_spaces(t, j + 1, k)
    } else {
        j
    }
}

/// The position before the spaces that end at `k`, down to `j`.
pub open spec fn back_spaces(t: Seq<char>, j: int, k: int) -> int
    decreases k - j,
{
    if 0 <= j < k && k <= t.len() && t[k - 1] == ' ' {
        back_spaces(t, j, k - 1)
    } else {
        k
    }
}

/// A value that a plain tag can show: anything but a boolean, an array or an
/// object.
pub open spec fn is_scalar(v: FactValue) -> bool {
    match v {
        FactValue::Bool(_) | FactValue::Array(_) | FactValue::Object(_) => false,
        _ => true,
    }
}

/// Every entry of the facts under `name` holds a value that a plain tag can
/// show (trivially so when the facts are not an object).
pub open spec fn scalar_under(facts: FactValue, name: Seq<char>) -> bool {
    match facts {
        FactValue::Object(m) => forall|i: int|
            0 <= i < m@.len() && (#[trigger] m@[i]).0@ == name ==> is_scalar(m@[i].1),
        _ => true,
    }
}

/// From position `i` on, the template is plain text and simple tags: every
/// `{{` opens a tag that holds, between optional spaces, one name of name
/// characters, closed by the first `}` and a second `}`, and the name shows a
/// value that a plain tag can show.
pub open spec fn safe_from(t: Seq<char>, i: int, facts: FactValue) -> bool
    decreases t.len() - i,
{
    if i < 0 || i + 1 >= t.len() {
        true
    } else if t[i] == '{' && t[i + 1] == '{' {
        let k = close_at(t, i + 2);
        let a = skip_spaces(t, i + 2, k);
        let c = back_spaces(t, a, k);
        &&& k >= i + 2
        &&& k + 1 < t.len()
        &&& t[k + 1] == '}'
        &&& a < c
        &&& forall|m: int| a <= m < c ==> is_name_char(#[trigger] t[m])
        &&& scalar_under(facts, t.subrange(a, c))
        &&& safe_from(t, k + 2, facts)
    } else {
        safe_from(t, i + 1, facts)
    }
}

/// The template uses only simple tags, each naming a value that a plain tag
/// can show: no sections, partials, comments, unescaped or dotted tags, and no
/// change of delimiters.
pub open spec fn template_safe(t: Seq<char>, facts: FactValue) -> bool {
    safe_from(t, 0, facts)
}

fn close_at_exec(t: &Vec<char>, j: usize) -> (k: usize)
    requires
        j <= t.len(),
    ensures
        k as int == close_at(t@, j as int),
        j <= k <= t.len(),
    decreases t.len() - j,
{
    if j >= t.len() {
        t.len()
    } else if t[j] == '}' {
        j
    } else {
        close_at_exec(t, j + 1)
    }
}

fn skip_spaces_exec(t: &Vec<char>, j: usize, k: usize) -> (r: usize)
    requires
        j <= k <= t.len(),
    ensures
        r as int == skip_spaces(t@, j as int, k as int),
        j <= r <= k,
    decreases k - j,
{
    if j < k && t[j] == ' ' {
        skip_spaces_exec(t, j + 1, k)
    } else {
        j
    }
}

fn back_spaces_exec(t: &Vec<char>, j: usize, k: usize) -> (r: usize)
    requires
        j <= k <= t.len(),
    ensures
        r as int == back_spaces(t@, j as int, k as int),
        j <= r <= k,
    decreases k - j,
{
    if j < k && t[k - 1] == ' ' {
        back_spaces_exec(t, j, k - 1)
    } else {
        k
    }
}

fn all_name_chars(t: &Vec<char>, a: usize, c: usize) -> (r: bool)
    requires
        a <= c <= t.len(),
    ensures
        r == forall|m: int| a <= m < c ==> is_name_char(#[trigger] t@[m]),
{
    let mut m: usize = a;
    while m < c
        invariant
            a <= m <= c,
            c <= t.len(),
            forall|x: int| a <= x < m ==> is_name_char(#[trigger] t@[x]),
        decreases c - m,
    {
        let ch = t[m];
        if !(('a' <= ch && ch <= 'z') || ('A' <= ch && ch <= 'Z') || ('0' <= ch && ch <= '9')
            || ch == '_' || ch == '-') {
            assert(!is_name_char(t@[m as int]));
            return false;
        }
        m = m + 1;
    }
    true
}

fn slice_chars(t: &Vec<char>, a: usize, c: usize) -> (r: Vec<char>)
    requires
        a <= c <= t.len(),
    ensures
        r@ == t@.subrange(a as int, c as int),
{
    let mut r: Vec<char> = Vec::new();
    let mut m: usize = a;
    while m < c
        invariant
            a <= m <= c,
            c <= t.len(),
            r@ == t@.subrange(a as int, m as int),
        decreases c - m,
    {
        r.push(t[m]);
        m = m + 1;
        assert(r@ =~= t@.subrange(a as int, m as int));
    }
    r
}

fn scalar_under_exec(facts: &FactValue, name: &Vec<char>) -> (r: bool)
    ensures
        r == scalar_under(*facts, name@),
{
    match facts {
        FactValue::Object(m) => {
            let mut i: usize = 0;
            while i < m.len()
                invariant
                    i <= m@.len(),
                    scalar_under(*facts, name@) == forall|x: int|
                        0 <= x < m@.len() && (#[trigger] m@[x]).0@ == name@ ==> is_scalar(m@[x].1),
                    forall|x: int|
                        0 <= x < i && (#[trigger] m@[x]).0@ == name@ ==> is_scalar(m@[x].1),
                decreases m.len() - i,
            {
                if text_is(&m[i].0, name) {
                    assert(m@[i as int].0@ == name@);
                    match &m[i].1 {
                        FactValue::Bool(_) | FactValue::Array(_) | FactValue::Object(_) => {
                            return false;
                        },
                        _ => {},
                    }
                }
                i = i + 1;
            }
            true
        },
        _ => true,
    }
}

fn safe_from_exec(t: &Vec<char>, i: usize, facts: &FactValue) -> (r: bool)
    requires
        i <= t.len(),
    ensures
        r == safe_from(t@, i as int, *facts),
    decreases t.len() - i,
{
    if t.len() == 0 || i >= t.len() - 1 {
        true
    } else if t[i] == '{' && t[i + 1] == '{' {
        let k = close_at_exec(t, i + 2);
        if k >= t.len() - 1 || t[k + 1] != '}' {
            return false;
        }
        let a = skip_spaces_exec(t, i + 2, k);
        let c = back_spaces_exec(t, a, k);
        if a >= c || !all_name_chars(t, a, c) {
            return false;
        }
        let name = slice_chars(t, a, c);
        if !scalar_under_exec(facts, &name) {
            return false;
        }
        safe_from_exec(t, k + 2, facts)
    } else {
        safe_from_exec(t, i + 1, facts)
    }
}

/// Whether the template uses only simple tags that name values a plain tag
/// can show.
pub fn template_is_safe(template: &str, facts: &FactValue) -> (r: bool)
    ensures
        r == template_safe(template@, *facts),
{
    let t = chars_of(template);
    safe_from_exec(&t, 0, facts)
}

} // verus!
