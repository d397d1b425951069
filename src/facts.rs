use vstd::prelude::*;

verus! {

/// A JSON number, as the rules read it.
#[derive(Debug, Clone)]
pub enum Number {
    /// A number that is an integer within the range of `i64`.
    Int(i64),
    /// Any other number (a fraction, or an integer beyond `i64`), as its
    /// shortest decimal text.
    Text(String),
}

/// A tree of facts: structured data in the shape of a JSON value.
///
/// An object keeps its entries in order. Its keys are expected to be
/// distinct, as in a JSON object; where a key repeats, lookups read its first
/// entry.
#[derive(Debug)]
pub enum FactValue {
    Null,
    Bool(bool),
    Number(Number),
    String(String),
    Array(Vec<FactValue>),
    Object(Vec<(String, FactValue)>),
}

/// The text of the value when it is a string.
pub open spec fn str_of(v: FactValue) -> Option<Seq<char>> {
    match v {
        FactValue::String(s) => Some(s@),
        _ => None,
    }
}

/// The value as an `i64`, when it is an integer in range.
pub open spec fn int_of(v: FactValue) -> Option<i64> {
    match v {
        FactValue::Number(Number::Int(n)) => Some(n),
        _ => None,
    }
}

/// The value as a boolean, when it is one.
pub open spec fn bool_of(v: FactValue) -> Option<bool> {
    match v {
        FactValue::Bool(b) => Some(b),
        _ => None,
    }
}

/// The first entry of an object under `key`, searching from index `i`.
pub open spec fn lookup_from(m: Seq<(String, FactValue)>, key: Seq<char>, i: int) -> Option<FactValue>
    decreases m.len() - i,
{
    if i < 0 || i >= m.len() {
        None
    } else if m[i].0@ == key {
        Some(m[i].1)
    } else {
        lookup_from(m, key, i + 1)
    }
}

/// The value of the first entry of an object under `key`.
pub open spec fn lookup(m: Seq<(String, FactValue)>, key: Seq<char>) -> Option<FactValue> {
    lookup_from(m, key, 0)
}

/// `s` split at every `/`; an empty text gives one empty token.
pub open spec fn split_slash(s: Seq<char>) -> Seq<Seq<char>>
    decreases s.len(),
{
    if s.len() == 0 {
        seq![Seq::<char>::empty()]
    } else {
        let r = split_slash(s.drop_last());
        if s.last() == '/' {
            r.push(Seq::<char>::empty())
        } else {
            r.update(r.len() - 1, r.last().push(s.last()))
        }
    }
}

/// Every `~` followed by `c` replaced by `by`, scanning left to right.
pub open spec fn unescape_pair(t: Seq<char>, c: char, by: char) -> Seq<char>
    decreases t.len(),
{
    if t.len() < 2 {
        t
    } else if t[0] == '~' && t[1] == c {
        seq![by] + unescape_pair(t.subrange(2, t.len() as int), c, by)
    } else {
        seq![t[0]] + unescape_pair(t.subrange(1, t.len() as int), c, by)
    }
}

/// A pointer token decoded: `~1` stands for `/`, then `~0` for `~`.
pub open spec fn unescape(t: Seq<char>) -> Seq<char> {
    unescape_pair(unescape_pair(t, '1', '/'), '0', '~')
}

pub open spec fn is_digit(c: char) -> bool {
    '0' <= c && c <= '9'
}

pub open spec fn digit_value(c: char) -> nat {
    (c as nat - '0' as nat) as nat
}

/// The number that a text of decimal digits writes.
pub open spec fn decimal_value(t: Seq<char>) -> nat
    decreases t.len(),
{
    if t.len() == 0 {
        0
    } else {
        decimal_value(t.drop_last()) * 10 + digit_value(t.last())
    }
}

/// An array index as a pointer token writes it: decimal digits, no sign, no
/// leading zero, within `usize`.
pub open spec fn index_of(t: Seq<char>) -> Option<nat> {
    if t.len() == 0 || (t.len() > 1 && t[0] == '0') || !(forall|i: int|
        0 <= i < t.len() ==> is_digit(#[trigger] t[i])) || decimal_value(t) > usize::MAX {
        None
    } else {
        Some(decimal_value(t))
    }
}

/// One step of a pointer: an object's entry by key, or an array's item by index.
pub open spec fn step(v: FactValue, token: Seq<char>) -> Option<FactValue> {
    match v {
        FactValue::Object(m) => lookup(m@, token),
        FactValue::Array(a) => match index_of(token) {
            Some(n) => if n < a.len() {
                Some(a@[n as int])
            } else {
                None
            },
            None => None,
        },
        _ => None,
    }
}

/// Follows the (still escaped) tokens from `v`.
pub open spec fn follow(v: FactValue, tokens: Seq<Seq<char>>) -> Option<FactValue>
    decreases tokens.len(),
{
    if tokens.len() == 0 {
        Some(v)
    } else {
        match step(v, unescape(tokens[0])) {
            Some(c) => follow(c, tokens.drop_first()),
            None => None,
        }
    }
}

/// The tokens of the pointer that a field names: the field with a leading `/`
/// put in front when it has none, split at `/`, the part before the first `/`
/// left out.
pub open spec fn field_tokens(field: Seq<char>) -> Seq<Seq<char>> {
    if field.len() > 0 && field[0] == '/' {
        split_slash(field.drop_first())
    } else {
        split_slash(field)
    }
}

/// The value that `field` names in `facts`, if there is one.
pub open spec fn field_value(facts: FactValue, field: Seq<char>) -> Option<FactValue> {
    follow(facts, field_tokens(field))
}

proof fn lemma_split_nonempty(s: Seq<char>)
    ensures
        split_slash(s).len() >= 1,
    decreases s.len(),
{
    if s.len() > 0 {
        lemma_split_nonempty(s.drop_last());
    }
}

/// The characters of a text.
pub(crate) fn chars_of(s: &str) -> (r: Vec<char>)
    ensures
        r@ == s@,
{
    let n = s.unicode_len();
    let mut r: Vec<char> = Vec::new();
    let mut i: usize = 0;
    while i < n
        invariant
            n == s@.len(),
            i <= n,
            r@ == s@.subrange(0, i as int),
        decreases n - i,
    {
        r.push(s.get_char(i));
        i = i + 1;
        assert(r@ =~= s@.subrange(0, i as int));
    }
    assert(r@ =~= s@);
    r
}

/// The characters from `start` on, split at every `/`.
fn split_at_slashes(s: &Vec<char>, start: usize) -> (r: Vec<Vec<char>>)
    requires
        start <= s.len(),
    ensures
        r@.map_values(|t: Vec<char>| t@) == split_slash(s@.subrange(start as int, s.len() as int)),
{
    let mut done: Vec<Vec<char>> = Vec::new();
    let mut cur: Vec<char> = Vec::new();
    let mut i: usize = start;
    assert(s@.subrange(start as int, start as int) =~= Seq::<char>::empty());
    while i < s.len()
        invariant
            start <= i <= s.len(),
            done@.map_values(|t: Vec<char>| t@).push(cur@) == split_slash(
                s@.subrange(start as int, i as int),
            ),
        decreases s.len() - i,
    {
        let c = s[i];
        let ghost prev = s@.subrange(start as int, i as int);
        let ghost next = s@.subrange(start as int, i + 1);
        assert(next.drop_last() =~= prev);
        assert(next.last() == c);
        proof {
            lemma_split_nonempty(prev);
        }
        if c == '/' {
            let old_cur = cur;
            cur = Vec::new();
            done.push(old_cur);
            assert(done@.map_values(|t: Vec<char>| t@).push(cur@) =~= split_slash(prev).push(
                Seq::<char>::empty(),
            ));
        } else {
            cur.push(c);
            assert(done@.map_values(|t: Vec<char>| t@).push(cur@) =~= split_slash(prev).update(
                split_slash(prev).len() - 1,
                split_slash(prev).last().push(c),
            ));
        }
        i = i + 1;
    }
    done.push(cur);
    done
}

/// Replaces every `~` followed by `c` with `by`, scanning left to right.
fn unescape_pair_exec(t: &Vec<char>, c: char, by: char) -> (r: Vec<char>)
    ensures
        r@ == unescape_pair(t@, c, by),
{
    let mut out: Vec<char> = Vec::new();
    let mut i: usize = 0;
    assert(t@.subrange(0, t.len() as int) =~= t@);
    assert(out@ + t@ =~= t@);
    while i < t.len()
        invariant
            i <= t.len(),
            unescape_pair(t@, c, by) == out@ + unescape_pair(
                t@.subrange(i as int, t.len() as int),
                c,
                by,
            ),
        decreases t.len() - i,
    {
        let ghost rest = t@.subrange(i as int, t.len() as int);
        if i + 1 < t.len() && t[i] == '~' && t[i + 1] == c {
            out.push(by);
            assert(rest.subrange(2, rest.len() as int) =~= t@.subrange(i + 2, t.len() as int));
            assert(out@ + unescape_pair(t@.subrange(i + 2, t.len() as int), c, by) =~= out@.drop_last()
                + (seq![by] + unescape_pair(rest.subrange(2, rest.len() as int), c, by)));
            i = i + 2;
        } else if i + 1 < t.len() {
            out.push(t[i]);
            assert(rest.subrange(1, rest.len() as int) =~= t@.subrange(i + 1, t.len() as int));
            assert(out@ + unescape_pair(t@.subrange(i + 1, t.len() as int), c, by) =~= out@.drop_last()
                + (seq![t@[i as int]] + unescape_pair(rest.subrange(1, rest.len() as int), c, by)));
            i = i + 1;
        } else {
            out.push(t[i]);
            assert(rest =~= seq![t@[i as int]]);
            assert(t@.subrange(i + 1, t.len() as int) =~= Seq::<char>::empty());
            assert(out@ + unescape_pair(t@.subrange(i + 1, t.len() as int), c, by) =~= out@.drop_last()
                + rest);
            i = i + 1;
        }
    }
    assert(out@ + unescape_pair(t@.subrange(i as int, t.len() as int), c, by) =~= out@);
    out
}

/// Decodes a pointer token.
fn unescape_exec(t: &Vec<char>) -> (r: Vec<char>)
    ensures
        r@ == unescape(t@),
{
    let once = unescape_pair_exec(t, '1', '/');
    unescape_pair_exec(&once, '0', '~')
}

/// Reads a pointer token as an array index.
pub fn parse_index(t: &Vec<char>) -> (r: Option<usize>)
    ensures
        match r {
            Some(n) => index_of(t@) == Some(n as nat),
            None => index_of(t@) is None,
        },
{
    if t.len() == 0 || (t.len() > 1 && t[0] == '0') {
        return None;
    }
    let mut acc: usize = 0;
    let mut i: usize = 0;
    while i < t.len()
        invariant
            i <= t.len(),
            t.len() > 0,
            forall|j: int| 0 <= j < i ==> is_digit(#[trigger] t@[j]),
            acc as nat == decimal_value(t@.subrange(0, i as int)),
        decreases t.len() - i,
    {
        let c = t[i];
        let ghost pre = t@.subrange(0, i as int);
        let ghost next = t@.subrange(0, i + 1);
        assert(next.drop_last() =~= pre);
        if !('0' <= c && c <= '9') {
            assert(!is_digit(t@[i as int]));
            return None;
        }
        let d = (c as u32 - '0' as u32) as usize;
        assert(d as nat == digit_value(c));
        if acc > (usize::MAX - d) / 10 {
            proof {
                lemma_decimal_prefix_le(t@, i as int + 1);
                assert(decimal_value(next) == acc * 10 + d);
                assert(acc * 10 + d > usize::MAX) by (nonlinear_arith)
                    requires
                        acc > (usize::MAX - d) / 10,
                        d <= 9,
                ;
            }
            return None;
        }
        assert(acc * 10 + d <= usize::MAX) by (nonlinear_arith)
            requires
                acc <= (usize::MAX - d) / 10,
                d <= 9,
        ;
        acc = acc * 10 + d;
        i = i + 1;
    }
    assert(t@.subrange(0, t.len() as int) =~= t@);
    Some(acc)
}

/// A prefix of a digit text never writes a larger number than the whole.
proof fn lemma_decimal_prefix_le(t: Seq<char>, k: int)
    requires
        0 <= k <= t.len(),
    ensures
        decimal_value(t.subrange(0, k)) <= decimal_value(t),
    decreases t.len() - k,
{
    if k < t.len() {
        lemma_decimal_prefix_le(t, k + 1);
        let p = t.subrange(0, k + 1);
        assert(p.drop_last() =~= t.subrange(0, k));
    } else {
        assert(t.subrange(0, k) =~= t);
    }
}

/// Whether a text equals the given characters.
pub(crate) fn text_is(s: &String, t: &Vec<char>) -> (r: bool)
    ensures
        r == (s@ == t@),
{
    let n = s.as_str().unicode_len();
    if n != t.len() {
        return false;
    }
    let mut i: usize = 0;
    while i < n
        invariant
            n == s@.len(),
            n == t@.len(),
            i <= n,
            forall|j: int| 0 <= j < i ==> s@[j] == t@[j],
        decreases n - i,
    {
        if s.as_str().get_char(i) != t[i] {
            return false;
        }
        i = i + 1;
    }
    assert(s@ =~= t@);
    true
}

/// One step of a pointer from `v`.
fn step_exec<'a>(v: &'a FactValue, token: &Vec<char>) -> (r: Option<&'a FactValue>)
    ensures
        match r {
            Some(c) => step(*v, token@) == Some(*c),
            None => step(*v, token@) is None,
        },
{
    match v {
        FactValue::Object(m) => {
            assert(step(*v, token@) == lookup(m@, token@));
            let mut i: usize = 0;
            while i < m.len()
                invariant
                    i <= m.len(),
                    step(*v, token@) == lookup(m@, token@),
                    lookup(m@, token@) == lookup_from(m@, token@, i as int),
                decreases m.len() - i,
            {
                if text_is(&m[i].0, token) {
                    let found = &m[i].1;
                    assert(lookup_from(m@, token@, i as int) == Some(*found));
                    return Some(found);
                }
                i = i + 1;
            }
            None
        },
        FactValue::Array(a) => {
            match parse_index(token) {
                Some(n) => {
                    if n < a.len() {
                        Some(&a[n])
                    } else {
                        None
                    }
                },
                None => None,
            }
        },
        _ => None,
    }
}

/// The value that `field` names in `facts`: a slash-delimited pointer, with a
/// leading `/` assumed where the field has none.
pub fn resolve<'a>(facts: &'a FactValue, field: &str) -> (r: Option<&'a FactValue>)
    ensures
        match r {
            Some(v) => field_value(*facts, field@) == Some(*v),
            None => field_value(*facts, field@) is None,
        },
{
    let chars = chars_of(field);
    let start: usize = if chars.len() > 0 && chars[0] == '/' {
        1
    } else {
        0
    };
    let tokens = split_at_slashes(&chars, start);
    let ghost toks = tokens@.map_values(|t: Vec<char>| t@);
    proof {
        if start == 1 {
            assert(chars@.subrange(1, chars@.len() as int) =~= field@.drop_first());
        } else {
            assert(chars@.subrange(0, chars@.len() as int) =~= field@);
        }
        assert(toks == field_tokens(field@));
    }
    let mut cur: &FactValue = facts;
    let mut i: usize = 0;
    assert(toks.subrange(0, toks.len() as int) =~= toks);
    while i < tokens.len()
        invariant
            i <= tokens.len(),
            toks == tokens@.map_values(|t: Vec<char>| t@),
            field_value(*facts, field@) == follow(*cur, toks.subrange(i as int, toks.len() as int)),
        decreases tokens.len() - i,
    {
        let ghost rest = toks.subrange(i as int, toks.len() as int);
        assert(rest[0] == tokens@[i as int]@);
        assert(rest.drop_first() =~= toks.subrange(i + 1, toks.len() as int));
        let key = unescape_exec(&tokens[i]);
        match step_exec(cur, &key) {
            Some(c) => {
                cur = c;
            },
            None => {
                return None;
            },
        }
        i = i + 1;
    }
    assert(toks.subrange(i as int, toks.len() as int) =~= Seq::<Seq<char>>::empty());
    Some(cur)
}

} // verus!
