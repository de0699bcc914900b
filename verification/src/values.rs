//! Reading integers, decimals, strings and lists out of parameter values.

use vstd::prelude::*;
use crate::model::{Decimal, Value};
use crate::number::{
    decimal_body_spec, lemma_int_text_reads_back, lemma_nat_text_digits, parse_decimal_range, parse_int_range,
    parse_int_spec,
};
use crate::text::{chars_of, int_text, is_digit_spec, is_ws_spec, nat_text, trim, trim_bounds};

verus! {

/// First position at or after `from` where `c` occurs in `s`.
pub open spec fn find_char(s: Seq<char>, c: char, from: int) -> Option<int>
    decreases s.len() - from,
{
    if from < 0 || from >= s.len() {
        None
    } else if s[from] == c {
        Some(from)
    } else {
        find_char(s, c, from + 1)
    }
}

/// `str::split(c)` for one character `c`.
pub open spec fn split_char(s: Seq<char>, c: char) -> Seq<Seq<char>>
    decreases s.len(),
{
    match find_char(s, c, 0) {
        Some(i) => if 0 <= i < s.len() {
            seq![s.subrange(0, i)] + split_char(s.subrange(i + 1, s.len() as int), c)
        } else {
            seq![s]
        },
        None => seq![s],
    }
}

proof fn lemma_find_char(s: Seq<char>, c: char, from: int, m: int)
    requires
        0 <= from <= m <= s.len(),
        forall|q: int| from <= q < m ==> s[q] != c,
        m == s.len() || s[m] == c,
    ensures
        find_char(s, c, from) == (if m < s.len() { Some(m) } else { None::<int> }),
    decreases m - from,
{
    if from < m {
        lemma_find_char(s, c, from + 1, m);
    }
}

/// Splits `s[lo..hi]` at every `c`, returning the piece bounds.
pub fn split_char_bounds(s: &Vec<char>, lo: usize, hi: usize, c: char) -> (r: Vec<(usize, usize)>)
    requires
        lo <= hi <= s.len(),
    ensures
        r@.len() == split_char(s@.subrange(lo as int, hi as int), c).len(),
        forall|k: int|
            0 <= k < r@.len() ==> {
                &&& lo <= (#[trigger] r@[k]).0 <= r@[k].1 <= hi
                &&& s@.subrange(r@[k].0 as int, r@[k].1 as int) == split_char(
                    s@.subrange(lo as int, hi as int),
                    c,
                )[k]
            },
{
    let ghost whole = s@.subrange(lo as int, hi as int);
    let mut out: Vec<(usize, usize)> = Vec::new();
    let mut start: usize = lo;
    let ghost mut done: Seq<Seq<char>> = Seq::empty();
    loop
        invariant
            lo <= start <= hi <= s@.len(),
            whole == s@.subrange(lo as int, hi as int),
            out@.len() == done.len(),
            done + split_char(s@.subrange(start as int, hi as int), c) == split_char(whole, c),
            forall|k: int|
                0 <= k < out@.len() ==> {
                    &&& lo <= (#[trigger] out@[k]).0 <= out@[k].1 <= hi
                    &&& s@.subrange(out@[k].0 as int, out@[k].1 as int) == done[k]
                },
        decreases hi - start,
    {
        let ghost rest = s@.subrange(start as int, hi as int);
        let mut j: usize = start;
        while j < hi && s[j] != c
            invariant
                start <= j <= hi <= s@.len(),
                rest == s@.subrange(start as int, hi as int),
                forall|q: int| 0 <= q < j - start ==> rest[q] != c,
            decreases hi - j,
        {
            j = j + 1;
        }
        proof {
            lemma_find_char(rest, c, 0, j - start);
        }
        if j < hi {
            proof {
                assert(rest.subrange(0, j - start) =~= s@.subrange(start as int, j as int));
                assert(rest.subrange(j - start + 1, rest.len() as int) =~= s@.subrange(
                    j + 1,
                    hi as int,
                ));
            }
            out.push((start, j));
            proof {
                done = done.push(s@.subrange(start as int, j as int));
                assert(done + split_char(s@.subrange(j + 1, hi as int), c) =~= split_char(
                    whole,
                    c,
                ));
            }
            start = j + 1;
        } else {
            out.push((start, hi));
            proof {
                done = done.push(rest);
                assert(done =~= split_char(whole, c));
            }
            return out;
        }
    }
}

/// The pieces of a list written as text: `(a,b,…)` or `a,b,…`, or nothing.
/// `None` when an opening parenthesis is not closed.
pub open spec fn list_parts(text: Seq<char>) -> Option<Seq<Seq<char>>> {
    let t = trim(text);
    if t.len() == 0 {
        Some(Seq::empty())
    } else if t[0] == '(' && !(t.len() >= 2 && t.last() == ')') {
        None
    } else {
        let inner = if t[0] == '(' {
            t.subrange(1, t.len() - 1)
        } else {
            t
        };
        if trim(inner).len() == 0 {
            Some(Seq::empty())
        } else {
            Some(split_char(inner, ','))
        }
    }
}

/// An SFC decimal written in a string (`parse_sfc_decimal`).
pub open spec fn sfc_decimal_spec(text: Seq<char>) -> Option<Decimal> {
    decimal_body_spec(trim(text))
}

/// Bounds of the list pieces of `s[lo..hi]`, as [`list_parts`] describes them.
fn list_part_bounds(s: &Vec<char>) -> (r: Option<Vec<(usize, usize)>>)
    ensures
        r is None <==> list_parts(s@) is None,
        r matches Some(b) ==> {
            &&& b@.len() == list_parts(s@)->0.len()
            &&& forall|k: int|
                0 <= k < b@.len() ==> {
                    &&& (#[trigger] b@[k]).0 <= b@[k].1 <= s@.len()
                    &&& s@.subrange(b@[k].0 as int, b@[k].1 as int) == list_parts(s@)->0[k]
                }
        },
{
    let (lo, hi) = trim_bounds(s.as_slice());
    let ghost t = trim(s@);
    if lo == hi {
        return Some(Vec::new());
    }
    let (ilo, ihi) = if s[lo] == '(' {
        if !(hi - lo >= 2 && s[hi - 1] == ')') {
            return None;
        }
        (lo + 1, hi - 1)
    } else {
        (lo, hi)
    };
    let ghost inner = s@.subrange(ilo as int, ihi as int);
    assert(inner == (if t[0] == '(' {
        t.subrange(1, t.len() - 1)
    } else {
        t
    }));
    let sub: Vec<char> = slice_to_vec(s, ilo, ihi);
    let (tlo, thi) = trim_bounds(sub.as_slice());
    if tlo == thi {
        return Some(Vec::new());
    }
    let b = split_char_bounds(s, ilo, ihi, ',');
    Some(b)
}

fn slice_to_vec(s: &Vec<char>, lo: usize, hi: usize) -> (r: Vec<char>)
    requires
        lo <= hi <= s.len(),
    ensures
        r@ == s@.subrange(lo as int, hi as int),
{
    let mut r: Vec<char> = Vec::new();
    let mut i: usize = lo;
    while i < hi
        invariant
            lo <= i <= hi <= s.len(),
            r@ == s@.subrange(lo as int, i as int),
        decreases hi - i,
    {
        r.push(s[i]);
        assert(s@.subrange(lo as int, i + 1) =~= s@.subrange(lo as int, i as int).push(s@[i as int]));
        i = i + 1;
    }
    r
}

/// A list of integers written as text (`parse_i64_list_from_string`).
pub open spec fn int_list_spec(text: Seq<char>) -> Option<Seq<int>> {
    match list_parts(text) {
        None => None,
        Some(parts) => if forall|i: int|
            0 <= i < parts.len() ==> (#[trigger] parse_int_spec(trim(parts[i]))) is Some {
            Some(parts.map_values(|p: Seq<char>| parse_int_spec(trim(p))->0))
        } else {
            None
        },
    }
}

/// Integers written as decimal text, separated by commas.
pub open spec fn ints_text(v: Seq<int>) -> Seq<char>
    decreases v.len(),
{
    if v.len() == 0 {
        Seq::empty()
    } else if v.len() == 1 {
        int_text(v[0])
    } else {
        int_text(v[0]) + seq![','] + ints_text(v.drop_first())
    }
}

/// The decimal text of an integer: digits after an optional leading `-`.
proof fn lemma_int_text_chars(n: int)
    ensures
        int_text(n).len() > 0,
        is_digit_spec(int_text(n).last()),
        int_text(n)[0] == '-' || is_digit_spec(int_text(n)[0]),
        forall|i: int| 0 <= i < int_text(n).len() ==> #[trigger] int_text(n)[i] == '-' || is_digit_spec(int_text(n)[i]),
{
    let m: nat = if n < 0 {
        (-n) as nat
    } else {
        n as nat
    };
    lemma_nat_text_digits(m);
    let t = nat_text(m);
    assert(is_digit_spec(t[t.len() - 1]));
    if n < 0 {
        let u = seq!['-'] + t;
        assert(u == int_text(n));
        assert(u.last() == t.last());
        assert forall|i: int| 0 <= i < u.len() implies #[trigger] u[i] == '-' || is_digit_spec(u[i]) by {
            if i > 0 {
                assert(u[i] == t[i - 1]);
            }
        }
    }
}

proof fn lemma_digit_not_special(c: char)
    requires
        c == '-' || is_digit_spec(c),
    ensures
        !is_ws_spec(c),
        c != ',',
        c != '(',
        c != ')',
{
}

/// Text that starts and ends with no white space is its own trimming.
proof fn lemma_trim_unchanged(s: Seq<char>)
    requires
        s.len() > 0,
        !is_ws_spec(s[0]),
        !is_ws_spec(s.last()),
    ensures
        trim(s) == s,
{
}

/// The comma-separated pieces of the text of a non-empty integer list.
proof fn lemma_split_ints_text(v: Seq<int>)
    requires
        v.len() > 0,
    ensures
        split_char(ints_text(v), ',') == v.map_values(|x: int| int_text(x)),
        ints_text(v).len() > 0,
        ints_text(v)[0] == int_text(v[0])[0],
        ints_text(v).last() == int_text(v.last()).last(),
    decreases v.len(),
{
    let head = int_text(v[0]);
    lemma_int_text_chars(v[0]);
    assert forall|q: int| 0 <= q < head.len() implies head[q] != ',' by {
        lemma_digit_not_special(head[q]);
    }
    if v.len() == 1 {
        lemma_find_char(head, ',', 0, head.len() as int);
        assert(v.map_values(|x: int| int_text(x)) =~= seq![head]);
    } else {
        let rest = v.drop_first();
        lemma_split_ints_text(rest);
        let t = ints_text(v);
        assert(t == head + seq![','] + ints_text(rest));
        assert forall|q: int| 0 <= q < head.len() implies t[q] != ',' by {
            assert(t[q] == head[q]);
        }
        lemma_find_char(t, ',', 0, head.len() as int);
        assert(t.subrange(0, head.len() as int) =~= head);
        assert(t.subrange(head.len() as int + 1, t.len() as int) =~= ints_text(rest));
        assert(v.map_values(|x: int| int_text(x)) =~= seq![head] + rest.map_values(|x: int| int_text(x)));
        assert(t.last() == ints_text(rest).last());
        assert(rest.last() == v.last());
    }
}

/// Reading back the text `(a,b,...)` of a list of integers gives the list.
pub proof fn lemma_int_list_reads_back(v: Seq<i64>)
    ensures
        int_list_spec(seq!['('] + ints_text(ints_view(v)) + seq![')']) == Some(ints_view(v)),
{
    let w = ints_view(v);
    let inner = ints_text(w);
    let text = seq!['('] + inner + seq![')'];
    lemma_trim_unchanged(text);
    assert(text.subrange(1, text.len() - 1) =~= inner);
    if w.len() == 0 {
        assert(inner.len() == 0);
        assert(trim(inner) =~= inner);
    } else {
        lemma_split_ints_text(w);
        lemma_int_text_chars(w[0]);
        lemma_int_text_chars(w.last());
        lemma_digit_not_special(inner[0]);
        lemma_digit_not_special(inner.last());
        lemma_trim_unchanged(inner);
        let parts = split_char(inner, ',');
        assert forall|i: int| 0 <= i < parts.len() implies #[trigger] parse_int_spec(trim(parts[i])) == Some(
            w[i],
        ) by {
            assert(parts[i] == int_text(w[i]));
            lemma_int_text_chars(w[i]);
            lemma_digit_not_special(parts[i][0]);
            lemma_digit_not_special(parts[i].last());
            lemma_trim_unchanged(parts[i]);
            assert(w[i] == v[i] as int);
            lemma_int_text_reads_back(v[i]);
        }
        assert(parts.map_values(|p: Seq<char>| parse_int_spec(trim(p))->0) =~= w);
    }
}

/// A list of decimals written as text.
pub open spec fn decimal_list_spec(text: Seq<char>) -> Option<Seq<Decimal>> {
    match list_parts(text) {
        None => None,
        Some(parts) => if forall|i: int|
            0 <= i < parts.len() ==> (#[trigger] sfc_decimal_spec(parts[i])) is Some {
            Some(parts.map_values(|p: Seq<char>| sfc_decimal_spec(p)->0))
        } else {
            None
        },
    }
}

pub open spec fn ints_view(v: Seq<i64>) -> Seq<int> {
    v.map_values(|x: i64| x as int)
}

/// Parses a list of integers written as text.
pub fn parse_i64_list_from_string(text: &str) -> (r: Option<Vec<i64>>)
    ensures
        r is None <==> int_list_spec(text@) is None,
        r matches Some(v) ==> ints_view(v@) == int_list_spec(text@)->0,
{
    let s = chars_of(text);
    let bounds = match list_part_bounds(&s) {
        None => return None,
        Some(b) => b,
    };
    let ghost parts = list_parts(s@)->0;
    let mut out: Vec<i64> = Vec::new();
    let mut k: usize = 0;
    while k < bounds.len()
        invariant
            s@ == text@,
            list_parts(s@) == Some(parts),
            bounds@.len() == parts.len(),
            forall|q: int|
                0 <= q < bounds@.len() ==> {
                    &&& (#[trigger] bounds@[q]).0 <= bounds@[q].1 <= s@.len()
                    &&& s@.subrange(bounds@[q].0 as int, bounds@[q].1 as int) == parts[q]
                },
            k <= bounds@.len(),
            out@.len() == k,
            forall|q: int|
                0 <= q < k ==> parse_int_spec(trim(parts[q])) == Some(#[trigger] out@[q] as int),
        decreases bounds@.len() - k,
    {
        let (lo, hi) = bounds[k];
        let part = slice_to_vec(&s, lo, hi);
        let (tlo, thi) = trim_bounds(part.as_slice());
        match parse_int_range(&part, tlo, thi) {
            Some(v) => out.push(v),
            None => {
                assert(parse_int_spec(trim(parts[k as int])) is None);
                return None;
            },
        }
        k = k + 1;
    }
    assert forall|i: int| 0 <= i < parts.len() implies (#[trigger] parse_int_spec(
        trim(parts[i]),
    )) is Some by {
        assert(parse_int_spec(trim(parts[i])) == Some(out@[i] as int));
    }
    assert(ints_view(out@) =~= parts.map_values(|p: Seq<char>| parse_int_spec(trim(p))->0));
    Some(out)
}

/// Parses a list of decimals written as text.
pub fn parse_decimal_list_from_string(text: &str) -> (r: Option<Vec<Decimal>>)
    ensures
        r is None <==> decimal_list_spec(text@) is None,
        r matches Some(v) ==> v@ == decimal_list_spec(text@)->0,
{
    let s = chars_of(text);
    let bounds = match list_part_bounds(&s) {
        None => return None,
        Some(b) => b,
    };
    let ghost parts = list_parts(s@)->0;
    let mut out: Vec<Decimal> = Vec::new();
    let mut k: usize = 0;
    while k < bounds.len()
        invariant
            s@ == text@,
            list_parts(s@) == Some(parts),
            bounds@.len() == parts.len(),
            forall|q: int|
                0 <= q < bounds@.len() ==> {
                    &&& (#[trigger] bounds@[q]).0 <= bounds@[q].1 <= s@.len()
                    &&& s@.subrange(bounds@[q].0 as int, bounds@[q].1 as int) == parts[q]
                },
            k <= bounds@.len(),
            out@.len() == k,
            forall|q: int| 0 <= q < k ==> sfc_decimal_spec(parts[q]) == Some(#[trigger] out@[q]),
        decreases bounds@.len() - k,
    {
        let (lo, hi) = bounds[k];
        let part = slice_to_vec(&s, lo, hi);
        match parse_sfc_decimal_chars(&part) {
            Some(v) => out.push(v),
            None => {
                assert(sfc_decimal_spec(parts[k as int]) is None);
                return None;
            },
        }
        k = k + 1;
    }
    assert forall|i: int| 0 <= i < parts.len() implies (#[trigger] sfc_decimal_spec(
        parts[i],
    )) is Some by {
        assert(sfc_decimal_spec(parts[i]) == Some(out@[i]));
    }
    assert(out@ =~= parts.map_values(|p: Seq<char>| sfc_decimal_spec(p)->0));
    Some(out)
}

fn parse_sfc_decimal_chars(s: &Vec<char>) -> (r: Option<Decimal>)
    ensures
        r == sfc_decimal_spec(s@),
{
    let (lo, hi) = trim_bounds(s.as_slice());
    parse_decimal_range(s, lo, hi)
}

/// A decimal as SFC writes it in a string (`'10.000000'`).
pub fn parse_sfc_decimal(text: &str) -> (r: Option<Decimal>)
    ensures
        r == sfc_decimal_spec(text@),
{
    let s = chars_of(text);
    parse_sfc_decimal_chars(&s)
}

pub open spec fn opt_int(o: Option<i64>) -> Option<int> {
    match o {
        Some(v) => Some(v as int),
        None => None,
    }
}

impl Value {
    /// The integer a value stands for: an integer, or a string holding one.
    pub open spec fn spec_as_i64(self) -> Option<int> {
        match self {
            Value::Integer(v) => Some(v as int),
            Value::String(s) => parse_int_spec(trim(s@)),
            _ => None,
        }
    }

    /// The decimal a value stands for: an integer, a real, or a string holding one.
    pub open spec fn spec_as_decimal(self) -> Option<Decimal> {
        match self {
            Value::Integer(v) => Some(Decimal { mantissa: v as i128, exponent: 0 }),
            Value::Real(d) => Some(d),
            Value::String(s) => sfc_decimal_spec(s@),
            _ => None,
        }
    }

    pub open spec fn spec_as_string(self) -> Option<Seq<char>> {
        match self {
            Value::String(s) => Some(s@),
            _ => None,
        }
    }

    /// Every element of a list value as an integer, or a list written in a string.
    pub open spec fn spec_as_i64_list(self) -> Option<Seq<int>> {
        match self {
            Value::List(values) => if forall|i: int|
                0 <= i < values@.len() ==> (#[trigger] values@[i].spec_as_i64()) is Some {
                Some(values@.map_values(|v: Value| v.spec_as_i64()->0))
            } else {
                None
            },
            Value::String(s) => int_list_spec(s@),
            _ => None,
        }
    }

    /// Every element of a list value as a decimal, or a list written in a string.
    pub open spec fn spec_as_decimal_list(self) -> Option<Seq<Decimal>> {
        match self {
            Value::List(values) => if forall|i: int|
                0 <= i < values@.len() ==> (#[trigger] values@[i].spec_as_decimal()) is Some {
                Some(values@.map_values(|v: Value| v.spec_as_decimal()->0))
            } else {
                None
            },
            Value::String(s) => decimal_list_spec(s@),
            _ => None,
        }
    }

    pub fn as_i64(&self) -> (r: Option<i64>)
        ensures
            opt_int(r) == self.spec_as_i64(),
    {
        match self {
            Value::Integer(v) => Some(*v),
            Value::String(s) => {
                let cs = chars_of(s.as_str());
                let (lo, hi) = trim_bounds(cs.as_slice());
                parse_int_range(&cs, lo, hi)
            },
            _ => None,
        }
    }

    pub fn as_decimal(&self) -> (r: Option<Decimal>)
        ensures
            r == self.spec_as_decimal(),
    {
        match self {
            Value::Integer(v) => Some(Decimal { mantissa: *v as i128, exponent: 0 }),
            Value::Real(d) => Some(*d),
            Value::String(s) => parse_sfc_decimal(s.as_str()),
            _ => None,
        }
    }

    pub fn as_string(&self) -> (r: Option<String>)
        ensures
            r matches Some(s) ==> self.spec_as_string() == Some(s@),
            r is None <==> self.spec_as_string() is None,
    {
        match self {
            Value::String(v) => Some(v.clone()),
            _ => None,
        }
    }

    pub fn as_i64_list(&self) -> (r: Option<Vec<i64>>)
        ensures
            r is None <==> self.spec_as_i64_list() is None,
            r matches Some(v) ==> ints_view(v@) == self.spec_as_i64_list()->0,
    {
        match self {
            Value::List(values) => {
                let mut out: Vec<i64> = Vec::new();
                let mut k: usize = 0;
                while k < values.len()
                    invariant
                        *self == Value::List(*values),
                        k <= values@.len(),
                        out@.len() == k,
                        forall|q: int|
                            0 <= q < k ==> values@[q].spec_as_i64() == Some(
                                #[trigger] out@[q] as int,
                            ),
                    decreases values@.len() - k,
                {
                    match values[k].as_i64() {
                        Some(v) => out.push(v),
                        None => {
                            assert(values@[k as int].spec_as_i64() is None);
                            return None;
                        },
                    }
                    k = k + 1;
                }
                assert forall|i: int| 0 <= i < values@.len() implies (
                #[trigger] values@[i].spec_as_i64()) is Some by {
                    assert(values@[i].spec_as_i64() == Some(out@[i] as int));
                }
                assert(ints_view(out@) =~= values@.map_values(
                    |v: Value| v.spec_as_i64()->0,
                ));
                Some(out)
            },
            Value::String(text) => parse_i64_list_from_string(text.as_str()),
            _ => None,
        }
    }

    pub fn as_decimal_list(&self) -> (r: Option<Vec<Decimal>>)
        ensures
            r is None <==> self.spec_as_decimal_list() is None,
            r matches Some(v) ==> v@ == self.spec_as_decimal_list()->0,
    {
        match self {
            Value::List(values) => {
                let mut out: Vec<Decimal> = Vec::new();
                let mut k: usize = 0;
                while k < values.len()
                    invariant
                        *self == Value::List(*values),
                        k <= values@.len(),
                        out@.len() == k,
                        forall|q: int|
                            0 <= q < k ==> values@[q].spec_as_decimal() == Some(
                                #[trigger] out@[q],
                            ),
                    decreases values@.len() - k,
                {
                    match values[k].as_decimal() {
                        Some(v) => out.push(v),
                        None => {
                            assert(values@[k as int].spec_as_decimal() is None);
                            return None;
                        },
                    }
                    k = k + 1;
                }
                assert forall|i: int| 0 <= i < values@.len() implies (
                #[trigger] values@[i].spec_as_decimal()) is Some by {
                    assert(values@[i].spec_as_decimal() == Some(out@[i]));
                }
                assert(out@ =~= values@.map_values(|v: Value| v.spec_as_decimal()->0));
                Some(out)
            },
            Value::String(text) => parse_decimal_list_from_string(text.as_str()),
            _ => None,
        }
    }
}

} // verus!
