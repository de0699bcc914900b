//! Predefined SFC element names and codes, and what each typed feature
//! refers to.

use vstd::prelude::*;
use crate::model::{
    CommonStyle, Decimal, FeatureText, SfcCompositeCurveDefinition, SfcVersionTag, TypedFeature,
};
use crate::number::{compare_decimal, dec_order, pow10};
use crate::text::{
    chars_of, is_whitespace, is_ws_spec, lower_seq, lower_spec, slice_eq_str, string_from_chars,
    to_ascii_lower,
};

verus! {

/// Left-to-right reading of a name: the normalized text so far, and whether
/// a run of white space is pending after a word.
pub open spec fn normalize_state(s: Seq<char>) -> (Seq<char>, bool)
    decreases s.len(),
{
    if s.len() == 0 {
        (Seq::empty(), false)
    } else {
        let (out, pending) = normalize_state(s.drop_last());
        let c = s.last();
        if is_ws_spec(c) {
            (out, out.len() > 0)
        } else if pending {
            (out.push(' ').push(lower_spec(c)), false)
        } else {
            (out.push(lower_spec(c)), false)
        }
    }
}

/// The words of `s` (maximal runs of non-white-space characters) joined by
/// single spaces and ASCII lower-cased.
pub open spec fn normalized_name(s: Seq<char>) -> Seq<char> {
    normalize_state(s).0
}

/// `t` is made of lower-cased words without white space, joined by single
/// spaces.
pub open spec fn name_is_normal(t: Seq<char>) -> bool {
    &&& t.len() > 0 ==> t[0] != ' ' && t.last() != ' '
    &&& forall|i: int| 0 <= i < t.len() && #[trigger] t[i] == ' ' ==> t[i - 1] != ' '
    &&& forall|i: int| 0 <= i < t.len() && #[trigger] t[i] != ' ' ==> !is_ws_spec(t[i]) && lower_spec(t[i]) == t[i]
}

proof fn lemma_lower_spec(c: char)
    requires
        !is_ws_spec(c),
    ensures
        !is_ws_spec(lower_spec(c)),
        lower_spec(lower_spec(c)) == lower_spec(c),
        lower_spec(c) != ' ',
{
}

/// What `normalize_state` has read so far is a normal name, and a pending
/// space follows a word.
proof fn lemma_normalize_state_normal(s: Seq<char>)
    ensures
        name_is_normal(normalize_state(s).0),
        normalize_state(s).1 ==> normalize_state(s).0.len() > 0,
    decreases s.len(),
{
    if s.len() > 0 {
        lemma_normalize_state_normal(s.drop_last());
        let (out, pending) = normalize_state(s.drop_last());
        let c = s.last();
        if !is_ws_spec(c) {
            lemma_lower_spec(c);
            let t = normalize_state(s).0;
            if pending {
                assert(t == out.push(' ').push(lower_spec(c)));
                assert forall|i: int| 0 <= i < t.len() && #[trigger] t[i] == ' ' implies t[i - 1] != ' ' by {
                    if i < out.len() {
                        assert(t[i] == out[i]);
                        assert(t[i - 1] == out[i - 1]);
                    } else {
                        assert(i == out.len());
                        assert(t[i - 1] == out.last());
                    }
                }
                assert forall|i: int| 0 <= i < t.len() && #[trigger] t[i] != ' ' implies !is_ws_spec(t[i])
                    && lower_spec(t[i]) == t[i] by {
                    if i < out.len() {
                        assert(t[i] == out[i]);
                    }
                }
            } else {
                assert(t == out.push(lower_spec(c)));
                assert forall|i: int| 0 <= i < t.len() && #[trigger] t[i] == ' ' implies t[i - 1] != ' ' by {
                    assert(t[i] == out[i]);
                    assert(t[i - 1] == out[i - 1]);
                }
                assert forall|i: int| 0 <= i < t.len() && #[trigger] t[i] != ' ' implies !is_ws_spec(t[i])
                    && lower_spec(t[i]) == t[i] by {
                    if i < out.len() {
                        assert(t[i] == out[i]);
                    }
                }
            }
        }
    }
}

/// Reading a prefix of a normal name: what has been read, with a space at
/// its end held back as pending.
proof fn lemma_normalize_normal_prefix(t: Seq<char>, k: int)
    requires
        name_is_normal(t),
        0 <= k <= t.len(),
    ensures
        normalize_state(t.subrange(0, k)) == (if k > 0 && t[k - 1] == ' ' {
            (t.subrange(0, k - 1), true)
        } else {
            (t.subrange(0, k), false)
        }),
    decreases k,
{
    if k > 0 {
        lemma_normalize_normal_prefix(t, k - 1);
        assert(t.subrange(0, k).drop_last() =~= t.subrange(0, k - 1));
        let c = t[k - 1];
        assert(t.subrange(0, k).last() == c);
        if c == ' ' {
            assert(t[k - 1] == ' ');
            assert(k - 1 > 0);
            assert(t[k - 2] != ' ');
            assert(t.subrange(0, k - 1).len() > 0);
        } else {
            assert(!is_ws_spec(c) && lower_spec(c) == c);
            if k > 1 && t[k - 2] == ' ' {
                assert(t.subrange(0, k - 2).push(' ').push(c) =~= t.subrange(0, k));
            } else {
                assert(t.subrange(0, k - 1).push(c) =~= t.subrange(0, k));
            }
        }
    }
}

/// Normalizing a name twice gives what normalizing it once gives.
pub proof fn lemma_normalized_name_idempotent(s: Seq<char>)
    ensures
        normalized_name(normalized_name(s)) == normalized_name(s),
{
    lemma_normalize_state_normal(s);
    let t = normalized_name(s);
    lemma_normalize_normal_prefix(t, t.len() as int);
    assert(t.subrange(0, t.len() as int) =~= t);
}

fn normalized_chars(s: &Vec<char>) -> (r: Vec<char>)
    ensures
        r@ == normalized_name(s@),
{
    let mut out: Vec<char> = Vec::new();
    let mut pending = false;
    let mut i: usize = 0;
    while i < s.len()
        invariant
            i <= s@.len(),
            normalize_state(s@.subrange(0, i as int)) == (out@, pending),
        decreases s@.len() - i,
    {
        let c = s[i];
        assert(s@.subrange(0, i + 1).drop_last() =~= s@.subrange(0, i as int));
        if is_whitespace(c) {
            pending = out.len() > 0;
        } else {
            if pending {
                out.push(' ');
            }
            out.push(to_ascii_lower(c));
            pending = false;
        }
        i = i + 1;
    }
    assert(s@.subrange(0, s@.len() as int) =~= s@);
    out
}

pub fn normalized_predefined_name(name: &str) -> (r: String)
    ensures
        r@ == normalized_name(name@),
{
    let s = chars_of(name);
    string_from_chars(&normalized_chars(&s))
}

/// Codes of the predefined line types.
pub open spec fn line_type_code_spec(n: Seq<char>) -> Option<i64> {
    if n == "continuous"@ {
        Some(1)
    } else if n == "dashed"@ {
        Some(2)
    } else if n == "dashed spaced"@ {
        Some(3)
    } else if n == "long dashed dotted"@ {
        Some(4)
    } else if n == "long dashed double-dotted"@ {
        Some(5)
    } else if n == "long dashed triplicate-dotted"@ {
        Some(6)
    } else if n == "dotted"@ {
        Some(7)
    } else if n == "chain"@ {
        Some(8)
    } else if n == "chain double dash"@ {
        Some(9)
    } else if n == "dashed dotted"@ {
        Some(10)
    } else if n == "double-dashed dotted"@ {
        Some(11)
    } else if n == "dashed double-dotted"@ {
        Some(12)
    } else if n == "double-dashed double-dotted"@ {
        Some(13)
    } else if n == "dashed triplicate-dotted"@ {
        Some(14)
    } else if n == "double-dashed triplicate-dotted"@ {
        Some(15)
    } else {
        None
    }
}

/// The SXF predefined line types and their numbers, from continuous 1 to
/// double-dashed triplicate-dotted 15; every code lies in 1..=15.
pub proof fn lemma_predefined_line_type_numbers()
    ensures
        line_type_code_spec("continuous"@) == Some(1i64),
        line_type_code_spec("dashed"@) == Some(2i64),
        line_type_code_spec("dashed spaced"@) == Some(3i64),
        line_type_code_spec("long dashed dotted"@) == Some(4i64),
        line_type_code_spec("long dashed double-dotted"@) == Some(5i64),
        line_type_code_spec("long dashed triplicate-dotted"@) == Some(6i64),
        line_type_code_spec("dotted"@) == Some(7i64),
        line_type_code_spec("chain"@) == Some(8i64),
        line_type_code_spec("chain double dash"@) == Some(9i64),
        line_type_code_spec("dashed dotted"@) == Some(10i64),
        line_type_code_spec("double-dashed dotted"@) == Some(11i64),
        line_type_code_spec("dashed double-dotted"@) == Some(12i64),
        line_type_code_spec("double-dashed double-dotted"@) == Some(13i64),
        line_type_code_spec("dashed triplicate-dotted"@) == Some(14i64),
        line_type_code_spec("double-dashed triplicate-dotted"@) == Some(15i64),
        forall|n: Seq<char>| #[trigger] line_type_code_spec(n) matches Some(c) ==> 1 <= c <= 15,
{    assert(line_type_code_spec("continuous"@) == Some(1i64)) by {
        reveal_strlit("continuous");
    }
    assert(line_type_code_spec("dashed"@) == Some(2i64)) by {
        reveal_strlit("dashed");
        reveal_strlit("continuous");
        assert("continuous"@.len() != "dashed"@.len());
    }
    assert(line_type_code_spec("dashed spaced"@) == Some(3i64)) by {
        reveal_strlit("dashed spaced");
        reveal_strlit("continuous");
        assert("continuous"@.len() != "dashed spaced"@.len());
        reveal_strlit("dashed");
        assert("dashed"@.len() != "dashed spaced"@.len());
    }
    assert(line_type_code_spec("long dashed dotted"@) == Some(4i64)) by {
        reveal_strlit("long dashed dotted");
        reveal_strlit("continuous");
        assert("continuous"@.len() != "long dashed dotted"@.len());
        reveal_strlit("dashed");
        assert("dashed"@.len() != "long dashed dotted"@.len());
        reveal_strlit("dashed spaced");
        assert("dashed spaced"@.len() != "long dashed dotted"@.len());
    }
    assert(line_type_code_spec("long dashed double-dotted"@) == Some(5i64)) by {
        reveal_strlit("long dashed double-dotted");
        reveal_strlit("continuous");
        assert("continuous"@.len() != "long dashed double-dotted"@.len());
        reveal_strlit("dashed");
        assert("dashed"@.len() != "long dashed double-dotted"@.len());
        reveal_strlit("dashed spaced");
        assert("dashed spaced"@.len() != "long dashed double-dotted"@.len());
        reveal_strlit("long dashed dotted");
        assert("long dashed dotted"@.len() != "long dashed double-dotted"@.len());
    }
    assert(line_type_code_spec("long dashed triplicate-dotted"@) == Some(6i64)) by {
        reveal_strlit("long dashed triplicate-dotted");
        reveal_strlit("continuous");
        assert("continuous"@.len() != "long dashed triplicate-dotted"@.len());
        reveal_strlit("dashed");
        assert("dashed"@.len() != "long dashed triplicate-dotted"@.len());
        reveal_strlit("dashed spaced");
        assert("dashed spaced"@.len() != "long dashed triplicate-dotted"@.len());
        reveal_strlit("long dashed dotted");
        assert("long dashed dotted"@.len() != "long dashed triplicate-dotted"@.len());
        reveal_strlit("long dashed double-dotted");
        assert("long dashed double-dotted"@.len() != "long dashed triplicate-dotted"@.len());
    }
    assert(line_type_code_spec("dotted"@) == Some(7i64)) by {
        reveal_strlit("dotted");
        reveal_strlit("continuous");
        assert("continuous"@.len() != "dotted"@.len());
        reveal_strlit("dashed");
        assert("dashed"@[1] != "dotted"@[1]);
        reveal_strlit("dashed spaced");
        assert("dashed spaced"@.len() != "dotted"@.len());
        reveal_strlit("long dashed dotted");
        assert("long dashed dotted"@.len() != "dotted"@.len());
        reveal_strlit("long dashed double-dotted");
        assert("long dashed double-dotted"@.len() != "dotted"@.len());
        reveal_strlit("long dashed triplicate-dotted");
        assert("long dashed triplicate-dotted"@.len() != "dotted"@.len());
    }
    assert(line_type_code_spec("chain"@) == Some(8i64)) by {
        reveal_strlit("chain");
        reveal_strlit("continuous");
        assert("continuous"@.len() != "chain"@.len());
        reveal_strlit("dashed");
        assert("dashed"@.len() != "chain"@.len());
        reveal_strlit("dashed spaced");
        assert("dashed spaced"@.len() != "chain"@.len());
        reveal_strlit("long dashed dotted");
        assert("long dashed dotted"@.len() != "chain"@.len());
        reveal_strlit("long dashed double-dotted");
        assert("long dashed double-dotted"@.len() != "chain"@.len());
        reveal_strlit("long dashed triplicate-dotted");
        assert("long dashed triplicate-dotted"@.len() != "chain"@.len());
        reveal_strlit("dotted");
        assert("dotted"@.len() != "chain"@.len());
    }
    assert(line_type_code_spec("chain double dash"@) == Some(9i64)) by {
        reveal_strlit("chain double dash");
        reveal_strlit("continuous");
        assert("continuous"@.len() != "chain double dash"@.len());
        reveal_strlit("dashed");
        assert("dashed"@.len() != "chain double dash"@.len());
        reveal_strlit("dashed spaced");
        assert("dashed spaced"@.len() != "chain double dash"@.len());
        reveal_strlit("long dashed dotted");
        assert("long dashed dotted"@.len() != "chain double dash"@.len());
        reveal_strlit("long dashed double-dotted");
        assert("long dashed double-dotted"@.len() != "chain double dash"@.len());
        reveal_strlit("long dashed triplicate-dotted");
        assert("long dashed triplicate-dotted"@.len() != "chain double dash"@.len());
        reveal_strlit("dotted");
        assert("dotted"@.len() != "chain double dash"@.len());
        reveal_strlit("chain");
        assert("chain"@.len() != "chain double dash"@.len());
    }
    assert(line_type_code_spec("dashed dotted"@) == Some(10i64)) by {
        reveal_strlit("dashed dotted");
        reveal_strlit("continuous");
        assert("continuous"@.len() != "dashed dotted"@.len());
        reveal_strlit("dashed");
        assert("dashed"@.len() != "dashed dotted"@.len());
        reveal_strlit("dashed spaced");
        assert("dashed spaced"@[7] != "dashed dotted"@[7]);
        reveal_strlit("long dashed dotted");
        assert("long dashed dotted"@.len() != "dashed dotted"@.len());
        reveal_strlit("long dashed double-dotted");
        assert("long dashed double-dotted"@.len() != "dashed dotted"@.len());
        reveal_strlit("long dashed triplicate-dotted");
        assert("long dashed triplicate-dotted"@.len() != "dashed dotted"@.len());
        reveal_strlit("dotted");
        assert("dotted"@.len() != "dashed dotted"@.len());
        reveal_strlit("chain");
        assert("chain"@.len() != "dashed dotted"@.len());
        reveal_strlit("chain double dash");
        assert("chain double dash"@.len() != "dashed dotted"@.len());
    }
    assert(line_type_code_spec("double-dashed dotted"@) == Some(11i64)) by {
        reveal_strlit("double-dashed dotted");
        reveal_strlit("continuous");
        assert("continuous"@.len() != "double-dashed dotted"@.len());
        reveal_strlit("dashed");
        assert("dashed"@.len() != "double-dashed dotted"@.len());
        reveal_strlit("dashed spaced");
        assert("dashed spaced"@.len() != "double-dashed dotted"@.len());
        reveal_strlit("long dashed dotted");
        assert("long dashed dotted"@.len() != "double-dashed dotted"@.len());
        reveal_strlit("long dashed double-dotted");
        assert("long dashed double-dotted"@.len() != "double-dashed dotted"@.len());
        reveal_strlit("long dashed triplicate-dotted");
        assert("long dashed triplicate-dotted"@.len() != "double-dashed dotted"@.len());
        reveal_strlit("dotted");
        assert("dotted"@.len() != "double-dashed dotted"@.len());
        reveal_strlit("chain");
        assert("chain"@.len() != "double-dashed dotted"@.len());
        reveal_strlit("chain double dash");
        assert("chain double dash"@.len() != "double-dashed dotted"@.len());
        reveal_strlit("dashed dotted");
        assert("dashed dotted"@.len() != "double-dashed dotted"@.len());
    }
    assert(line_type_code_spec("dashed double-dotted"@) == Some(12i64)) by {
        reveal_strlit("dashed double-dotted");
        reveal_strlit("continuous");
        assert("continuous"@.len() != "dashed double-dotted"@.len());
        reveal_strlit("dashed");
        assert("dashed"@.len() != "dashed double-dotted"@.len());
        reveal_strlit("dashed spaced");
        assert("dashed spaced"@.len() != "dashed double-dotted"@.len());
        reveal_strlit("long dashed dotted");
        assert("long dashed dotted"@.len() != "dashed double-dotted"@.len());
        reveal_strlit("long dashed double-dotted");
        assert("long dashed double-dotted"@.len() != "dashed double-dotted"@.len());
        reveal_strlit("long dashed triplicate-dotted");
        assert("long dashed triplicate-dotted"@.len() != "dashed double-dotted"@.len());
        reveal_strlit("dotted");
        assert("dotted"@.len() != "dashed double-dotted"@.len());
        reveal_strlit("chain");
        assert("chain"@.len() != "dashed double-dotted"@.len());
        reveal_strlit("chain double dash");
        assert("chain double dash"@.len() != "dashed double-dotted"@.len());
        reveal_strlit("dashed dotted");
        assert("dashed dotted"@.len() != "dashed double-dotted"@.len());
        reveal_strlit("double-dashed dotted");
        assert("double-dashed dotted"@[1] != "dashed double-dotted"@[1]);
    }
    assert(line_type_code_spec("double-dashed double-dotted"@) == Some(13i64)) by {
        reveal_strlit("double-dashed double-dotted");
        reveal_strlit("continuous");
        assert("continuous"@.len() != "double-dashed double-dotted"@.len());
        reveal_strlit("dashed");
        assert("dashed"@.len() != "double-dashed double-dotted"@.len());
        reveal_strlit("dashed spaced");
        assert("dashed spaced"@.len() != "double-dashed double-dotted"@.len());
        reveal_strlit("long dashed dotted");
        assert("long dashed dotted"@.len() != "double-dashed double-dotted"@.len());
        reveal_strlit("long dashed double-dotted");
        assert("long dashed double-dotted"@.len() != "double-dashed double-dotted"@.len());
        reveal_strlit("long dashed triplicate-dotted");
        assert("long dashed triplicate-dotted"@.len() != "double-dashed double-dotted"@.len());
        reveal_strlit("dotted");
        assert("dotted"@.len() != "double-dashed double-dotted"@.len());
        reveal_strlit("chain");
        assert("chain"@.len() != "double-dashed double-dotted"@.len());
        reveal_strlit("chain double dash");
        assert("chain double dash"@.len() != "double-dashed double-dotted"@.len());
        reveal_strlit("dashed dotted");
        assert("dashed dotted"@.len() != "double-dashed double-dotted"@.len());
        reveal_strlit("double-dashed dotted");
        assert("double-dashed dotted"@.len() != "double-dashed double-dotted"@.len());
        reveal_strlit("dashed double-dotted");
        assert("dashed double-dotted"@.len() != "double-dashed double-dotted"@.len());
    }
    assert(line_type_code_spec("dashed triplicate-dotted"@) == Some(14i64)) by {
        reveal_strlit("dashed triplicate-dotted");
        reveal_strlit("continuous");
        assert("continuous"@.len() != "dashed triplicate-dotted"@.len());
        reveal_strlit("dashed");
        assert("dashed"@.len() != "dashed triplicate-dotted"@.len());
        reveal_strlit("dashed spaced");
        assert("dashed spaced"@.len() != "dashed triplicate-dotted"@.len());
        reveal_strlit("long dashed dotted");
        assert("long dashed dotted"@.len() != "dashed triplicate-dotted"@.len());
        reveal_strlit("long dashed double-dotted");
        assert("long dashed double-dotted"@.len() != "dashed triplicate-dotted"@.len());
        reveal_strlit("long dashed triplicate-dotted");
        assert("long dashed triplicate-dotted"@.len() != "dashed triplicate-dotted"@.len());
        reveal_strlit("dotted");
        assert("dotted"@.len() != "dashed triplicate-dotted"@.len());
        reveal_strlit("chain");
        assert("chain"@.len() != "dashed triplicate-dotted"@.len());
        reveal_strlit("chain double dash");
        assert("chain double dash"@.len() != "dashed triplicate-dotted"@.len());
        reveal_strlit("dashed dotted");
        assert("dashed dotted"@.len() != "dashed triplicate-dotted"@.len());
        reveal_strlit("double-dashed dotted");
        assert("double-dashed dotted"@.len() != "dashed triplicate-dotted"@.len());
        reveal_strlit("dashed double-dotted");
        assert("dashed double-dotted"@.len() != "dashed triplicate-dotted"@.len());
        reveal_strlit("double-dashed double-dotted");
        assert("double-dashed double-dotted"@.len() != "dashed triplicate-dotted"@.len());
    }
    assert(line_type_code_spec("double-dashed triplicate-dotted"@) == Some(15i64)) by {
        reveal_strlit("double-dashed triplicate-dotted");
        reveal_strlit("continuous");
        assert("continuous"@.len() != "double-dashed triplicate-dotted"@.len());
        reveal_strlit("dashed");
        assert("dashed"@.len() != "double-dashed triplicate-dotted"@.len());
        reveal_strlit("dashed spaced");
        assert("dashed spaced"@.len() != "double-dashed triplicate-dotted"@.len());
        reveal_strlit("long dashed dotted");
        assert("long dashed dotted"@.len() != "double-dashed triplicate-dotted"@.len());
        reveal_strlit("long dashed double-dotted");
        assert("long dashed double-dotted"@.len() != "double-dashed triplicate-dotted"@.len());
        reveal_strlit("long dashed triplicate-dotted");
        assert("long dashed triplicate-dotted"@.len() != "double-dashed triplicate-dotted"@.len());
        reveal_strlit("dotted");
        assert("dotted"@.len() != "double-dashed triplicate-dotted"@.len());
        reveal_strlit("chain");
        assert("chain"@.len() != "double-dashed triplicate-dotted"@.len());
        reveal_strlit("chain double dash");
        assert("chain double dash"@.len() != "double-dashed triplicate-dotted"@.len());
        reveal_strlit("dashed dotted");
        assert("dashed dotted"@.len() != "double-dashed triplicate-dotted"@.len());
        reveal_strlit("double-dashed dotted");
        assert("double-dashed dotted"@.len() != "double-dashed triplicate-dotted"@.len());
        reveal_strlit("dashed double-dotted");
        assert("dashed double-dotted"@.len() != "double-dashed triplicate-dotted"@.len());
        reveal_strlit("double-dashed double-dotted");
        assert("double-dashed double-dotted"@.len() != "double-dashed triplicate-dotted"@.len());
        reveal_strlit("dashed triplicate-dotted");
        assert("dashed triplicate-dotted"@.len() != "double-dashed triplicate-dotted"@.len());
    }

}

pub fn predefined_line_type_code(name: &str) -> (r: Option<i64>)
    ensures
        r == line_type_code_spec(normalized_name(name@)),
{
    let n = normalized_chars(&chars_of(name));
    let n = n.as_slice();
    if slice_eq_str(n, "continuous") {
        Some(1)
    } else if slice_eq_str(n, "dashed") {
        Some(2)
    } else if slice_eq_str(n, "dashed spaced") {
        Some(3)
    } else if slice_eq_str(n, "long dashed dotted") {
        Some(4)
    } else if slice_eq_str(n, "long dashed double-dotted") {
        Some(5)
    } else if slice_eq_str(n, "long dashed triplicate-dotted") {
        Some(6)
    } else if slice_eq_str(n, "dotted") {
        Some(7)
    } else if slice_eq_str(n, "chain") {
        Some(8)
    } else if slice_eq_str(n, "chain double dash") {
        Some(9)
    } else if slice_eq_str(n, "dashed dotted") {
        Some(10)
    } else if slice_eq_str(n, "double-dashed dotted") {
        Some(11)
    } else if slice_eq_str(n, "dashed double-dotted") {
        Some(12)
    } else if slice_eq_str(n, "double-dashed double-dotted") {
        Some(13)
    } else if slice_eq_str(n, "dashed triplicate-dotted") {
        Some(14)
    } else if slice_eq_str(n, "double-dashed triplicate-dotted") {
        Some(15)
    } else {
        None
    }
}

/// Codes of the predefined colours.
pub open spec fn color_code_spec(n: Seq<char>) -> Option<i64> {
    if n == "black"@ {
        Some(1)
    } else if n == "red"@ {
        Some(2)
    } else if n == "green"@ {
        Some(3)
    } else if n == "blue"@ {
        Some(4)
    } else if n == "yellow"@ {
        Some(5)
    } else if n == "magenta"@ {
        Some(6)
    } else if n == "cyan"@ {
        Some(7)
    } else if n == "white"@ {
        Some(8)
    } else if n == "deeppink"@ {
        Some(9)
    } else if n == "brown"@ {
        Some(10)
    } else if n == "orange"@ {
        Some(11)
    } else if n == "lightgreen"@ {
        Some(12)
    } else if n == "lightblue"@ {
        Some(13)
    } else if n == "lavender"@ {
        Some(14)
    } else if n == "lightgray"@ {
        Some(15)
    } else if n == "darkgray"@ {
        Some(16)
    } else {
        None
    }
}

/// The SXF predefined colours and their numbers: black 1, red 2, green 3,
/// blue 4, yellow 5, magenta 6, cyan 7, white 8, deeppink 9, brown 10,
/// orange 11, lightgreen 12, lightblue 13, lavender 14, lightgray 15,
/// darkgray 16; no other name is a predefined colour, and the number is the
/// same however the name is spaced or cased.
pub proof fn lemma_predefined_colour_numbers()
    ensures
        color_code_spec("black"@) == Some(1i64),
        color_code_spec("red"@) == Some(2i64),
        color_code_spec("green"@) == Some(3i64),
        color_code_spec("blue"@) == Some(4i64),
        color_code_spec("yellow"@) == Some(5i64),
        color_code_spec("magenta"@) == Some(6i64),
        color_code_spec("cyan"@) == Some(7i64),
        color_code_spec("white"@) == Some(8i64),
        color_code_spec("deeppink"@) == Some(9i64),
        color_code_spec("brown"@) == Some(10i64),
        color_code_spec("orange"@) == Some(11i64),
        color_code_spec("lightgreen"@) == Some(12i64),
        color_code_spec("lightblue"@) == Some(13i64),
        color_code_spec("lavender"@) == Some(14i64),
        color_code_spec("lightgray"@) == Some(15i64),
        color_code_spec("darkgray"@) == Some(16i64),
        forall|n: Seq<char>| #[trigger] color_code_spec(n) is Some ==> n == "black"@ || n == "red"@ || n == "green"@ || n == "blue"@ || n == "yellow"@ || n == "magenta"@ || n == "cyan"@ || n == "white"@ || n == "deeppink"@ || n == "brown"@ || n == "orange"@ || n == "lightgreen"@ || n == "lightblue"@ || n == "lavender"@ || n == "lightgray"@ || n == "darkgray"@,
        forall|n: Seq<char>| #[trigger] color_code_spec(n) matches Some(c) ==> 1 <= c <= 16,
        forall|n: Seq<char>|
            #[trigger] color_code_spec(normalized_name(n)) == color_code_spec(normalized_name(normalized_name(n))),
{    assert(color_code_spec("black"@) == Some(1i64)) by {
        reveal_strlit("black");
    }
    assert(color_code_spec("red"@) == Some(2i64)) by {
        reveal_strlit("red");
        reveal_strlit("black");
        assert("black"@.len() != "red"@.len());
    }
    assert(color_code_spec("green"@) == Some(3i64)) by {
        reveal_strlit("green");
        reveal_strlit("black");
        assert("black"@[0] != "green"@[0]);
        reveal_strlit("red");
        assert("red"@.len() != "green"@.len());
    }
    assert(color_code_spec("blue"@) == Some(4i64)) by {
        reveal_strlit("blue");
        reveal_strlit("black");
        assert("black"@.len() != "blue"@.len());
        reveal_strlit("red");
        assert("red"@.len() != "blue"@.len());
        reveal_strlit("green");
        assert("green"@.len() != "blue"@.len());
    }
    assert(color_code_spec("yellow"@) == Some(5i64)) by {
        reveal_strlit("yellow");
        reveal_strlit("black");
        assert("black"@.len() != "yellow"@.len());
        reveal_strlit("red");
        assert("red"@.len() != "yellow"@.len());
        reveal_strlit("green");
        assert("green"@.len() != "yellow"@.len());
        reveal_strlit("blue");
        assert("blue"@.len() != "yellow"@.len());
    }
    assert(color_code_spec("magenta"@) == Some(6i64)) by {
        reveal_strlit("magenta");
        reveal_strlit("black");
        assert("black"@.len() != "magenta"@.len());
        reveal_strlit("red");
        assert("red"@.len() != "magenta"@.len());
        reveal_strlit("green");
        assert("green"@.len() != "magenta"@.len());
        reveal_strlit("blue");
        assert("blue"@.len() != "magenta"@.len());
        reveal_strlit("yellow");
        assert("yellow"@.len() != "magenta"@.len());
    }
    assert(color_code_spec("cyan"@) == Some(7i64)) by {
        reveal_strlit("cyan");
        reveal_strlit("black");
        assert("black"@.len() != "cyan"@.len());
        reveal_strlit("red");
        assert("red"@.len() != "cyan"@.len());
        reveal_strlit("green");
        assert("green"@.len() != "cyan"@.len());
        reveal_strlit("blue");
        assert("blue"@[0] != "cyan"@[0]);
        reveal_strlit("yellow");
        assert("yellow"@.len() != "cyan"@.len());
        reveal_strlit("magenta");
        assert("magenta"@.len() != "cyan"@.len());
    }
    assert(color_code_spec("white"@) == Some(8i64)) by {
        reveal_strlit("white");
        reveal_strlit("black");
        assert("black"@[0] != "white"@[0]);
        reveal_strlit("red");
        assert("red"@.len() != "white"@.len());
        reveal_strlit("green");
        assert("green"@[0] != "white"@[0]);
        reveal_strlit("blue");
        assert("blue"@.len() != "white"@.len());
        reveal_strlit("yellow");
        assert("yellow"@.len() != "white"@.len());
        reveal_strlit("magenta");
        assert("magenta"@.len() != "white"@.len());
        reveal_strlit("cyan");
        assert("cyan"@.len() != "white"@.len());
    }
    assert(color_code_spec("deeppink"@) == Some(9i64)) by {
        reveal_strlit("deeppink");
        reveal_strlit("black");
        assert("black"@.len() != "deeppink"@.len());
        reveal_strlit("red");
        assert("red"@.len() != "deeppink"@.len());
        reveal_strlit("green");
        assert("green"@.len() != "deeppink"@.len());
        reveal_strlit("blue");
        assert("blue"@.len() != "deeppink"@.len());
        reveal_strlit("yellow");
        assert("yellow"@.len() != "deeppink"@.len());
        reveal_strlit("magenta");
        assert("magenta"@.len() != "deeppink"@.len());
        reveal_strlit("cyan");
        assert("cyan"@.len() != "deeppink"@.len());
        reveal_strlit("white");
        assert("white"@.len() != "deeppink"@.len());
    }
    assert(color_code_spec("brown"@) == Some(10i64)) by {
        reveal_strlit("brown");
        reveal_strlit("black");
        assert("black"@[1] != "brown"@[1]);
        reveal_strlit("red");
        assert("red"@.len() != "brown"@.len());
        reveal_strlit("green");
        assert("green"@[0] != "brown"@[0]);
        reveal_strlit("blue");
        assert("blue"@.len() != "brown"@.len());
        reveal_strlit("yellow");
        assert("yellow"@.len() != "brown"@.len());
        reveal_strlit("magenta");
        assert("magenta"@.len() != "brown"@.len());
        reveal_strlit("cyan");
        assert("cyan"@.len() != "brown"@.len());
        reveal_strlit("white");
        assert("white"@[0] != "brown"@[0]);
        reveal_strlit("deeppink");
        assert("deeppink"@.len() != "brown"@.len());
    }
    assert(color_code_spec("orange"@) == Some(11i64)) by {
        reveal_strlit("orange");
        reveal_strlit("black");
        assert("black"@.len() != "orange"@.len());
        reveal_strlit("red");
        assert("red"@.len() != "orange"@.len());
        reveal_strlit("green");
        assert("green"@.len() != "orange"@.len());
        reveal_strlit("blue");
        assert("blue"@.len() != "orange"@.len());
        reveal_strlit("yellow");
        assert("yellow"@[0] != "orange"@[0]);
        reveal_strlit("magenta");
        assert("magenta"@.len() != "orange"@.len());
        reveal_strlit("cyan");
        assert("cyan"@.len() != "orange"@.len());
        reveal_strlit("white");
        assert("white"@.len() != "orange"@.len());
        reveal_strlit("deeppink");
        assert("deeppink"@.len() != "orange"@.len());
        reveal_strlit("brown");
        assert("brown"@.len() != "orange"@.len());
    }
    assert(color_code_spec("lightgreen"@) == Some(12i64)) by {
        reveal_strlit("lightgreen");
        reveal_strlit("black");
        assert("black"@.len() != "lightgreen"@.len());
        reveal_strlit("red");
        assert("red"@.len() != "lightgreen"@.len());
        reveal_strlit("green");
        assert("green"@.len() != "lightgreen"@.len());
        reveal_strlit("blue");
        assert("blue"@.len() != "lightgreen"@.len());
        reveal_strlit("yellow");
        assert("yellow"@.len() != "lightgreen"@.len());
        reveal_strlit("magenta");
        assert("magenta"@.len() != "lightgreen"@.len());
        reveal_strlit("cyan");
        assert("cyan"@.len() != "lightgreen"@.len());
        reveal_strlit("white");
        assert("white"@.len() != "lightgreen"@.len());
        reveal_strlit("deeppink");
        assert("deeppink"@.len() != "lightgreen"@.len());
        reveal_strlit("brown");
        assert("brown"@.len() != "lightgreen"@.len());
        reveal_strlit("orange");
        assert("orange"@.len() != "lightgreen"@.len());
    }
    assert(color_code_spec("lightblue"@) == Some(13i64)) by {
        reveal_strlit("lightblue");
        reveal_strlit("black");
        assert("black"@.len() != "lightblue"@.len());
        reveal_strlit("red");
        assert("red"@.len() != "lightblue"@.len());
        reveal_strlit("green");
        assert("green"@.len() != "lightblue"@.len());
        reveal_strlit("blue");
        assert("blue"@.len() != "lightblue"@.len());
        reveal_strlit("yellow");
        assert("yellow"@.len() != "lightblue"@.len());
        reveal_strlit("magenta");
        assert("magenta"@.len() != "lightblue"@.len());
        reveal_strlit("cyan");
        assert("cyan"@.len() != "lightblue"@.len());
        reveal_strlit("white");
        assert("white"@.len() != "lightblue"@.len());
        reveal_strlit("deeppink");
        assert("deeppink"@.len() != "lightblue"@.len());
        reveal_strlit("brown");
        assert("brown"@.len() != "lightblue"@.len());
        reveal_strlit("orange");
        assert("orange"@.len() != "lightblue"@.len());
        reveal_strlit("lightgreen");
        assert("lightgreen"@.len() != "lightblue"@.len());
    }
    assert(color_code_spec("lavender"@) == Some(14i64)) by {
        reveal_strlit("lavender");
        reveal_strlit("black");
        assert("black"@.len() != "lavender"@.len());
        reveal_strlit("red");
        assert("red"@.len() != "lavender"@.len());
        reveal_strlit("green");
        assert("green"@.len() != "lavender"@.len());
        reveal_strlit("blue");
        assert("blue"@.len() != "lavender"@.len());
        reveal_strlit("yellow");
        assert("yellow"@.len() != "lavender"@.len());
        reveal_strlit("magenta");
        assert("magenta"@.len() != "lavender"@.len());
        reveal_strlit("cyan");
        assert("cyan"@.len() != "lavender"@.len());
        reveal_strlit("white");
        assert("white"@.len() != "lavender"@.len());
        reveal_strlit("deeppink");
        assert("deeppink"@[0] != "lavender"@[0]);
        reveal_strlit("brown");
        assert("brown"@.len() != "lavender"@.len());
        reveal_strlit("orange");
        assert("orange"@.len() != "lavender"@.len());
        reveal_strlit("lightgreen");
        assert("lightgreen"@.len() != "lavender"@.len());
        reveal_strlit("lightblue");
        assert("lightblue"@.len() != "lavender"@.len());
    }
    assert(color_code_spec("lightgray"@) == Some(15i64)) by {
        reveal_strlit("lightgray");
        reveal_strlit("black");
        assert("black"@.len() != "lightgray"@.len());
        reveal_strlit("red");
        assert("red"@.len() != "lightgray"@.len());
        reveal_strlit("green");
        assert("green"@.len() != "lightgray"@.len());
        reveal_strlit("blue");
        assert("blue"@.len() != "lightgray"@.len());
        reveal_strlit("yellow");
        assert("yellow"@.len() != "lightgray"@.len());
        reveal_strlit("magenta");
        assert("magenta"@.len() != "lightgray"@.len());
        reveal_strlit("cyan");
        assert("cyan"@.len() != "lightgray"@.len());
        reveal_strlit("white");
        assert("white"@.len() != "lightgray"@.len());
        reveal_strlit("deeppink");
        assert("deeppink"@.len() != "lightgray"@.len());
        reveal_strlit("brown");
        assert("brown"@.len() != "lightgray"@.len());
        reveal_strlit("orange");
        assert("orange"@.len() != "lightgray"@.len());
        reveal_strlit("lightgreen");
        assert("lightgreen"@.len() != "lightgray"@.len());
        reveal_strlit("lightblue");
        assert("lightblue"@[5] != "lightgray"@[5]);
        reveal_strlit("lavender");
        assert("lavender"@.len() != "lightgray"@.len());
    }
    assert(color_code_spec("darkgray"@) == Some(16i64)) by {
        reveal_strlit("darkgray");
        reveal_strlit("black");
        assert("black"@.len() != "darkgray"@.len());
        reveal_strlit("red");
        assert("red"@.len() != "darkgray"@.len());
        reveal_strlit("green");
        assert("green"@.len() != "darkgray"@.len());
        reveal_strlit("blue");
        assert("blue"@.len() != "darkgray"@.len());
        reveal_strlit("yellow");
        assert("yellow"@.len() != "darkgray"@.len());
        reveal_strlit("magenta");
        assert("magenta"@.len() != "darkgray"@.len());
        reveal_strlit("cyan");
        assert("cyan"@.len() != "darkgray"@.len());
        reveal_strlit("white");
        assert("white"@.len() != "darkgray"@.len());
        reveal_strlit("deeppink");
        assert("deeppink"@[1] != "darkgray"@[1]);
        reveal_strlit("brown");
        assert("brown"@.len() != "darkgray"@.len());
        reveal_strlit("orange");
        assert("orange"@.len() != "darkgray"@.len());
        reveal_strlit("lightgreen");
        assert("lightgreen"@.len() != "darkgray"@.len());
        reveal_strlit("lightblue");
        assert("lightblue"@.len() != "darkgray"@.len());
        reveal_strlit("lavender");
        assert("lavender"@[0] != "darkgray"@[0]);
        reveal_strlit("lightgray");
        assert("lightgray"@.len() != "darkgray"@.len());
    }
    assert forall|n: Seq<char>|
        #[trigger] color_code_spec(normalized_name(n)) == color_code_spec(normalized_name(normalized_name(n))) by {
        lemma_normalized_name_idempotent(n);
    }
}

pub fn predefined_color_code(name: &str) -> (r: Option<i64>)
    ensures
        r == color_code_spec(normalized_name(name@)),
{
    let n = normalized_chars(&chars_of(name));
    let n = n.as_slice();
    if slice_eq_str(n, "black") {
        Some(1)
    } else if slice_eq_str(n, "red") {
        Some(2)
    } else if slice_eq_str(n, "green") {
        Some(3)
    } else if slice_eq_str(n, "blue") {
        Some(4)
    } else if slice_eq_str(n, "yellow") {
        Some(5)
    } else if slice_eq_str(n, "magenta") {
        Some(6)
    } else if slice_eq_str(n, "cyan") {
        Some(7)
    } else if slice_eq_str(n, "white") {
        Some(8)
    } else if slice_eq_str(n, "deeppink") {
        Some(9)
    } else if slice_eq_str(n, "brown") {
        Some(10)
    } else if slice_eq_str(n, "orange") {
        Some(11)
    } else if slice_eq_str(n, "lightgreen") {
        Some(12)
    } else if slice_eq_str(n, "lightblue") {
        Some(13)
    } else if slice_eq_str(n, "lavender") {
        Some(14)
    } else if slice_eq_str(n, "lightgray") {
        Some(15)
    } else if slice_eq_str(n, "darkgray") {
        Some(16)
    } else {
        None
    }
}

/// `|w - c / 10^9| <= 10^-9`, exactly.
pub open spec fn width_near(w: Decimal, c: int) -> bool {
    dec_order(w, c - 1, 9) >= 0 && dec_order(w, c + 1, 9) <= 0
}

/// Codes of the predefined line widths (0.13 mm … 2.0 mm).
pub open spec fn line_width_code_spec(w: Decimal) -> Option<i64> {
    if width_near(w, 130000000) {
        Some(1)
    } else if width_near(w, 180000000) {
        Some(2)
    } else if width_near(w, 250000000) {
        Some(3)
    } else if width_near(w, 350000000) {
        Some(4)
    } else if width_near(w, 500000000) {
        Some(5)
    } else if width_near(w, 700000000) {
        Some(6)
    } else if width_near(w, 1000000000) {
        Some(7)
    } else if width_near(w, 1400000000) {
        Some(8)
    } else if width_near(w, 2000000000) {
        Some(9)
    } else {
        None
    }
}

/// The SXF predefined line widths and their numbers: 0.13 mm 1, 0.18 mm 2,
/// 0.25 mm 3, 0.35 mm 4, 0.5 mm 5, 0.7 mm 6, 1.0 mm 7, 1.4 mm 8, 2.0 mm 9;
/// every code lies in 1..=9.
pub proof fn lemma_predefined_line_width_numbers()
    ensures
        line_width_code_spec(Decimal { mantissa: 13i128, exponent: -2i64 }) == Some(1i64),
        line_width_code_spec(Decimal { mantissa: 18i128, exponent: -2i64 }) == Some(2i64),
        line_width_code_spec(Decimal { mantissa: 25i128, exponent: -2i64 }) == Some(3i64),
        line_width_code_spec(Decimal { mantissa: 35i128, exponent: -2i64 }) == Some(4i64),
        line_width_code_spec(Decimal { mantissa: 5i128, exponent: -1i64 }) == Some(5i64),
        line_width_code_spec(Decimal { mantissa: 7i128, exponent: -1i64 }) == Some(6i64),
        line_width_code_spec(Decimal { mantissa: 1i128, exponent: 0i64 }) == Some(7i64),
        line_width_code_spec(Decimal { mantissa: 14i128, exponent: -1i64 }) == Some(8i64),
        line_width_code_spec(Decimal { mantissa: 2i128, exponent: 0i64 }) == Some(9i64),
        forall|w: Decimal| #[trigger] line_width_code_spec(w) matches Some(c) ==> 1 <= c <= 9,
{
    reveal_with_fuel(pow10, 10);
    assert(pow10(7) == 10000000);
    assert(pow10(8) == 100000000);
    assert(pow10(9) == 1000000000);
}

fn near(w: Decimal, c: i128) -> (b: bool)
    requires
        0 < c < 10000000000,
    ensures
        b == width_near(w, c as int),
{
    compare_decimal(w, c - 1, 9) >= 0 && compare_decimal(w, c + 1, 9) <= 0
}

pub fn predefined_line_width_code(width: Decimal) -> (r: Option<i64>)
    ensures
        r == line_width_code_spec(width),
{
    if near(width, 130000000) {
        Some(1)
    } else if near(width, 180000000) {
        Some(2)
    } else if near(width, 250000000) {
        Some(3)
    } else if near(width, 350000000) {
        Some(4)
    } else if near(width, 500000000) {
        Some(5)
    } else if near(width, 700000000) {
        Some(6)
    } else if near(width, 1000000000) {
        Some(7)
    } else if near(width, 1400000000) {
        Some(8)
    } else if near(width, 2000000000) {
        Some(9)
    } else {
        None
    }
}

/// Block marker each feature keyword (lower-cased) must be written in.
pub open spec fn required_version_spec(k: Seq<char>) -> Option<SfcVersionTag> {
    if k == "drawing_attribute_feature"@ {
        Some(SfcVersionTag::V3)
    } else if k == "clothoid_feature"@ || k == "curve_dim_feature"@ {
        Some(SfcVersionTag::V31)
    } else if k == "drawing_sheet_feature"@ || k == "layer_feature"@ || k
        == "pre_defined_font_feature"@ || k == "user_defined_font_feature"@ || k
        == "pre_defined_colour_feature"@ || k == "user_defined_colour_feature"@ || k
        == "width_feature"@ || k == "text_font_feature"@ || k == "point_marker_feature"@ || k
        == "line_feature"@ || k == "polyline_feature"@ || k == "circle_feature"@ || k
        == "arc_feature"@ || k == "ellipse_feature"@ || k == "ellipse_arc_feature"@ || k
        == "text_string_feature"@ || k == "spline_feature"@ || k == "sfig_org_feature"@ || k
        == "sfig_locate_feature"@ || k == "symbol_externally_defined_feature"@ || k
        == "externally_defined_symbol_feature"@ || k == "linear_dim_feature"@ || k
        == "angular_dim_feature"@ || k == "radius_dim_feature"@ || k
        == "diameter_dim_feature"@ || k == "label_feature"@ || k == "balloon_feature"@ || k
        == "externally_defined_hatch_feature"@ || k == "fill_area_style_colour_feature"@ || k
        == "fill_area_style_hatching_feature"@ || k
        == "fill_area_style_tiles_hatching_feature"@ || k == "fill_area_style_tiles_feature"@
        || k == "composite_curve_feature"@ || k == "composite_curve_org_feature"@ {
        Some(SfcVersionTag::V2)
    } else {
        None
    }
}

/// The block version each feature needs: a drawing attribute needs
/// `/*SXF3`; a clothoid and a curve dimension need `/*SXF3.1`; the features
/// of the first SXF version (sheet, layer, line, arc, polyline, composite
/// figures, composite curve, hatches, ...) need `/*SXF`.
pub proof fn lemma_required_versions()
    ensures
        required_version_spec("drawing_attribute_feature"@) == Some(SfcVersionTag::V3),
        required_version_spec("clothoid_feature"@) == Some(SfcVersionTag::V31),
        required_version_spec("curve_dim_feature"@) == Some(SfcVersionTag::V31),
        required_version_spec("drawing_sheet_feature"@) == Some(SfcVersionTag::V2),
        required_version_spec("layer_feature"@) == Some(SfcVersionTag::V2),
        required_version_spec("line_feature"@) == Some(SfcVersionTag::V2),
        required_version_spec("arc_feature"@) == Some(SfcVersionTag::V2),
        required_version_spec("polyline_feature"@) == Some(SfcVersionTag::V2),
        required_version_spec("sfig_org_feature"@) == Some(SfcVersionTag::V2),
        required_version_spec("sfig_locate_feature"@) == Some(SfcVersionTag::V2),
        required_version_spec("composite_curve_feature"@) == Some(SfcVersionTag::V2),
        required_version_spec("fill_area_style_colour_feature"@) == Some(SfcVersionTag::V2),
{
    reveal_strlit("drawing_attribute_feature");
    reveal_strlit("clothoid_feature");
    reveal_strlit("curve_dim_feature");
    reveal_strlit("drawing_sheet_feature");
    reveal_strlit("layer_feature");
    reveal_strlit("line_feature");
    reveal_strlit("arc_feature");
    reveal_strlit("polyline_feature");
    reveal_strlit("sfig_org_feature");
    reveal_strlit("sfig_locate_feature");
    reveal_strlit("composite_curve_feature");
    reveal_strlit("fill_area_style_colour_feature");
    assert("drawing_attribute_feature"@.len() != "clothoid_feature"@.len());
    assert("drawing_attribute_feature"@.len() != "curve_dim_feature"@.len());
    assert("clothoid_feature"@.len() != "curve_dim_feature"@.len());
    assert("drawing_sheet_feature"@.len() != "drawing_attribute_feature"@.len());
    assert("drawing_sheet_feature"@.len() != "clothoid_feature"@.len());
    assert("drawing_sheet_feature"@.len() != "curve_dim_feature"@.len());
    assert("layer_feature"@.len() != "drawing_attribute_feature"@.len());
    assert("layer_feature"@.len() != "clothoid_feature"@.len());
    assert("layer_feature"@.len() != "curve_dim_feature"@.len());
    assert("line_feature"@.len() != "drawing_attribute_feature"@.len());
    assert("line_feature"@.len() != "clothoid_feature"@.len());
    assert("line_feature"@.len() != "curve_dim_feature"@.len());
    assert("arc_feature"@.len() != "drawing_attribute_feature"@.len());
    assert("arc_feature"@.len() != "clothoid_feature"@.len());
    assert("arc_feature"@.len() != "curve_dim_feature"@.len());
    assert("polyline_feature"@.len() != "drawing_attribute_feature"@.len());
    assert("polyline_feature"@[0] != "clothoid_feature"@[0]);
    assert("polyline_feature"@.len() != "curve_dim_feature"@.len());
    assert("sfig_org_feature"@.len() != "drawing_attribute_feature"@.len());
    assert("sfig_org_feature"@[0] != "clothoid_feature"@[0]);
    assert("sfig_org_feature"@.len() != "curve_dim_feature"@.len());
    assert("sfig_locate_feature"@.len() != "drawing_attribute_feature"@.len());
    assert("sfig_locate_feature"@.len() != "clothoid_feature"@.len());
    assert("sfig_locate_feature"@.len() != "curve_dim_feature"@.len());
    assert("composite_curve_feature"@.len() != "drawing_attribute_feature"@.len());
    assert("composite_curve_feature"@.len() != "clothoid_feature"@.len());
    assert("composite_curve_feature"@.len() != "curve_dim_feature"@.len());
    assert("fill_area_style_colour_feature"@.len() != "drawing_attribute_feature"@.len());
    assert("fill_area_style_colour_feature"@.len() != "clothoid_feature"@.len());
    assert("fill_area_style_colour_feature"@.len() != "curve_dim_feature"@.len());
}

pub fn lowercase_chars(s: &str) -> (r: Vec<char>)
    ensures
        r@ == lower_seq(s@),
{
    let cs = chars_of(s);
    let mut out: Vec<char> = Vec::new();
    let mut i: usize = 0;
    while i < cs.len()
        invariant
            i <= cs@.len(),
            out@ == lower_seq(cs@.subrange(0, i as int)),
        decreases cs@.len() - i,
    {
        out.push(to_ascii_lower(cs[i]));
        i = i + 1;
        assert(out@ =~= lower_seq(cs@.subrange(0, i as int)));
    }
    assert(cs@.subrange(0, cs@.len() as int) =~= cs@);
    out
}

pub fn required_sfc_version(keyword: &str) -> (r: Option<SfcVersionTag>)
    ensures
        r == required_version_spec(lower_seq(keyword@)),
{
    let k = lowercase_chars(keyword);
    let k = k.as_slice();
    if slice_eq_str(k, "drawing_attribute_feature") {
        Some(SfcVersionTag::V3)
    } else if slice_eq_str(k, "clothoid_feature") || slice_eq_str(k, "curve_dim_feature") {
        Some(SfcVersionTag::V31)
    } else if slice_eq_str(k, "drawing_sheet_feature") || slice_eq_str(k, "layer_feature")
        || slice_eq_str(k, "pre_defined_font_feature") || slice_eq_str(
        k,
        "user_defined_font_feature",
    ) || slice_eq_str(k, "pre_defined_colour_feature") || slice_eq_str(
        k,
        "user_defined_colour_feature",
    ) || slice_eq_str(k, "width_feature") || slice_eq_str(k, "text_font_feature")
        || slice_eq_str(k, "point_marker_feature") || slice_eq_str(k, "line_feature")
        || slice_eq_str(k, "polyline_feature") || slice_eq_str(k, "circle_feature")
        || slice_eq_str(k, "arc_feature") || slice_eq_str(k, "ellipse_feature") || slice_eq_str(
        k,
        "ellipse_arc_feature",
    ) || slice_eq_str(k, "text_string_feature") || slice_eq_str(k, "spline_feature")
        || slice_eq_str(k, "sfig_org_feature") || slice_eq_str(k, "sfig_locate_feature")
        || slice_eq_str(k, "symbol_externally_defined_feature") || slice_eq_str(
        k,
        "externally_defined_symbol_feature",
    ) || slice_eq_str(k, "linear_dim_feature") || slice_eq_str(k, "angular_dim_feature")
        || slice_eq_str(k, "radius_dim_feature") || slice_eq_str(k, "diameter_dim_feature")
        || slice_eq_str(k, "label_feature") || slice_eq_str(k, "balloon_feature")
        || slice_eq_str(k, "externally_defined_hatch_feature") || slice_eq_str(
        k,
        "fill_area_style_colour_feature",
    ) || slice_eq_str(k, "fill_area_style_hatching_feature") || slice_eq_str(
        k,
        "fill_area_style_tiles_hatching_feature",
    ) || slice_eq_str(k, "fill_area_style_tiles_feature") || slice_eq_str(
        k,
        "composite_curve_feature",
    ) || slice_eq_str(k, "composite_curve_org_feature") {
        Some(SfcVersionTag::V2)
    } else {
        None
    }
}

impl TypedFeature {
    /// The common style of a drawing element; definitions have none.
    pub open spec fn spec_style(self) -> Option<CommonStyle> {
        match self {
            TypedFeature::SfigLocate(f) => Some(f.style),
            TypedFeature::ExternallyDefinedSymbol(f) => Some(f.style),
            TypedFeature::LinearDim(f) => Some(f.style),
            TypedFeature::CurveDim(f) => Some(f.style),
            TypedFeature::AngularDim(f) => Some(f.style),
            TypedFeature::RadiusDim(f) => Some(f.style),
            TypedFeature::DiameterDim(f) => Some(f.style),
            TypedFeature::Label(f) => Some(f.style),
            TypedFeature::Balloon(f) => Some(f.style),
            TypedFeature::ExternallyDefinedHatch(f) => Some(f.style),
            TypedFeature::FillAreaStyleColour(f) => Some(f.style),
            TypedFeature::FillAreaStyleHatching(f) => Some(f.style),
            TypedFeature::FillAreaStyleTiles(f) => Some(f.style),
            TypedFeature::PointMarker(f) => Some(f.style),
            TypedFeature::Line(f) => Some(f.style),
            TypedFeature::Polyline(f) => Some(f.style),
            TypedFeature::Circle(f) => Some(f.style),
            TypedFeature::Arc(f) => Some(f.style),
            TypedFeature::Ellipse(f) => Some(f.style),
            TypedFeature::EllipseArc(f) => Some(f.style),
            TypedFeature::Text(f) => Some(f.style),
            TypedFeature::Spline(f) => Some(f.style),
            TypedFeature::Clothoid(f) => Some(f.style),
            TypedFeature::CompositeCurve(f) => Some(f.style),
            _ => None,
        }
    }

    pub fn style(&self) -> (r: Option<&CommonStyle>)
        ensures
            match r {
                Some(s) => self.spec_style() == Some(*s),
                None => self.spec_style() is None,
            },
    {
        match self {
            TypedFeature::SfigLocate(f) => Some(&f.style),
            TypedFeature::ExternallyDefinedSymbol(f) => Some(&f.style),
            TypedFeature::LinearDim(f) => Some(&f.style),
            TypedFeature::CurveDim(f) => Some(&f.style),
            TypedFeature::AngularDim(f) => Some(&f.style),
            TypedFeature::RadiusDim(f) => Some(&f.style),
            TypedFeature::DiameterDim(f) => Some(&f.style),
            TypedFeature::Label(f) => Some(&f.style),
            TypedFeature::Balloon(f) => Some(&f.style),
            TypedFeature::ExternallyDefinedHatch(f) => Some(&f.style),
            TypedFeature::FillAreaStyleColour(f) => Some(&f.style),
            TypedFeature::FillAreaStyleHatching(f) => Some(&f.style),
            TypedFeature::FillAreaStyleTiles(f) => Some(&f.style),
            TypedFeature::PointMarker(f) => Some(&f.style),
            TypedFeature::Line(f) => Some(&f.style),
            TypedFeature::Polyline(f) => Some(&f.style),
            TypedFeature::Circle(f) => Some(&f.style),
            TypedFeature::Arc(f) => Some(&f.style),
            TypedFeature::Ellipse(f) => Some(&f.style),
            TypedFeature::EllipseArc(f) => Some(&f.style),
            TypedFeature::Text(f) => Some(&f.style),
            TypedFeature::Spline(f) => Some(&f.style),
            TypedFeature::Clothoid(f) => Some(&f.style),
            TypedFeature::CompositeCurve(f) => Some(&f.style),
            _ => None,
        }
    }

    /// Definitions (drawing attributes, sheet, layers, fonts, colours, widths,
    /// text fonts) may come anywhere; every other feature must precede the sheet.
    pub open spec fn spec_requires_pre_sheet_order(self) -> bool {
        match self {
            TypedFeature::DrawingAttribute(_) => false,
            TypedFeature::DrawingSheet(_) => false,
            TypedFeature::Layer(_) => false,
            TypedFeature::PreDefinedFont(_) => false,
            TypedFeature::UserDefinedFont(_) => false,
            TypedFeature::PreDefinedColour(_) => false,
            TypedFeature::UserDefinedColour(_) => false,
            TypedFeature::Width(_) => false,
            TypedFeature::TextFont(_) => false,
            _ => true,
        }
    }

    pub fn requires_pre_sheet_order(&self) -> (b: bool)
        ensures
            b == self.spec_requires_pre_sheet_order(),
    {
        match self {
            TypedFeature::DrawingAttribute(_) => false,
            TypedFeature::DrawingSheet(_) => false,
            TypedFeature::Layer(_) => false,
            TypedFeature::PreDefinedFont(_) => false,
            TypedFeature::UserDefinedFont(_) => false,
            TypedFeature::PreDefinedColour(_) => false,
            TypedFeature::UserDefinedColour(_) => false,
            TypedFeature::Width(_) => false,
            TypedFeature::TextFont(_) => false,
            _ => true,
        }
    }
}

/// Arcs, elliptic arcs, polylines and splines may form a composite curve.
pub open spec fn spec_is_composite_curve_component(f: TypedFeature) -> bool {
    f is Arc || f is EllipseArc || f is Polyline || f is Spline
}

/// Arcs, elliptic arcs, polylines and splines are composite-curve
/// components; lines, circles, ellipses, clothoids, composite curves and
/// every other kind are not.
pub proof fn lemma_composite_curve_components(f: TypedFeature)
    ensures
        f matches TypedFeature::Arc(_) ==> spec_is_composite_curve_component(f),
        f matches TypedFeature::EllipseArc(_) ==> spec_is_composite_curve_component(f),
        f matches TypedFeature::Polyline(_) ==> spec_is_composite_curve_component(f),
        f matches TypedFeature::Spline(_) ==> spec_is_composite_curve_component(f),
        f matches TypedFeature::Line(_) ==> !spec_is_composite_curve_component(f),
        f matches TypedFeature::Circle(_) ==> !spec_is_composite_curve_component(f),
        f matches TypedFeature::Ellipse(_) ==> !spec_is_composite_curve_component(f),
        f matches TypedFeature::Clothoid(_) ==> !spec_is_composite_curve_component(f),
        f matches TypedFeature::CompositeCurve(_) ==> !spec_is_composite_curve_component(f),
        spec_is_composite_curve_component(f) ==> (f matches TypedFeature::Arc(_)) || (f matches TypedFeature::EllipseArc(
            _,
        )) || (f matches TypedFeature::Polyline(_)) || (f matches TypedFeature::Spline(_)),
{
}

pub fn is_composite_curve_component(feature: &TypedFeature) -> (b: bool)
    ensures
        b == spec_is_composite_curve_component(*feature),
{
    match feature {
        TypedFeature::Arc(_) | TypedFeature::EllipseArc(_) | TypedFeature::Polyline(_)
        | TypedFeature::Spline(_) => true,
        _ => false,
    }
}

/// The outer and inner composite-curve codes of a hatch.
pub open spec fn spec_hatch_codes(f: TypedFeature) -> Option<(i64, Seq<i64>)> {
    match f {
        TypedFeature::ExternallyDefinedHatch(v) => Some((v.out_id, v.in_ids@)),
        TypedFeature::FillAreaStyleColour(v) => Some((v.out_id, v.in_ids@)),
        TypedFeature::FillAreaStyleHatching(v) => Some((v.out_id, v.in_ids@)),
        TypedFeature::FillAreaStyleTiles(v) => Some((v.out_id, v.in_ids@)),
        _ => None,
    }
}

/// The four hatch kinds name their outer and inner composite-curve codes;
/// no other feature names any.
pub proof fn lemma_hatch_codes(f: TypedFeature)
    ensures
        f matches TypedFeature::ExternallyDefinedHatch(v) ==> spec_hatch_codes(f) == Some((v.out_id, v.in_ids@)),
        f matches TypedFeature::FillAreaStyleColour(v) ==> spec_hatch_codes(f) == Some((v.out_id, v.in_ids@)),
        f matches TypedFeature::FillAreaStyleHatching(v) ==> spec_hatch_codes(f) == Some((v.out_id, v.in_ids@)),
        f matches TypedFeature::FillAreaStyleTiles(v) ==> spec_hatch_codes(f) == Some((v.out_id, v.in_ids@)),
        spec_hatch_codes(f) is Some ==> (f matches TypedFeature::ExternallyDefinedHatch(_)) || (f matches TypedFeature::FillAreaStyleColour(
            _,
        )) || (f matches TypedFeature::FillAreaStyleHatching(_)) || (f matches TypedFeature::FillAreaStyleTiles(_)),
{
}

/// Definitions (drawing attributes, the sheet, layers, fonts, colours,
/// widths, text fonts) may stand anywhere; drawn features, composite
/// figures, composite curves and hatches must come before the sheet.
pub proof fn lemma_pre_sheet_order(f: TypedFeature)
    ensures
        f matches TypedFeature::DrawingAttribute(_) ==> !f.spec_requires_pre_sheet_order(),
        f matches TypedFeature::DrawingSheet(_) ==> !f.spec_requires_pre_sheet_order(),
        f matches TypedFeature::Layer(_) ==> !f.spec_requires_pre_sheet_order(),
        f matches TypedFeature::PreDefinedFont(_) ==> !f.spec_requires_pre_sheet_order(),
        f matches TypedFeature::UserDefinedFont(_) ==> !f.spec_requires_pre_sheet_order(),
        f matches TypedFeature::PreDefinedColour(_) ==> !f.spec_requires_pre_sheet_order(),
        f matches TypedFeature::UserDefinedColour(_) ==> !f.spec_requires_pre_sheet_order(),
        f matches TypedFeature::Width(_) ==> !f.spec_requires_pre_sheet_order(),
        f matches TypedFeature::TextFont(_) ==> !f.spec_requires_pre_sheet_order(),
        f matches TypedFeature::Line(_) ==> f.spec_requires_pre_sheet_order(),
        f matches TypedFeature::Arc(_) ==> f.spec_requires_pre_sheet_order(),
        f matches TypedFeature::Text(_) ==> f.spec_requires_pre_sheet_order(),
        f matches TypedFeature::SfigOrg(_) ==> f.spec_requires_pre_sheet_order(),
        f matches TypedFeature::SfigLocate(_) ==> f.spec_requires_pre_sheet_order(),
        f matches TypedFeature::CompositeCurve(_) ==> f.spec_requires_pre_sheet_order(),
        f matches TypedFeature::FillAreaStyleColour(_) ==> f.spec_requires_pre_sheet_order(),
{
}

pub fn hatch_composite_curve_codes(feature: &TypedFeature) -> (r: Option<(i64, &[i64])>)
    ensures
        match r {
            Some((out_id, in_ids)) => spec_hatch_codes(*feature) == Some((out_id, in_ids@)),
            None => spec_hatch_codes(*feature) is None,
        },
{
    match feature {
        TypedFeature::ExternallyDefinedHatch(v) => Some((v.out_id, v.in_ids.as_slice())),
        TypedFeature::FillAreaStyleColour(v) => Some((v.out_id, v.in_ids.as_slice())),
        TypedFeature::FillAreaStyleHatching(v) => Some((v.out_id, v.in_ids.as_slice())),
        TypedFeature::FillAreaStyleTiles(v) => Some((v.out_id, v.in_ids.as_slice())),
        _ => None,
    }
}


pub fn resolve_composite_curve_definition(
    definitions: &[SfcCompositeCurveDefinition],
    code: i64,
) -> (r: Option<&SfcCompositeCurveDefinition>)
    ensures
        match r {
            Some(d) => exists|i: int|
                0 <= i < definitions@.len() && definitions@[i] == *d && d.code == code
                    && forall|j: int| 0 <= j < i ==> #[trigger] definitions@[j].code != code,
            None => forall|i: int|
                0 <= i < definitions@.len() ==> #[trigger] definitions@[i].code != code,
        },
{
    let mut i: usize = 0;
    while i < definitions.len()
        invariant
            i <= definitions@.len(),
            forall|j: int| 0 <= j < i ==> #[trigger] definitions@[j].code != code,
        decreases definitions@.len() - i,
    {
        if definitions[i].code == code {
            return Some(&definitions[i]);
        }
        i = i + 1;
    }
    None
}

/// Which code table a code reference points into.
#[derive(Debug, Clone, Copy, PartialEq, Eq, Structural)]
pub enum SfcCodeKind {
    Color,
    LineType,
    LineWidth,
    TextFont,
}

pub open spec fn text_font_ref(t: FeatureText) -> Seq<(SfcCodeKind, i64)> {
    if t.present_flag == 1 {
        seq![(SfcCodeKind::TextFont, t.font_code)]
    } else {
        Seq::empty()
    }
}

/// Code references a feature makes beyond its common style.
pub open spec fn spec_additional_refs(f: TypedFeature) -> Seq<(SfcCodeKind, i64)> {
    match f {
        TypedFeature::LinearDim(v) => text_font_ref(v.text),
        TypedFeature::CurveDim(v) => text_font_ref(v.text),
        TypedFeature::AngularDim(v) => text_font_ref(v.text),
        TypedFeature::RadiusDim(v) => text_font_ref(v.text),
        TypedFeature::DiameterDim(v) => text_font_ref(v.text),
        TypedFeature::Label(v) => text_font_ref(v.text),
        TypedFeature::Balloon(v) => text_font_ref(v.text),
        TypedFeature::FillAreaStyleHatching(v) => Seq::new(
            (3 * v.patterns@.len()) as nat,
            |i: int|
                {
                    let p = v.patterns@[i / 3];
                    if i % 3 == 0 {
                        (SfcCodeKind::Color, p.color_code)
                    } else if i % 3 == 1 {
                        (SfcCodeKind::LineType, p.line_type_code)
                    } else {
                        (SfcCodeKind::LineWidth, p.line_width_code)
                    }
                },
        ),
        TypedFeature::FillAreaStyleTiles(v) => seq![(SfcCodeKind::Color, v.hatch_color)],
        _ => Seq::empty(),
    }
}

fn push_text_font(refs: &mut Vec<(SfcCodeKind, i64)>, text: &FeatureText)
    ensures
        final(refs)@ == old(refs)@ + text_font_ref(*text),
{
    if text.present_flag == 1 {
        refs.push((SfcCodeKind::TextFont, text.font_code));
    }
    assert(final(refs)@ =~= old(refs)@ + text_font_ref(*text));
}

pub fn additional_sfc_code_references(feature: &TypedFeature) -> (r: Vec<(SfcCodeKind, i64)>)
    ensures
        r@ == spec_additional_refs(*feature),
{
    let mut references: Vec<(SfcCodeKind, i64)> = Vec::new();
    match feature {
        TypedFeature::LinearDim(value) => push_text_font(&mut references, &value.text),
        TypedFeature::CurveDim(value) => push_text_font(&mut references, &value.text),
        TypedFeature::AngularDim(value) => push_text_font(&mut references, &value.text),
        TypedFeature::RadiusDim(value) => push_text_font(&mut references, &value.text),
        TypedFeature::DiameterDim(value) => push_text_font(&mut references, &value.text),
        TypedFeature::Label(value) => push_text_font(&mut references, &value.text),
        TypedFeature::Balloon(value) => push_text_font(&mut references, &value.text),
        TypedFeature::FillAreaStyleHatching(value) => {
            let ghost want = spec_additional_refs(*feature);
            let mut k: usize = 0;
            while k < value.patterns.len()
                invariant
                    k <= value.patterns@.len(),
                    want == spec_additional_refs(*feature),
                    *feature == TypedFeature::FillAreaStyleHatching(*value),
                    references@ =~= want.subrange(0, 3 * k as int),
                    want.len() == 3 * value.patterns@.len(),
                decreases value.patterns@.len() - k,
            {
                let p = value.patterns[k];
                references.push((SfcCodeKind::Color, p.color_code));
                references.push((SfcCodeKind::LineType, p.line_type_code));
                references.push((SfcCodeKind::LineWidth, p.line_width_code));
                proof {
                    assert((3 * k) / 3 == k as int && (3 * k) % 3 == 0);
                    assert((3 * k + 1) / 3 == k as int && (3 * k + 1) % 3 == 1);
                    assert((3 * k + 2) / 3 == k as int && (3 * k + 2) % 3 == 2);
                }
                k = k + 1;
                assert(references@ =~= want.subrange(0, 3 * k as int));
            }
            assert(want.subrange(0, want.len() as int) =~= want);
        },
        TypedFeature::FillAreaStyleTiles(value) => {
            references.push((SfcCodeKind::Color, value.hatch_color));
        },
        _ => {},
    }
    assert(references@ =~= spec_additional_refs(*feature));
    references
}

} // verus!
