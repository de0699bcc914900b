//! Values, records and sections of a Part 21 / SFC exchange file.

use vstd::prelude::*;
use crate::lexer::{
    backslash_quoted_from, digit_end, first_match_ci, is_keyword_start, is_keyword_start_spec,
    keyword_ci_at, keyword_end, lemma_digit_end, lemma_keyword_end, lemma_skip_ws_idem,
    matches_ci_at, quoted_from, skip_ws_from, string_issue_codes, Parser,
};
use crate::model::{
    Decimal, EntityBody, EntityInstance, FileFormat, HeaderSection, ParseError, Record,
    SfcVersionTag, Value,
};
use crate::grammar::{
    blocks_read, lemma_blocks_read_empty, lemma_entity_at_ws, lemma_sfc_blocks_step, lemma_blocks_read_push, complex_at, entities_model, sfc_blocks_at, sfc_data_at, entity_at, header_at, header_records_at, p21_data_at, p21_entities_at, EntityModel, entity_model, lemma_prefixed, lemma_prefixed_empty, record_at, record_model, records_model, records_to_close, RecordModel, ValueModel, items_at, lemma_values_model_push, list_at, prefixed, value_at, value_model, values_model,
};
use crate::number::{decimal_body_spec, parse_decimal_range, parse_int_range, parse_int_spec, sign_split};
use crate::text::{is_ascii_digit, lower_spec, push_int, push_str, string_from_str};

verus! {

/// Position after an optional sign at `i`.
pub open spec fn after_sign(s: Seq<char>, i: int) -> int {
    if 0 <= i < s.len() && (s[i] == '+' || s[i] == '-') {
        i + 1
    } else {
        i
    }
}

/// End of the integer digits of a number literal at `i`.
pub open spec fn int_digits_end(s: Seq<char>, i: int) -> int {
    digit_end(s, after_sign(s, i))
}

/// The literal has a fraction part.
pub open spec fn has_dot(s: Seq<char>, i: int) -> bool {
    let b = int_digits_end(s, i);
    0 <= b < s.len() && s[b] == '.'
}

/// End of the digits and the optional fraction of a number literal at `i`.
pub open spec fn mantissa_end(s: Seq<char>, i: int) -> int {
    if has_dot(s, i) {
        digit_end(s, int_digits_end(s, i) + 1)
    } else {
        int_digits_end(s, i)
    }
}

/// The literal has an exponent part.
pub open spec fn has_exponent(s: Seq<char>, i: int) -> bool {
    let m = mantissa_end(s, i);
    0 <= m < s.len() && (s[m] == 'E' || s[m] == 'e')
}

/// First digit of the exponent.
pub open spec fn exponent_digits_start(s: Seq<char>, i: int) -> int {
    after_sign(s, mantissa_end(s, i) + 1)
}

/// Position just after a number literal at `i`.
pub open spec fn number_end(s: Seq<char>, i: int) -> int {
    if has_exponent(s, i) {
        digit_end(s, exponent_digits_start(s, i))
    } else {
        mantissa_end(s, i)
    }
}

/// The syntax error of a number literal at `i`, if any.
pub open spec fn number_syntax_error(s: Seq<char>, i: int) -> Option<Seq<char>> {
    if int_digits_end(s, i) == after_sign(s, i) {
        Some("Invalid numeric literal"@)
    } else if has_exponent(s, i) && number_end(s, i) == exponent_digits_start(s, i) {
        Some("Invalid exponent in numeric literal"@)
    } else {
        None
    }
}

/// The literal is a real rather than an integer.
pub open spec fn is_real_literal(s: Seq<char>, i: int) -> bool {
    has_dot(s, i) || has_exponent(s, i)
}

/// A signed integer written in `t`, held to the `i64` range.
pub open spec fn saturated_int(t: Seq<char>) -> int {
    match parse_int_spec(t) {
        Some(v) => v,
        None => if sign_split(t).0 {
            i64::MIN as int
        } else {
            i64::MAX as int
        },
    }
}

/// `v` held to the `i64` range.
pub open spec fn clamp_i64(v: int) -> i64 {
    if v < i64::MIN {
        i64::MIN
    } else if v > i64::MAX {
        i64::MAX
    } else {
        v as i64
    }
}

/// The value of a well-formed number literal at `i`: an `i64` integer, or a
/// decimal whose mantissa holds the leading digits that fit an `i128` and
/// whose exponent is held to the `i64` range (a huge exponent stands for an
/// overflow, a very negative one for an underflow to zero).
pub open spec fn number_value(s: Seq<char>, i: int) -> Option<Value> {
    if !is_real_literal(s, i) {
        match parse_int_spec(s.subrange(i, int_digits_end(s, i))) {
            Some(v) => Some(Value::Integer(v as i64)),
            None => None,
        }
    } else {
        match decimal_body_spec(s.subrange(i, mantissa_end(s, i))) {
            None => None,
            Some(d) => {
                let x = if has_exponent(s, i) {
                    saturated_int(s.subrange(mantissa_end(s, i) + 1, number_end(s, i)))
                } else {
                    0int
                };
                Some(Value::Real(Decimal { mantissa: d.mantissa, exponent: clamp_i64(d.exponent + x) }))
            },
        }
    }
}

/// Exponent notation in an SFC file raises a warning (or, strictly, an error).
pub open spec fn number_codes(format: FileFormat, s: Seq<char>, i: int) -> Seq<Seq<char>> {
    if format == FileFormat::Sfc && has_exponent(s, i) {
        seq!["sfc-real-format"@]
    } else {
        Seq::empty()
    }
}

/// The id of a `#123` reference at `j`.
pub open spec fn reference_at(s: Seq<char>, j: int) -> Option<int> {
    let e = digit_end(s, j + 1);
    if 0 <= j < s.len() && s[j] == '#' && e > j + 1 {
        parse_int_spec(s.subrange(j + 1, e))
    } else {
        None
    }
}

/// The character at `j`, if any.
pub open spec fn char_at(s: Seq<char>, j: int) -> Option<char> {
    if 0 <= j < s.len() {
        Some(s[j])
    } else {
        None
    }
}

/// A value starts at `j` with a number literal.
pub open spec fn starts_number(c: char) -> bool {
    c == '+' || c == '-' || crate::text::is_digit_spec(c)
}

/// A case-insensitive match of `a` at `k` is also one of its prefix `b`.
pub proof fn lemma_match_prefix(s: Seq<char>, k: int, a: Seq<char>, b: Seq<char>)
    requires
        b.len() <= a.len(),
        a.subrange(0, b.len() as int) == b,
        matches_ci_at(s, k, a),
    ensures
        matches_ci_at(s, k, b),
{
    assert forall|q: int| 0 <= q < b.len() implies lower_spec(#[trigger] s[k + q]) == lower_spec(
        b[q],
    ) by {
        assert(b[q] == a.subrange(0, b.len() as int)[q]);
        assert(lower_spec(s[k + q]) == lower_spec(a[q]));
    }
}

/// Where an SFC feature block or the end of the data section can start.
pub open spec fn block_stop(s: Seq<char>, k: int) -> bool {
    keyword_ci_at(s, k, "ENDSEC"@) || matches_ci_at(s, k, "/*SXF"@)
}

/// First position at or after `k`, before the end, where `block_stop` holds.
pub open spec fn next_block_stop(s: Seq<char>, k: int) -> Option<int>
    decreases s.len() - k,
{
    if k < 0 || k >= s.len() {
        None
    } else if block_stop(s, k) {
        Some(k)
    } else {
        next_block_stop(s, k + 1)
    }
}

/// The marker that closes a feature block of version `tag`.
pub open spec fn suffix_of(tag: SfcVersionTag) -> Seq<char> {
    tag.spec_marker() + "*/"@
}

/// The version tag an opening `/*SXF…` at `j` announces, if any.
pub open spec fn prefix_tag(s: Seq<char>, j: int) -> Option<SfcVersionTag> {
    if !(char_at(s, j) == Some('/') && char_at(s, j + 1) == Some('*')) {
        None
    } else if matches_ci_at(s, j + 2, "SXF3.1"@) {
        Some(SfcVersionTag::V31)
    } else if matches_ci_at(s, j + 2, "SXF3"@) {
        Some(SfcVersionTag::V3)
    } else if matches_ci_at(s, j + 2, "SXF"@) {
        Some(SfcVersionTag::V2)
    } else {
        None
    }
}

pub proof fn lemma_next_block_stop(s: Seq<char>, k: int)
    requires
        0 <= k,
    ensures
        next_block_stop(s, k) matches Some(m) ==> k <= m < s.len() && block_stop(s, m),
    decreases s.len() - k,
{
    if k < s.len() && !block_stop(s, k) {
        lemma_next_block_stop(s, k + 1);
    }
}

pub proof fn lemma_first_match_ci(s: Seq<char>, k: int, lit: Seq<char>)
    requires
        0 <= k,
    ensures
        first_match_ci(s, k, lit) matches Some(m) ==> k <= m,
    decreases s.len() - k,
{
    if k < s.len() && !matches_ci_at(s, k, lit) {
        lemma_first_match_ci(s, k + 1, lit);
    }
}

impl Parser {
    /// Moves over ASCII digits.
    pub fn skip_digits(&mut self)
        requires
            old(self).wf(),
        ensures
            final(self).wf(),
            old(self).same_source(&*final(self)),
            final(self).warnings@ == old(self).warnings@,
            final(self).index == digit_end(old(self).chars@, old(self).index as int),
            old(self).index <= final(self).index,
    {
        proof {
            lemma_digit_end(self.chars@, self.index as int);
        }
        while self.index < self.chars.len() && is_ascii_digit(self.chars[self.index])
            invariant
                self.wf(),
                old(self).same_source(&*self),
                self.warnings@ == old(self).warnings@,
                digit_end(old(self).chars@, old(self).index as int) == digit_end(
                    self.chars@,
                    self.index as int,
                ),
            decreases self.chars@.len() - self.index,
        {
            self.advance_char();
        }
    }

    /// Moves over one `+` or `-`, if there is one.
    fn skip_sign(&mut self)
        requires
            old(self).wf(),
        ensures
            final(self).wf(),
            old(self).same_source(&*final(self)),
            final(self).warnings@ == old(self).warnings@,
            final(self).index == after_sign(old(self).chars@, old(self).index as int),
    {
        match self.peek_char() {
            Some(c) => if c == '+' || c == '-' {
                self.advance_char();
            },
            None => {},
        }
    }

    pub fn parse_number_value(&mut self) -> (r: Result<Value, ParseError>)
        requires
            old(self).wf(),
        ensures
            final(self).wf(),
            old(self).quiet_if_strict(&*final(self)),
            old(self).quiet_for_p21(&*final(self)),
            r is Ok ==> old(self).index < final(self).index,
            old(self).index <= final(self).index,
            old(self).same_source(&*final(self)),
            old(self).keeps_warnings(&*final(self)),
            ({
                let s = old(self).chars@;
                let i = old(self).index as int;
                let strict_fail = old(self).strict && number_codes(old(self).format, s, i).len() > 0;
                &&& r is Ok <==> number_syntax_error(s, i) is None && !strict_fail && number_value(
                    s,
                    i,
                ) is Some
                &&& r matches Ok(v) ==> v == number_value(s, i).unwrap() && final(self).index
                    == number_end(s, i) && old(self).added_codes(
                    &*final(self),
                    number_codes(old(self).format, s, i),
                )
                &&& r matches Err(e) ==> e.message@ == (match number_syntax_error(s, i) {
                    Some(m) => m,
                    None => if strict_fail {
                        "Exponent notation is discouraged for SFC real values"@
                    } else if is_real_literal(s, i) {
                        "Failed to parse floating-point value"@
                    } else {
                        "Failed to parse integer value"@
                    },
                })
                &&& r matches Err(e) ==> (!strict_fail || number_syntax_error(s, i) is Some) ==> (
                e.line == old(self).line && e.column == old(self).column)
            }),
    {
        let start = self.snapshot();
        let ghost s = self.chars@;
        let i0 = self.index;
        self.skip_sign();
        let a = self.index;
        self.skip_digits();
        let b = self.index;
        proof {
            lemma_digit_end(s, a as int);
        }
        if b == a {
            return Err(self.error_at(start, string_from_str("Invalid numeric literal")));
        }
        let mut is_real = false;
        if self.peek_char() == Some('.') {
            is_real = true;
            self.advance_char();
            proof {
                lemma_digit_end(s, self.index as int);
            }
            self.skip_digits();
        }
        let m = self.index;
        assert(m == mantissa_end(s, i0 as int));
        let mut uses_exponent = false;
        let c = self.peek_char();
        if c == Some('E') || c == Some('e') {
            uses_exponent = true;
            is_real = true;
            self.advance_char();
            self.skip_sign();
            let ea = self.index;
            proof {
                lemma_digit_end(s, ea as int);
            }
            self.skip_digits();
            if self.index == ea {
                return Err(
                    self.error_at(start, string_from_str("Invalid exponent in numeric literal")),
                );
            }
        }
        let end = self.index;
        assert(end == number_end(s, i0 as int));
        assert(uses_exponent == has_exponent(s, i0 as int));
        assert(is_real == is_real_literal(s, i0 as int));
        proof {
            self.lemma_added_none();
        }
        if uses_exponent && self.format == FileFormat::Sfc {
            self.issue_or_error(
                "sfc-real-format",
                string_from_str("Exponent notation is discouraged for SFC real values"),
            )?;
        }
        if is_real {
            match parse_decimal_range(&self.chars, i0, m) {
                None => Err(
                    self.error_at(start, string_from_str("Failed to parse floating-point value")),
                ),
                Some(d) => {
                    let x: i64 = if uses_exponent {
                        match parse_int_range(&self.chars, m + 1, end) {
                            Some(x) => x,
                            None => {
                                proof {
                                    let t = s.subrange(m + 1, end as int);
                                    assert(t[0] == s[m + 1]);
                                }
                                if self.chars[m + 1] == '-' {
                                    i64::MIN
                                } else {
                                    i64::MAX
                                }
                            },
                        }
                    } else {
                        0
                    };
                    let sum: i128 = d.exponent as i128 + x as i128;
                    let e: i64 = if sum < -9223372036854775808i128 {
                        i64::MIN
                    } else if sum > 9223372036854775807i128 {
                        i64::MAX
                    } else {
                        sum as i64
                    };
                    Ok(Value::Real(Decimal { mantissa: d.mantissa, exponent: e }))
                },
            }
        } else {
            match parse_int_range(&self.chars, i0, b) {
                Some(v) => Ok(Value::Integer(v)),
                None => Err(self.error_at(start, string_from_str("Failed to parse integer value"))),
            }
        }
    }

    /// One parameter value, after any white space. The first character
    /// decides its kind.
    pub fn parse_value(&mut self) -> (r: Result<Value, ParseError>)
        requires
            old(self).wf(),
        ensures
            final(self).wf(),
            old(self).quiet_if_strict(&*final(self)),
            old(self).quiet_for_p21(&*final(self)),
            old(self).same_source(&*final(self)),
            old(self).keeps_warnings(&*final(self)),
            old(self).index <= final(self).index,
            ({
                let s = old(self).chars@;
                let j = skip_ws_from(s, old(self).index as int);
                let q = backslash_quoted_from(s, j + 2, Seq::empty());
                let t = quoted_from(s, j + 1, Seq::empty());
                &&& r is Ok ==> j < final(self).index
                &&& match char_at(s, j) {
                    None => r matches Err(e) && e.message@
                        == "Unexpected end of input while parsing value"@,
                    Some(c) => if c == '$' {
                        r matches Ok(v) && v is Unset && final(self).index == j + 1
                            && final(self).warnings@ == old(self).warnings@
                    } else if c == '*' {
                        r matches Ok(v) && v is Omitted && final(self).index == j + 1
                            && final(self).warnings@ == old(self).warnings@
                    } else if c == '#' {
                        &&& r is Ok <==> reference_at(s, j) is Some
                        &&& r matches Ok(v) ==> v matches Value::Reference(id) && id
                            == reference_at(s, j).unwrap() && final(self).index == digit_end(
                            s,
                            j + 1,
                        )
                    } else if c == '\\' && char_at(s, j + 1) == Some('\'') {
                        &&& q is None ==> r is Err
                        &&& r matches Ok(v) ==> v matches Value::String(text) && q matches Some(
                            (body, end),
                        ) && text@ == body && final(self).index == end
                        &&& (q is Some && (old(self).format != FileFormat::Sfc || !old(self).strict
                            || string_issue_codes(q.unwrap().0).len() == 0)) ==> r is Ok
                    } else if c == '\'' {
                        &&& t is None ==> r is Err
                        &&& r matches Ok(v) ==> v matches Value::String(text) && t matches Some(
                            (body, end),
                        ) && text@ == body && final(self).index == end
                        &&& (t is Some && (old(self).format != FileFormat::Sfc || !old(self).strict
                            || string_issue_codes(t.unwrap().0).len() == 0)) ==> r is Ok
                    } else if c == '"' {
                        let close = crate::values::find_char(s, '"', j + 1);
                        &&& r is Ok <==> close is Some
                        &&& r matches Ok(v) ==> v matches Value::Binary(text) && text@
                            == s.subrange(j + 1, close.unwrap())
                    } else if c == '(' {
                        r matches Ok(v) ==> v is List
                    } else if c == '.' {
                        let e = keyword_end(s, j + 1);
                        &&& r is Ok <==> (e > j + 1 && e < s.len() && s[e] == '.')
                        &&& r matches Ok(v) ==> v matches Value::Enum(text) && text@ == s.subrange(
                            j + 1,
                            e,
                        ) && final(self).index == e + 1
                    } else if starts_number(c) {
                        &&& r is Ok <==> number_syntax_error(s, j) is None && !(old(self).strict
                            && number_codes(old(self).format, s, j).len() > 0) && number_value(
                            s,
                            j,
                        ) is Some
                        &&& r matches Ok(v) ==> v == number_value(s, j).unwrap()
                            && final(self).index == number_end(s, j)
                    } else if is_keyword_start_spec(c) {
                        let e = keyword_end(s, j);
                        &&& char_at(s, skip_ws_from(s, e)) != Some('(') ==> (r matches Err(err)
                            && err.message@ == "Bare keyword is not allowed in parameter values"@)
                        &&& r matches Ok(v) ==> v matches Value::Typed { keyword, parameters }
                            && keyword@ == s.subrange(j, e)
                    } else {
                        r matches Err(e) && e.message@ == "Unsupported value token"@
                    },
                }
            }),
            ({
                let s = old(self).chars@;
                let g = value_at(old(self).format, old(self).strict, s, skip_ws_from(s, old(self).index as int));
                &&& r is Ok <==> g is Some
                &&& r matches Ok(v) ==> g == Some((value_model(v), final(self).index as int))
            }),
        decreases old(self).chars@.len() - old(self).index, 0int,
    {
        self.skip_ws();
        proof {
            lemma_skip_ws_idem(self.chars@, old(self).index as int);
        }
        let ch = match self.peek_char() {
            Some(c) => c,
            None => {
                return Err(
                    self.error_here(string_from_str("Unexpected end of input while parsing value")),
                );
            },
        };
        if ch == '$' {
            self.advance_char();
            Ok(Value::Unset)
        } else if ch == '*' {
            self.advance_char();
            Ok(Value::Omitted)
        } else if ch == '#' {
            let id = self.parse_reference_id()?;
            Ok(Value::Reference(id))
        } else if ch == '\\' && self.peek_next_char() == Some('\'') {
            let text = self.parse_backslash_quoted_string()?;
            Ok(Value::String(text))
        } else if ch == '\'' {
            let text = self.parse_quoted_string()?;
            Ok(Value::String(text))
        } else if ch == '"' {
            let text = self.parse_binary_literal()?;
            Ok(Value::Binary(text))
        } else if ch == '(' {
            self.consume_char('(')?;
            let values = self.parse_parameter_list_until(')')?;
            self.consume_char(')')?;
            Ok(Value::List(values))
        } else if ch == '.' {
            let text = self.parse_enum_value()?;
            Ok(Value::Enum(text))
        } else if ch == '+' || ch == '-' || is_ascii_digit(ch) {
            self.parse_number_value()
        } else if is_keyword_start(ch) {
            proof {
                lemma_keyword_end(self.chars@, self.index + 1);
            }
            assert(keyword_end(self.chars@, self.index as int) > self.index);
            let keyword = self.parse_keyword()?;
            self.skip_ws();
            if self.try_consume_char('(') {
                let parameters = self.parse_parameter_list_until(')')?;
                self.consume_char(')')?;
                Ok(Value::Typed { keyword, parameters })
            } else {
                Err(self.error_here(string_from_str("Bare keyword is not allowed in parameter values")))
            }
        } else {
            Err(self.error_here(string_from_str("Unsupported value token")))
        }
    }

    /// Comma-separated values up to (not including) `terminator`; nothing
    /// when `terminator` comes first.
    pub fn parse_parameter_list_until(&mut self, terminator: char) -> (r: Result<
        Vec<Value>,
        ParseError,
    >)
        requires
            old(self).wf(),
        ensures
            final(self).wf(),
            old(self).quiet_if_strict(&*final(self)),
            old(self).quiet_for_p21(&*final(self)),
            old(self).same_source(&*final(self)),
            old(self).keeps_warnings(&*final(self)),
            old(self).index <= final(self).index,
            ({
                let s = old(self).chars@;
                let j = skip_ws_from(s, old(self).index as int);
                &&& char_at(s, j) == Some(terminator) ==> (r matches Ok(v) && v@.len() == 0
                    && final(self).index == j && final(self).warnings@ == old(self).warnings@)
                &&& r matches Ok(v) ==> v@.len() > 0 ==> char_at(s, j) != Some(terminator)
                &&& r is Ok ==> final(self).index == skip_ws_from(s, final(self).index as int)
                &&& r matches Ok(v) ==> v@.len() > 0 ==> char_at(s, final(self).index as int)
                    != Some(',')
            }),
            ({
                let g = list_at(old(self).format, old(self).strict, old(self).chars@, old(self).index as int, terminator);
                &&& r is Ok <==> g is Some
                &&& r matches Ok(vs) ==> g == Some((values_model(vs@), final(self).index as int))
            }),
        decreases old(self).chars@.len() - old(self).index, 1int,
    {
        self.skip_ws();
        proof {
            lemma_skip_ws_idem(self.chars@, old(self).index as int);
        }
        let mut parameters: Vec<Value> = Vec::new();
        if self.peek_char() == Some(terminator) {
            return Ok(parameters);
        }
        let ghost fmt = self.format;
        let ghost st = self.strict;
        let ghost s = self.chars@;
        let ghost p0 = self.index as int;
        assert(prefixed(Seq::empty(), items_at(fmt, st, s, p0, terminator)) == items_at(fmt, st, s, p0, terminator)) by {
            match items_at(fmt, st, s, p0, terminator) {
                Some((rest, m)) => {
                    assert(Seq::<ValueModel>::empty() + rest =~= rest);
                },
                None => {},
            }
        }
        loop
            invariant_except_break
                parameters@.len() == 0 ==> self.index == skip_ws_from(
                    old(self).chars@,
                    old(self).index as int,
                ),
                self.index == skip_ws_from(s, self.index as int),
                items_at(fmt, st, s, p0, terminator) == prefixed(
                    values_model(parameters@),
                    items_at(fmt, st, s, self.index as int, terminator),
                ),
            invariant
                s == self.chars@,
                fmt == self.format,
                st == self.strict,
                list_at(fmt, st, s, old(self).index as int, terminator) == items_at(fmt, st, s, p0, terminator),
                self.wf(),
                old(self).same_source(&*self),
                old(self).keeps_warnings(&*self),
                old(self).quiet_if_strict(&*self),
                old(self).quiet_for_p21(&*self),
                old(self).index <= self.index,
                char_at(old(self).chars@, skip_ws_from(old(self).chars@, old(self).index as int))
                    != Some(terminator),
            ensures
                parameters@.len() > 0,
                self.index == skip_ws_from(self.chars@, self.index as int),
                char_at(self.chars@, self.index as int) != Some(','),
                items_at(fmt, st, s, p0, terminator) == Some((values_model(parameters@), self.index as int)),
            decreases self.chars@.len() - self.index,
        {
            proof {
                lemma_skip_ws_idem(self.chars@, self.index as int);
            }
            let ghost cur = self.index as int;
            let ghost pre = values_model(parameters@);
            let value = self.parse_value()?;
            let ghost mv = value_model(value);
            let ghost e = self.index as int;
            proof {
                lemma_values_model_push(parameters@, value);
            }
            parameters.push(value);
            let ghost before = self.index;
            self.skip_ws();
            proof {
                lemma_skip_ws_idem(self.chars@, before as int);
            }
            if !self.try_consume_char(',') {
                proof {
                    assert(items_at(fmt, st, s, cur, terminator) == Some((seq![mv], self.index as int)));
                    assert(pre + seq![mv] =~= pre.push(mv));
                }
                break ;
            }
            let ghost after_comma = self.index;
            self.skip_ws();
            proof {
                lemma_skip_ws_idem(self.chars@, after_comma as int);
                let q = self.index as int;
                assert(items_at(fmt, st, s, cur, terminator) == prefixed(seq![mv], items_at(fmt, st, s, q, terminator)));
                match items_at(fmt, st, s, q, terminator) {
                    Some((rest, m)) => {
                        assert(pre + (seq![mv] + rest) =~= pre.push(mv) + rest);
                    },
                    None => {},
                }
            }
        }
        Ok(parameters)
    }

    /// `KEYWORD(values)`, after any white space.
    pub fn parse_simple_record(&mut self) -> (r: Result<Record, ParseError>)
        requires
            old(self).wf(),
        ensures
            final(self).wf(),
            old(self).same_source(&*final(self)),
            old(self).keeps_warnings(&*final(self)),
            old(self).quiet_if_strict(&*final(self)),
            old(self).quiet_for_p21(&*final(self)),
            old(self).index <= final(self).index,
            ({
                let s = old(self).chars@;
                let j = skip_ws_from(s, old(self).index as int);
                let e = keyword_end(s, j);
                &&& e == j ==> (r matches Err(err) && err.message@ == "Expected keyword"@)
                &&& r is Ok ==> e > j && char_at(s, skip_ws_from(s, e)) == Some('(')
                &&& r matches Ok(rec) ==> rec.keyword@ == s.subrange(j, e)
                &&& r is Ok ==> j < final(self).index && char_at(s, final(self).index - 1) == Some(
                    ')',
                )
            }),
            ({
                let s = old(self).chars@;
                let g = record_at(old(self).format, old(self).strict, s, skip_ws_from(s, old(self).index as int));
                &&& r is Ok <==> g is Some
                &&& r matches Ok(rec) ==> g == Some((record_model(rec), final(self).index as int))
            }),
    {
        self.skip_ws();
        proof {
            lemma_skip_ws_idem(self.chars@, old(self).index as int);
        }
        let keyword = self.parse_keyword()?;
        self.skip_ws();
        self.consume_char('(')?;
        let parameters = self.parse_parameter_list_until(')')?;
        self.consume_char(')')?;
        Ok(Record { keyword, parameters })
    }

    /// `(REC1(..) REC2(..) ...)`: one or more simple records in brackets.
    pub fn parse_complex_record(&mut self) -> (r: Result<Vec<Record>, ParseError>)
        requires
            old(self).wf(),
        ensures
            final(self).wf(),
            old(self).same_source(&*final(self)),
            old(self).keeps_warnings(&*final(self)),
            old(self).quiet_if_strict(&*final(self)),
            old(self).quiet_for_p21(&*final(self)),
            old(self).index <= final(self).index,
            ({
                let s = old(self).chars@;
                let i = old(self).index as int;
                &&& char_at(s, i) != Some('(') ==> r is Err
                &&& char_at(s, i) == Some('(') && char_at(s, skip_ws_from(s, i + 1)) == Some(')')
                    ==> (r matches Err(e) && e.message@
                    == "Complex record must include at least one simple record"@)
                &&& r matches Ok(recs) ==> recs@.len() > 0 && char_at(s, final(self).index - 1)
                    == Some(')') && i < final(self).index
            }),
            ({
                let g = complex_at(old(self).format, old(self).strict, old(self).chars@, old(self).index as int);
                &&& r is Ok <==> g is Some
                &&& r matches Ok(recs) ==> g == Some((records_model(recs@), final(self).index as int))
            }),
    {
        let ghost fmt = self.format;
        let ghost st = self.strict;
        let ghost s = self.chars@;
        self.consume_char('(')?;
        self.skip_ws();
        let ghost p0 = self.index as int;
        proof {
            lemma_skip_ws_idem(s, old(self).index + 1);
            lemma_prefixed_empty(records_to_close(fmt, st, s, p0));
            assert(records_model(Seq::<Record>::empty()) =~= Seq::<RecordModel>::empty());
        }
        let mut records: Vec<Record> = Vec::new();
        while self.peek_char() != Some(')')
            invariant
                s == self.chars@,
                fmt == self.format,
                st == self.strict,
                p0 == skip_ws_from(s, old(self).index + 1),
                self.index == skip_ws_from(s, self.index as int),
                records_to_close(fmt, st, s, p0) == prefixed(
                    records_model(records@),
                    records_to_close(fmt, st, s, self.index as int),
                ),
                self.wf(),
                old(self).same_source(&*self),
                old(self).keeps_warnings(&*self),
                old(self).quiet_if_strict(&*self),
                old(self).quiet_for_p21(&*self),
                old(self).index < self.index,
                records@.len() == 0 ==> self.index == skip_ws_from(
                    old(self).chars@,
                    old(self).index + 1,
                ),
                records@.len() > 0 ==> char_at(
                    old(self).chars@,
                    skip_ws_from(old(self).chars@, old(self).index + 1),
                ) != Some(')'),
            decreases self.chars@.len() - self.index,
        {
            let ghost cur = self.index as int;
            let record = self.parse_simple_record()?;
            proof {
                assert(records_model(records@.push(record)) =~= records_model(records@).push(record_model(record)));
                lemma_skip_ws_idem(s, self.index as int);
            }
            records.push(record);
            self.skip_ws();
            let ghost k = self.index as int;
            let _ = self.try_consume_char(',');
            self.skip_ws();
            proof {
                lemma_skip_ws_idem(s, k + 1);
                lemma_skip_ws_idem(s, k);
                assert(records_to_close(fmt, st, s, cur) == prefixed(
                    seq![record_model(record)],
                    records_to_close(fmt, st, s, self.index as int),
                ));
                lemma_prefixed(
                    records_model(records@.drop_last()),
                    record_model(record),
                    records_to_close(fmt, st, s, self.index as int),
                );
                assert(records@.drop_last() =~= records@.subrange(0, records@.len() - 1));
            }
        }
        self.consume_char(')')?;
        if records.len() == 0 {
            Err(
                self.error_here(
                    string_from_str("Complex record must include at least one simple record"),
                ),
            )
        } else {
            Ok(records)
        }
    }

    /// `#id = record` or `#id = (records)`, then a `;` (required, or taken
    /// when present).
    pub fn parse_entity_instance(
        &mut self,
        semicolon_required: bool,
        sfc_version: Option<SfcVersionTag>,
    ) -> (r: Result<EntityInstance, ParseError>)
        requires
            old(self).wf(),
        ensures
            final(self).wf(),
            old(self).same_source(&*final(self)),
            old(self).keeps_warnings(&*final(self)),
            old(self).quiet_if_strict(&*final(self)),
            old(self).quiet_for_p21(&*final(self)),
            old(self).index <= final(self).index,
            ({
                let s = old(self).chars@;
                let j = skip_ws_from(s, old(self).index as int);
                let after_id = skip_ws_from(s, digit_end(s, j + 1));
                let body_at = skip_ws_from(s, after_id + 1);
                &&& reference_at(s, j) is None ==> r is Err
                &&& r is Ok ==> char_at(s, after_id) == Some('=')
                &&& r matches Ok(ent) ==> ent.id == reference_at(s, j).unwrap()
                    && ent.sfc_version == sfc_version && (ent.body is Complex <==> char_at(
                    s,
                    body_at,
                ) == Some('('))
                &&& r is Ok ==> j < final(self).index
                &&& r is Ok && semicolon_required ==> char_at(s, final(self).index - 1) == Some(
                    ';',
                )
            }),
            ({
                let g = entity_at(
                    old(self).format,
                    old(self).strict,
                    old(self).chars@,
                    old(self).index as int,
                    semicolon_required,
                    sfc_version,
                );
                &&& r is Ok <==> g is Some
                &&& r matches Ok(ent) ==> g == Some((entity_model(ent), final(self).index as int))
            }),
    {
        self.skip_ws();
        proof {
            lemma_skip_ws_idem(self.chars@, old(self).index as int);
        }
        let ghost s = self.chars@;
        let ghost j = self.index as int;
        proof {
            reveal(entity_at);
        }
        let id = self.parse_reference_id()?;
        self.skip_ws();
        let ghost a = self.index as int;
        self.consume_char('=')?;
        self.skip_ws();
        let ghost b = self.index as int;
        proof {
            lemma_skip_ws_idem(s, a + 1);
            assert(reference_at(s, j) == Some(id as int));
        }
        let body = if self.peek_char() == Some('(') {
            EntityBody::Complex(self.parse_complex_record()?)
        } else {
            EntityBody::Simple(self.parse_simple_record()?)
        };
        let ghost e = self.index as int;
        self.skip_ws();
        if semicolon_required {
            self.consume_char(';')?;
        } else {
            let _ = self.try_consume_char(';');
        }
        Ok(EntityInstance { id, body, sfc_version })
    }

    /// `HEADER; record; ... ENDSEC;`
    pub fn parse_header_section(&mut self) -> (r: Result<HeaderSection, ParseError>)
        requires
            old(self).wf(),
        ensures
            final(self).wf(),
            old(self).same_source(&*final(self)),
            old(self).keeps_warnings(&*final(self)),
            old(self).quiet_if_strict(&*final(self)),
            old(self).quiet_for_p21(&*final(self)),
            old(self).index <= final(self).index,
            !keyword_ci_at(old(self).chars@, old(self).index as int, "HEADER"@) ==> r is Err,
            r is Ok ==> char_at(old(self).chars@, final(self).index - 1) == Some(';'),
            ({
                let g = header_at(old(self).format, old(self).strict, old(self).chars@, old(self).index as int);
                &&& r is Ok <==> g is Some
                &&& r matches Ok(h) ==> g == Some((records_model(h.entities@), final(self).index as int))
            }),
    {
        let ghost fmt = self.format;
        let ghost st = self.strict;
        let ghost s = self.chars@;
        self.skip_ws();
        proof {
            lemma_skip_ws_idem(self.chars@, old(self).index as int);
        }
        self.consume_keyword_ci("HEADER")?;
        self.skip_ws();
        self.consume_char(';')?;
        let ghost p0 = self.index as int;
        proof {
            lemma_prefixed_empty(header_records_at(fmt, st, s, p0));
            assert(records_model(Seq::<Record>::empty()) =~= Seq::<RecordModel>::empty());
        }
        let mut entities: Vec<Record> = Vec::new();
        loop
            invariant_except_break
                header_records_at(fmt, st, s, p0) == prefixed(
                    records_model(entities@),
                    header_records_at(fmt, st, s, self.index as int),
                ),
            invariant
                self.wf(),
                old(self).same_source(&*self),
                old(self).keeps_warnings(&*self),
                old(self).quiet_if_strict(&*self),
                old(self).quiet_for_p21(&*self),
                old(self).index <= self.index,
                s == self.chars@,
                fmt == self.format,
                st == self.strict,
                header_at(fmt, st, s, old(self).index as int) == header_records_at(fmt, st, s, p0),
            ensures
                old(self).index <= self.index,
                char_at(old(self).chars@, self.index - 1) == Some(';'),
                header_records_at(fmt, st, s, p0) == Some((records_model(entities@), self.index as int)),
            decreases self.chars@.len() - self.index,
        {
            let ghost cur = self.index as int;
            self.skip_ws();
            proof {
                lemma_skip_ws_idem(s, cur);
            }
            if self.try_consume_keyword_ci("ENDSEC") {
                self.skip_ws();
                self.consume_char(';')?;
                proof {
                    assert(records_model(entities@) + Seq::<RecordModel>::empty() =~= records_model(entities@));
                }
                break ;
            }
            let record = self.parse_simple_record()?;
            self.skip_ws();
            self.consume_char(';')?;
            proof {
                assert(records_model(entities@.push(record)) =~= records_model(entities@).push(record_model(record)));
                assert(header_records_at(fmt, st, s, cur) == prefixed(
                    seq![record_model(record)],
                    header_records_at(fmt, st, s, self.index as int),
                ));
                lemma_prefixed(
                    records_model(entities@),
                    record_model(record),
                    header_records_at(fmt, st, s, self.index as int),
                );
            }
            entities.push(record);
        }
        Ok(HeaderSection { entities })
    }

    /// `DATA; #id = ...; ... ENDSEC;` of a Part 21 file.
    pub fn parse_data_section_p21(&mut self) -> (r: Result<Vec<EntityInstance>, ParseError>)
        requires
            old(self).wf(),
        ensures
            final(self).wf(),
            old(self).same_source(&*final(self)),
            old(self).keeps_warnings(&*final(self)),
            old(self).quiet_if_strict(&*final(self)),
            old(self).quiet_for_p21(&*final(self)),
            old(self).index <= final(self).index,
            !keyword_ci_at(old(self).chars@, old(self).index as int, "DATA"@) ==> r is Err,
            r matches Ok(ents) ==> forall|k: int|
                0 <= k < ents@.len() ==> (#[trigger] ents@[k]).sfc_version is None,
            r matches Ok(ents) ==> ents@.len() <= final(self).index - old(self).index,
            ({
                let g = p21_data_at(old(self).format, old(self).strict, old(self).chars@, old(self).index as int);
                &&& r is Ok <==> g is Some
                &&& r matches Ok(ents) ==> g == Some((entities_model(ents@), final(self).index as int))
            }),
    {
        let ghost fmt = self.format;
        let ghost st = self.strict;
        let ghost s = self.chars@;
        self.skip_ws();
        proof {
            lemma_skip_ws_idem(self.chars@, old(self).index as int);
        }
        self.consume_keyword_ci("DATA")?;
        self.skip_ws();
        self.consume_char(';')?;
        let ghost p0 = self.index as int;
        proof {
            lemma_prefixed_empty(p21_entities_at(fmt, st, s, p0));
            assert(entities_model(Seq::<EntityInstance>::empty()) =~= Seq::<EntityModel>::empty());
        }
        let mut entities: Vec<EntityInstance> = Vec::new();
        loop
            invariant_except_break
                p21_entities_at(fmt, st, s, p0) == prefixed(
                    entities_model(entities@),
                    p21_entities_at(fmt, st, s, self.index as int),
                ),
            invariant
                self.wf(),
                old(self).same_source(&*self),
                old(self).keeps_warnings(&*self),
                old(self).quiet_if_strict(&*self),
                old(self).quiet_for_p21(&*self),
                old(self).index <= self.index,
                forall|k: int| 0 <= k < entities@.len() ==> (#[trigger] entities@[k]).sfc_version is None,
                entities@.len() <= self.index - old(self).index,
                s == self.chars@,
                fmt == self.format,
                st == self.strict,
                p21_data_at(fmt, st, s, old(self).index as int) == p21_entities_at(fmt, st, s, p0),
            ensures
                p21_entities_at(fmt, st, s, p0) == Some((entities_model(entities@), self.index as int)),
            decreases self.chars@.len() - self.index,
        {
            let ghost cur = self.index as int;
            self.skip_ws();
            proof {
                lemma_skip_ws_idem(s, cur);
            }
            if self.try_consume_keyword_ci("ENDSEC") {
                self.skip_ws();
                self.consume_char(';')?;
                proof {
                    assert(entities_model(entities@) + Seq::<EntityModel>::empty() =~= entities_model(entities@));
                }
                break ;
            }
            proof {
                lemma_entity_at_ws(fmt, st, s, cur, true, None);
            }
            let entity = self.parse_entity_instance(true, None)?;
            proof {
                assert(entities_model(entities@.push(entity)) =~= entities_model(entities@).push(entity_model(entity)));
                assert(p21_entities_at(fmt, st, s, cur) == prefixed(
                    seq![entity_model(entity)],
                    p21_entities_at(fmt, st, s, self.index as int),
                ));
                lemma_prefixed(
                    entities_model(entities@),
                    entity_model(entity),
                    p21_entities_at(fmt, st, s, self.index as int),
                );
            }
            entities.push(entity);
        }
        Ok(entities)
    }

    /// `/*SXF`, `/*SXF3` or `/*SXF3.1` after any white space.
    pub fn parse_sfc_prefix(&mut self) -> (r: Result<SfcVersionTag, ParseError>)
        requires
            old(self).wf(),
        ensures
            final(self).wf(),
            old(self).same_source(&*final(self)),
            final(self).warnings@ == old(self).warnings@,
            old(self).index <= final(self).index,
            ({
                let s = old(self).chars@;
                let j = skip_ws_from(s, old(self).index as int);
                &&& r is Ok <==> prefix_tag(s, j) is Some
                &&& r matches Ok(tag) ==> tag == prefix_tag(s, j).unwrap() && final(self).index
                    == j + 2 + tag.spec_marker().len()
                &&& r is Err ==> !matches_ci_at(s, j, "/*SXF"@) && j <= final(self).index
            }),
    {
        self.skip_ws();
        proof {
            lemma_skip_ws_idem(self.chars@, old(self).index as int);
            reveal_strlit("/*SXF");
            reveal_strlit("SXF");
            let s = self.chars@;
            let j = self.index as int;
            if matches_ci_at(s, j, "/*SXF"@) {
                assert(lower_spec(s[j + 0]) == lower_spec('/'));
                assert(lower_spec(s[j + 1]) == lower_spec('*'));
                assert forall|q: int| 0 <= q < 3 implies lower_spec(#[trigger] s[j + 2 + q])
                    == lower_spec("SXF"@[q]) by {
                    assert(lower_spec(s[j + (q + 2)]) == lower_spec("/*SXF"@[q + 2]));
                }
            }
        }
        self.consume_char('/')?;
        self.consume_char('*')?;
        proof {
            reveal_strlit("SXF3.1");
            reveal_strlit("SXF3");
            reveal_strlit("SXF");
        }
        if self.try_consume_literal_ci("SXF3.1") {
            Ok(SfcVersionTag::V31)
        } else if self.try_consume_literal_ci("SXF3") {
            Ok(SfcVersionTag::V3)
        } else if self.try_consume_literal_ci("SXF") {
            Ok(SfcVersionTag::V2)
        } else {
            Err(
                self.error_here(
                    string_from_str("Invalid SFC block prefix. Expected /*SXF, /*SXF3 or /*SXF3.1"),
                ),
            )
        }
    }

    /// The closing marker of a feature block of version `tag`.
    fn suffix_text(tag: SfcVersionTag) -> (s: &'static str)
        ensures
            s@ == suffix_of(tag),
    {
        proof {
            reveal_strlit("SXF*/");
            reveal_strlit("SXF3*/");
            reveal_strlit("SXF3.1*/");
            reveal_strlit("SXF");
            reveal_strlit("SXF3");
            reveal_strlit("SXF3.1");
            reveal_strlit("*/");
        }
        match tag {
            SfcVersionTag::V2 => "SXF*/",
            SfcVersionTag::V3 => "SXF3*/",
            SfcVersionTag::V31 => "SXF3.1*/",
        }
    }

    /// `SXF*/`, `SXF3*/` or `SXF3.1*/`, matching `tag`.
    pub fn parse_sfc_suffix(&mut self, tag: SfcVersionTag) -> (r: Result<(), ParseError>)
        requires
            old(self).wf(),
        ensures
            final(self).wf(),
            old(self).same_source(&*final(self)),
            final(self).warnings@ == old(self).warnings@,
            r is Ok <==> matches_ci_at(old(self).chars@, old(self).index as int, suffix_of(tag)),
            r is Ok ==> final(self).index == old(self).index + suffix_of(tag).len(),
            r is Err ==> final(self).index == old(self).index,
    {
        self.consume_literal_ci(Self::suffix_text(tag))
    }

    /// Moves past the next closing marker of `tag`, or to the end.
    pub fn recover_to_sfc_suffix(&mut self, tag: SfcVersionTag) -> (b: bool)
        requires
            old(self).wf(),
        ensures
            final(self).wf(),
            old(self).same_source(&*final(self)),
            final(self).warnings@ == old(self).warnings@,
            ({
                let m = first_match_ci(old(self).chars@, old(self).index as int, suffix_of(tag));
                &&& b <==> m is Some
                &&& b ==> final(self).index == m.unwrap() + suffix_of(tag).len()
                &&& !b ==> final(self).index == old(self).chars@.len()
            }),
    {
        self.seek_literal_ci(Self::suffix_text(tag))
    }

    /// Moves to the next place where a feature block or `ENDSEC` starts, or to the end.
    pub fn seek_next_sfc_prefix_or_endsec(&mut self) -> (b: bool)
        requires
            old(self).wf(),
        ensures
            final(self).wf(),
            old(self).same_source(&*final(self)),
            final(self).warnings@ == old(self).warnings@,
            ({
                let k = next_block_stop(old(self).chars@, old(self).index as int);
                &&& b <==> k is Some
                &&& b ==> final(self).index == k.unwrap()
                &&& !b ==> final(self).index == old(self).chars@.len()
            }),
    {
        loop
            invariant
                self.wf(),
                old(self).same_source(&*self),
                self.warnings@ == old(self).warnings@,
                old(self).index <= self.index,
                next_block_stop(old(self).chars@, old(self).index as int) == next_block_stop(
                    self.chars@,
                    self.index as int,
                ),
            decreases self.chars@.len() - self.index,
        {
            if self.is_eof() {
                return false;
            }
            let snapshot = self.snapshot();
            if self.try_consume_keyword_ci("ENDSEC") {
                self.restore(snapshot);
                return true;
            }
            self.restore(snapshot);
            let ghost s = self.chars@;
            let ghost k = self.index as int;
            if self.try_consume_literal_ci("/*SXF") || self.try_consume_literal_ci("/*SXF3")
                || self.try_consume_literal_ci("/*SXF3.1") {
                proof {
                    reveal_strlit("/*SXF");
                    reveal_strlit("/*SXF3");
                    reveal_strlit("/*SXF3.1");
                    if matches_ci_at(s, k, "/*SXF3"@) {
                        assert("/*SXF3"@.subrange(0, 5) =~= "/*SXF"@);
                        lemma_match_prefix(s, k, "/*SXF3"@, "/*SXF"@);
                    }
                    if matches_ci_at(s, k, "/*SXF3.1"@) {
                        assert("/*SXF3.1"@.subrange(0, 5) =~= "/*SXF"@);
                        lemma_match_prefix(s, k, "/*SXF3.1"@, "/*SXF"@);
                    }
                }
                self.restore(snapshot);
                return true;
            }
            self.advance_char();
        }
    }

    /// `DATA; /*SXF… #id = record; SXF…*/ ... ENDSEC;` of an SFC file. A
    /// lenient reader skips a malformed block with a warning and goes on.
        pub fn parse_data_section_sfc(&mut self) -> (r: Result<Vec<EntityInstance>, ParseError>)
        requires
            old(self).wf(),
        ensures
            final(self).wf(),
            old(self).same_source(&*final(self)),
            old(self).keeps_warnings(&*final(self)),
            old(self).quiet_if_strict(&*final(self)),
            old(self).index <= final(self).index,
            !keyword_ci_at(old(self).chars@, old(self).index as int, "DATA"@) ==> r is Err,
            r matches Ok(ents) ==> forall|k: int|
                0 <= k < ents@.len() ==> (#[trigger] ents@[k]).sfc_version is Some,
            r matches Ok(ents) ==> old(self).strict ==> forall|k: int|
                0 <= k < ents@.len() ==> (#[trigger] ents@[k]).body is Simple,
            r matches Ok(ents) ==> ents@.len() <= final(self).index - old(self).index,
            ({
                let g = sfc_data_at(old(self).format, old(self).strict, old(self).chars@, old(self).index as int);
                &&& old(self).strict ==> (r is Ok <==> g is Some)
                &&& g matches Some((es, e)) ==> r matches Ok(ents) && entities_model(ents@) == es
                    && final(self).index == e
            }),
            r matches Ok(ents) ==> exists|pos: Seq<int>|
                blocks_read(old(self).format, old(self).strict, old(self).chars@, old(self).index as int, pos, ents@),
    {
        let ghost fmt = self.format;
        let ghost st = self.strict;
        let ghost s = self.chars@;
        self.skip_ws();
        proof {
            lemma_skip_ws_idem(self.chars@, old(self).index as int);
        }
        self.consume_keyword_ci("DATA")?;
        self.skip_ws();
        self.consume_char(';')?;
        let ghost p0 = self.index as int;
        let ghost clean = st || sfc_blocks_at(fmt, st, s, p0) is Some;
        proof {
            lemma_prefixed_empty(sfc_blocks_at(fmt, st, s, p0));
            assert(entities_model(Seq::<EntityInstance>::empty()) =~= Seq::<EntityModel>::empty());
        }
        let mut entities: Vec<EntityInstance> = Vec::new();
        let ghost mut pos: Seq<int> = Seq::empty();
        proof {
            lemma_blocks_read_empty(fmt, st, s, old(self).index as int);
        }
        loop
            invariant_except_break
                clean ==> sfc_blocks_at(fmt, st, s, p0) == prefixed(
                    entities_model(entities@),
                    sfc_blocks_at(fmt, st, s, self.index as int),
                ),
            invariant
                s == self.chars@,
                fmt == self.format,
                st == self.strict,
                clean == (st || sfc_blocks_at(fmt, st, s, p0) is Some),
                blocks_read(fmt, st, s, old(self).index as int, pos, entities@),
                pos.len() > 0 ==> pos.last() < self.index,
                sfc_data_at(fmt, st, s, old(self).index as int) == sfc_blocks_at(fmt, st, s, p0),
                self.wf(),
                old(self).same_source(&*self),
                old(self).keeps_warnings(&*self),
                old(self).quiet_if_strict(&*self),
                old(self).index <= self.index,
                forall|k: int| 0 <= k < entities@.len() ==> (#[trigger] entities@[k]).sfc_version is Some,
                old(self).strict ==> forall|k: int|
                    0 <= k < entities@.len() ==> (#[trigger] entities@[k]).body is Simple,
                entities@.len() <= self.index - old(self).index,
            ensures
                clean ==> sfc_blocks_at(fmt, st, s, p0) == Some((entities_model(entities@), self.index as int)),
            decreases self.chars@.len() - self.index,
        {
            let ghost cur = self.index as int;
            self.skip_ws();
            proof {
                lemma_skip_ws_idem(s, cur);
                lemma_sfc_blocks_step(fmt, st, s, cur);
            }
            if self.try_consume_keyword_ci("ENDSEC") {
                self.skip_ws();
                self.consume_char(';')?;
                proof {
                    assert(entities_model(entities@) + Seq::<EntityModel>::empty() =~= entities_model(entities@));
                }
                break ;
            }
            let ghost j = self.index as int;
            let tag = match self.parse_sfc_prefix() {
                Ok(tag) => tag,
                Err(error) => {
                    if self.strict {
                        return Err(error);
                    }
                    let mut m = string_from_str("Invalid SFC block prefix skipped: ");
                    push_str(&mut m, error.message.as_str());
                    self.push_warning("sfc-block-prefix", m);
                    let ghost f = self.index as int;
                    if self.seek_next_sfc_prefix_or_endsec() {
                        proof {
                            lemma_next_block_stop(s, f);
                            lemma_skip_ws_idem(s, cur);
                        }
                        continue ;
                    }
                    break ;
                },
            };
            let ghost after = self.index as int;
            self.skip_ws();
            proof {
                lemma_skip_ws_idem(s, after);
                lemma_entity_at_ws(fmt, st, s, after, false, Some(tag));
            }
            let ghost ents_before = entities@;
            let ghost mut em = arbitrary::<EntityModel>();
            match self.parse_entity_instance(false, Some(tag)) {
                Ok(entity) => {
                    if let EntityBody::Complex(_) = &entity.body {
                        let mut m = string_from_str("SFC feature block #");
                        push_int(&mut m, entity.id);
                        push_str(&mut m, " must contain one simple feature record");
                        self.issue_or_error("sfc-complex-entity", m)?;
                    }
                    proof {
                        em = entity_model(entity);
                        assert(entities_model(entities@.push(entity)) =~= entities_model(entities@).push(em));
                        lemma_blocks_read_push(fmt, st, s, old(self).index as int, pos, entities@, j, entity);
                        pos = pos.push(j);
                    }
                    entities.push(entity);
                },
                Err(error) => {
                    if self.strict {
                        return Err(error);
                    }
                    let mut m = string_from_str("Failed to parse feature block; skipped: ");
                    push_str(&mut m, error.message.as_str());
                    self.push_warning("sfc-feature-block-skipped", m);
                    let ghost f = self.index as int;
                    if !self.recover_to_sfc_suffix(tag) {
                        break ;
                    }
                    proof {
                        lemma_first_match_ci(s, f, suffix_of(tag));
                        reveal_strlit("*/");
                    }
                    continue ;
                },
            }
            let ghost e = self.index as int;
            self.skip_ws();
            match self.parse_sfc_suffix(tag) {
                Ok(()) => {
                    proof {
                        assert(sfc_blocks_at(fmt, st, s, cur) == prefixed(
                            seq![em],
                            sfc_blocks_at(fmt, st, s, self.index as int),
                        ));
                        lemma_prefixed(
                            entities_model(ents_before),
                            em,
                            sfc_blocks_at(fmt, st, s, self.index as int),
                        );
                    }
                },
                Err(error) => {
                    if self.strict {
                        return Err(error);
                    }
                    let mut m = string_from_str("Invalid SFC block suffix; skipped: ");
                    push_str(&mut m, error.message.as_str());
                    self.push_warning("sfc-block-suffix", m);
                    let ghost f = self.index as int;
                    if !self.recover_to_sfc_suffix(tag) {
                        break ;
                    }
                    proof {
                        lemma_first_match_ci(s, f, suffix_of(tag));
                    }
                },
            }
        }
        proof {
            assert(blocks_read(fmt, st, s, old(self).index as int, pos, entities@));
        }
        Ok(entities)
    }
}

} // verus!
