//! Coercion of a single text token into a typed value.

use vstd::prelude::*;
use crate::param::{IntKind, ValueKind};
use crate::text::same_text;

verus! {

/// A value bound to a command parameter.
#[derive(Clone, Debug, PartialEq)]
pub enum ArgValue {
    /// A value of a signed integer type.
    Int(i128),
    /// A value of an unsigned integer type.
    UInt(u128),
    /// The text of a token that reads as a floating-point number.
    Float(String),
    Bool(bool),
    Text(String),
}

/// The mathematical content of an [`ArgValue`].
pub enum ArgModel {
    Int(int),
    Float(Seq<char>),
    Bool(bool),
    Text(Seq<char>),
}

impl ArgValue {
    pub open spec fn model(&self) -> ArgModel {
        match self {
            ArgValue::Int(v) => ArgModel::Int(*v as int),
            ArgValue::UInt(v) => ArgModel::Int(*v as int),
            ArgValue::Float(s) => ArgModel::Float(s@),
            ArgValue::Bool(b) => ArgModel::Bool(*b),
            ArgValue::Text(s) => ArgModel::Text(s@),
        }
    }
}

pub open spec fn is_digit(c: char) -> bool {
    '0' <= c && c <= '9'
}

pub open spec fn all_digits(s: Seq<char>) -> bool {
    forall|i: int| 0 <= i < s.len() ==> is_digit(#[trigger] s[i])
}

pub open spec fn digit_value(c: char) -> int {
    (c as u32) as int - ('0' as u32) as int
}

/// The number that a string of decimal digits denotes.
pub open spec fn digits_value(s: Seq<char>) -> int
    decreases s.len(),
{
    if s.len() == 0 {
        0
    } else {
        digits_value(s.drop_last()) * 10 + digit_value(s.last())
    }
}

/// Decimal integer text: an optional `+` (or `-` where the type is signed)
/// followed by one or more digits.
pub open spec fn int_text_value(s: Seq<char>, signed: bool) -> Option<int> {
    let negative = s.len() > 0 && s[0] == '-' && signed;
    let start: int = if s.len() > 0 && (s[0] == '+' || negative) { 1 } else { 0 };
    let body = s.subrange(start, s.len() as int);
    if body.len() > 0 && all_digits(body) {
        Some(if negative { -digits_value(body) } else { digits_value(body) })
    } else {
        None
    }
}

/// An integer token of the given type: well-formed text within the type's range.
pub open spec fn int_token(s: Seq<char>, k: IntKind) -> Option<int> {
    match int_text_value(s, k.is_signed()) {
        Some(v) => if k.min_value() <= v <= k.max_value() { Some(v) } else { None },
        None => None,
    }
}

pub open spec fn is_exp_mark(c: char) -> bool {
    c == 'e' || c == 'E'
}

pub open spec fn is_sign(c: char) -> bool {
    c == '+' || c == '-'
}

/// `Digit+ | Digit+ '.' Digit* | Digit* '.' Digit+`
pub open spec fn mantissa_text(m: Seq<char>) -> bool {
    (m.len() > 0 && all_digits(m)) || (m.len() > 1 && exists|d: int|
        0 <= d < m.len() && m[d] == '.' && all_digits(#[trigger] m.subrange(0, d))
            && all_digits(m.subrange(d + 1, m.len() as int)))
}

/// `Sign? Digit+`
pub open spec fn exponent_text(x: Seq<char>) -> bool {
    let start: int = if x.len() > 0 && is_sign(x[0]) { 1 } else { 0 };
    x.len() > start && all_digits(x.subrange(start, x.len() as int))
}

/// A mantissa with an optional exponent part `('e' | 'E') Sign? Digit+`.
pub open spec fn number_text(b: Seq<char>) -> bool {
    mantissa_text(b) || exists|k: int|
        0 <= k < b.len() && is_exp_mark(b[k]) && mantissa_text(#[trigger] b.subrange(0, k))
            && exponent_text(b.subrange(k + 1, b.len() as int))
}

/// `c` is `w`, or its upper-case ASCII counterpart.
pub open spec fn same_letter(c: char, w: char) -> bool {
    c == w || ('A' <= c && c <= 'Z' && (c as u32) + 32 == (w as u32))
}

/// `b` reads `w` with ASCII letters compared regardless of case
/// (`w` written in lower case).
pub open spec fn caseless_eq(b: Seq<char>, w: Seq<char>) -> bool {
    b.len() == w.len() && forall|i: int| 0 <= i < b.len() ==> same_letter(b[i], w[i])
}

/// `inf`, `infinity` or `nan`, in any letter case.
pub open spec fn special_float_text(b: Seq<char>) -> bool {
    caseless_eq(b, "inf"@) || caseless_eq(b, "infinity"@) || caseless_eq(b, "nan"@)
}

/// Floating-point text: an optional sign, then a number or one of the
/// special values.
pub open spec fn float_text(s: Seq<char>) -> bool {
    let start: int = if s.len() > 0 && is_sign(s[0]) { 1 } else { 0 };
    let body = s.subrange(start, s.len() as int);
    special_float_text(body) || number_text(body)
}

/// Boolean text: exactly `true` or `false`.
pub open spec fn bool_text(s: Seq<char>) -> Option<bool> {
    if s == "true"@ {
        Some(true)
    } else if s == "false"@ {
        Some(false)
    } else {
        None
    }
}

/// The value a token denotes for a parameter read as `k`, if it is valid.
pub open spec fn coerce(k: ValueKind, s: Seq<char>) -> Option<ArgModel> {
    match k {
        ValueKind::Int(ik) => match int_token(s, ik) {
            Some(v) => Some(ArgModel::Int(v)),
            None => None,
        },
        ValueKind::Float => if float_text(s) { Some(ArgModel::Float(s)) } else { None },
        ValueKind::Bool => match bool_text(s) {
            Some(b) => Some(ArgModel::Bool(b)),
            None => None,
        },
        ValueKind::Text => Some(ArgModel::Text(s)),
    }
}

/// A value read for integer type `k` is `Int` for a signed type and `UInt`
/// for an unsigned one.
pub open spec fn int_variant_matches(r: Option<ArgValue>, k: IntKind) -> bool {
    match r {
        Some(ArgValue::Int(_)) => k.is_signed(),
        Some(ArgValue::UInt(_)) => !k.is_signed(),
        Some(_) => false,
        None => true,
    }
}

pub open spec fn opt_model(v: Option<ArgValue>) -> Option<ArgModel> {
    match v {
        Some(a) => Some(a.model()),
        None => None,
    }
}

/// The characters of a string, one per element.
pub fn chars_of(s: &str) -> (r: Vec<char>)
    ensures
        r@ == s@,
{
    let n = s.unicode_len();
    let mut out: Vec<char> = Vec::new();
    let mut i: usize = 0;
    while i < n
        invariant
            n == s@.len(),
            0 <= i <= n,
            out@ == s@.subrange(0, i as int),
        decreases n - i,
    {
        out.push(s.get_char(i));
        i = i + 1;
    }
    proof {
        assert(out@ =~= s@);
    }
    out
}


/// A copy of `v[lo..hi]`.
fn copy_range(v: &Vec<char>, lo: usize, hi: usize) -> (r: Vec<char>)
    requires
        lo <= hi <= v@.len(),
    ensures
        r@ == v@.subrange(lo as int, hi as int),
{
    let mut out: Vec<char> = Vec::new();
    let mut i: usize = lo;
    while i < hi
        invariant
            lo <= i <= hi <= v@.len(),
            out@ == v@.subrange(lo as int, i as int),
        decreases hi - i,
    {
        out.push(v[i]);
        i = i + 1;
    }
    out
}

fn char_is_digit(c: char) -> (r: bool)
    ensures
        r == is_digit(c),
{
    '0' <= c && c <= '9'
}

fn digits_only(v: &Vec<char>) -> (r: bool)
    ensures
        r == all_digits(v@),
{
    let mut i: usize = 0;
    while i < v.len()
        invariant
            0 <= i <= v@.len(),
            forall|j: int| 0 <= j < i ==> is_digit(#[trigger] v@[j]),
        decreases v@.len() - i,
    {
        if !char_is_digit(v[i]) {
            return false;
        }
        i = i + 1;
    }
    true
}

proof fn lemma_digits_nonneg(s: Seq<char>)
    requires
        all_digits(s),
    ensures
        digits_value(s) >= 0,
    decreases s.len(),
{
    if s.len() > 0 {
        assert(is_digit(s[s.len() - 1]));
        lemma_digits_nonneg(s.drop_last());
    }
}

/// A prefix of a digit string never denotes more than the whole string.
proof fn lemma_digits_prefix(s: Seq<char>, k: int)
    requires
        all_digits(s),
        0 <= k <= s.len(),
    ensures
        digits_value(s.subrange(0, k)) <= digits_value(s),
    decreases s.len(),
{
    if k == s.len() {
        assert(s.subrange(0, k) =~= s);
    } else {
        let t = s.drop_last();
        assert(all_digits(t)) by {
            assert forall|j: int| 0 <= j < t.len() implies is_digit(#[trigger] t[j]) by {
                assert(t[j] == s[j]);
            }
        }
        lemma_digits_prefix(t, k);
        assert(t.subrange(0, k) =~= s.subrange(0, k));
        lemma_digits_nonneg(t);
        assert(is_digit(s[s.len() - 1]));
    }
}

proof fn lemma_digits_step(s: Seq<char>, lo: int, i: int)
    requires
        0 <= lo <= i < s.len(),
    ensures
        digits_value(s.subrange(lo, i + 1)) == digits_value(s.subrange(lo, i)) * 10
            + digit_value(s[i]),
{
    assert(s.subrange(lo, i + 1).drop_last() =~= s.subrange(lo, i));
}

impl IntKind {
    /// Whether the type is signed.
    pub fn signed(self) -> (r: bool)
        ensures
            r == self.is_signed(),
    {
        match self {
            IntKind::I8 | IntKind::I16 | IntKind::I32 | IntKind::I64 | IntKind::I128
            | IntKind::Isize => true,
            _ => false,
        }
    }

    /// The largest magnitude of a value of the type with the given sign.
    fn magnitude_limit(self, negative: bool) -> (r: u128)
        requires
            negative ==> self.is_signed(),
        ensures
            r as int == if negative { -self.min_value() } else { self.max_value() },
            r >= 127,
    {
        if negative {
            match self {
                IntKind::I8 => 128,
                IntKind::I16 => 32768,
                IntKind::I32 => 2147483648,
                IntKind::I64 => 9223372036854775808,
                IntKind::I128 => (i128::MAX as u128) + 1,
                _ => ((isize::MAX as i128) + 1) as u128,
            }
        } else {
            match self {
                IntKind::I8 => i8::MAX as u128,
                IntKind::I16 => i16::MAX as u128,
                IntKind::I32 => i32::MAX as u128,
                IntKind::I64 => i64::MAX as u128,
                IntKind::I128 => i128::MAX as u128,
                IntKind::Isize => isize::MAX as u128,
                IntKind::U8 => u8::MAX as u128,
                IntKind::U16 => u16::MAX as u128,
                IntKind::U32 => u32::MAX as u128,
                IntKind::U64 => u64::MAX as u128,
                IntKind::U128 => u128::MAX,
                IntKind::Usize => usize::MAX as u128,
            }
        }
    }
}

/// Reads an integer token of type `k`.
pub fn parse_int_token(t: &Vec<char>, k: IntKind) -> (r: Option<ArgValue>)
    ensures
        int_variant_matches(r, k),
        opt_model(r) == match int_token(t@, k) {
            Some(v) => Some(ArgModel::Int(v)),
            None => None::<ArgModel>,
        },
{
    let n = t.len();
    let signed = k.signed();
    let negative = n > 0 && t[0] == '-' && signed;
    let start: usize = if n > 0 && (t[0] == '+' || negative) { 1 } else { 0 };
    let ghost body = t@.subrange(start as int, n as int);
    if start >= n {
        return None;
    }
    let limit = k.magnitude_limit(negative);
    let mut mag: u128 = 0;
    let mut i: usize = start;
    while i < n
        invariant
            start <= i <= n == t@.len(),
            body == t@.subrange(start as int, n as int),
            negative == (t@.len() > 0 && t@[0] == '-' && k.is_signed()),
            start == (if t@.len() > 0 && (t@[0] == '+' || negative) { 1usize } else { 0usize }),
            signed == k.is_signed(),
            limit as int == if negative { -k.min_value() } else { k.max_value() },
            all_digits(t@.subrange(start as int, i as int)),
            mag as int == digits_value(t@.subrange(start as int, i as int)),
            mag <= limit,
            limit >= 127,
        decreases n - i,
    {
        let c = t[i];
        if !char_is_digit(c) {
            proof {
                assert(body[i - start] == c);
                assert(!all_digits(body));
                assert(int_text_value(t@, k.is_signed()) is None);
            }
            return None;
        }
        let d: u128 = ((c as u32) - ('0' as u32)) as u128;
        proof {
            lemma_digits_step(t@, start as int, i as int);
        }
        if mag > (limit - d) / 10 {
            proof {
                assert(mag * 10 + d > limit) by (nonlinear_arith)
                    requires
                        mag > (limit - d) / 10,
                        d <= 9,
                        limit >= 127,
                ;
                let pre = t@.subrange(start as int, i as int + 1);
                if all_digits(body) {
                    assert(body.subrange(0, i - start + 1) =~= pre);
                    lemma_digits_prefix(body, i - start + 1);
                    assert(digits_value(body) > limit);
                    assert(int_text_value(t@, k.is_signed()) == Some(
                        if negative { -digits_value(body) } else { digits_value(body) },
                    ));
                }
            }
            return None;
        }
        proof {
            assert(mag * 10 + d <= limit) by (nonlinear_arith)
                requires
                    mag <= (limit - d) / 10,
                    d <= 9,
                    limit >= 127,
            ;
            let pre = t@.subrange(start as int, i as int + 1);
            assert forall|j: int| 0 <= j < pre.len() implies is_digit(#[trigger] pre[j]) by {
                if j < i - start {
                    assert(pre[j] == t@.subrange(start as int, i as int)[j]);
                }
            }
        }
        mag = mag * 10 + d;
        i = i + 1;
    }
    proof {
        assert(t@.subrange(start as int, n as int) == body);
    }
    if signed {
        let v: i128 = if negative {
            if mag == (i128::MAX as u128) + 1 {
                i128::MIN
            } else {
                -(mag as i128)
            }
        } else {
            mag as i128
        };
        Some(ArgValue::Int(v))
    } else {
        Some(ArgValue::UInt(mag))
    }
}


/// A mantissa holds only digits and a dot, so no exponent mark.
proof fn lemma_mantissa_no_mark(m: Seq<char>, j: int)
    requires
        mantissa_text(m),
        0 <= j < m.len(),
    ensures
        !is_exp_mark(m[j]),
{
    if m.len() > 0 && all_digits(m) {
        assert(is_digit(m[j]));
    } else {
        let d = choose|d: int|
            0 <= d < m.len() && m[d] == '.' && all_digits(#[trigger] m.subrange(0, d))
                && all_digits(m.subrange(d + 1, m.len() as int));
        if j < d {
            assert(is_digit(m.subrange(0, d)[j]));
        } else if j > d {
            assert(is_digit(m.subrange(d + 1, m.len() as int)[j - d - 1]));
        }
    }
}

fn is_mantissa(m: &Vec<char>) -> (r: bool)
    ensures
        r == mantissa_text(m@),
{
    let n = m.len();
    let mut d: usize = 0;
    while d < n && m[d] != '.'
        invariant
            0 <= d <= n == m@.len(),
            forall|j: int| 0 <= j < d ==> m@[j] != '.',
        decreases n - d,
    {
        d = d + 1;
    }
    if d == n {
        let r = n > 0 && digits_only(m);
        proof {
            if !r {
                assert forall|e: int| 0 <= e < m@.len() && m@[e] == '.' implies !all_digits(
                    #[trigger] m@.subrange(0, e),
                ) by {
                    assert(false);
                }
            }
        }
        r
    } else {
        let pre = copy_range(m, 0, d);
        let post = copy_range(m, d + 1, n);
        let r = n > 1 && digits_only(&pre) && digits_only(&post);
        proof {
            assert(!all_digits(m@)) by {
                assert(!is_digit(m@[d as int]));
            }
            if !r && n > 1 {
                assert forall|e: int|
                    0 <= e < m@.len() && m@[e] == '.' && all_digits(
                        #[trigger] m@.subrange(0, e),
                    ) implies !all_digits(m@.subrange(e + 1, m@.len() as int)) by {
                    if e > d {
                        assert(is_digit(m@.subrange(0, e)[d as int]));
                    }
                    assert(e == d);
                }
            }
        }
        r
    }
}

fn is_exponent(x: &Vec<char>) -> (r: bool)
    ensures
        r == exponent_text(x@),
{
    let n = x.len();
    let start: usize = if n > 0 && (x[0] == '+' || x[0] == '-') { 1 } else { 0 };
    if n <= start {
        return false;
    }
    let rest = copy_range(x, start, n);
    digits_only(&rest)
}

fn is_number(b: &Vec<char>) -> (r: bool)
    ensures
        r == number_text(b@),
{
    let n = b.len();
    let mut k: usize = 0;
    while k < n && b[k] != 'e' && b[k] != 'E'
        invariant
            0 <= k <= n == b@.len(),
            forall|j: int| 0 <= j < k ==> !is_exp_mark(b@[j]),
        decreases n - k,
    {
        k = k + 1;
    }
    if k == n {
        is_mantissa(b)
    } else {
        proof {
            if mantissa_text(b@) {
                lemma_mantissa_no_mark(b@, k as int);
            }
        }
        let pre = copy_range(b, 0, k);
        let post = copy_range(b, k + 1, n);
        let r = is_mantissa(&pre) && is_exponent(&post);
        proof {
            if !r {
                assert forall|e: int|
                    0 <= e < b@.len() && is_exp_mark(b@[e]) && mantissa_text(
                        #[trigger] b@.subrange(0, e),
                    ) implies !exponent_text(b@.subrange(e + 1, b@.len() as int)) by {
                    if e > k {
                        lemma_mantissa_no_mark(b@.subrange(0, e), k as int);
                    }
                    assert(e == k);
                }
            }
        }
        r
    }
}

fn letter_matches(c: char, w: char) -> (r: bool)
    ensures
        r == same_letter(c, w),
{
    c == w || ('A' <= c && c <= 'Z' && (c as u32) + 32 == (w as u32))
}

/// Whether `v` reads `word` with ASCII letters compared regardless of case.
fn caseless_equals(v: &Vec<char>, word: &str) -> (r: bool)
    ensures
        r == caseless_eq(v@, word@),
{
    let n = word.unicode_len();
    if v.len() != n {
        return false;
    }
    let mut i: usize = 0;
    while i < n
        invariant
            0 <= i <= n == v@.len() == word@.len(),
            forall|j: int| 0 <= j < i ==> same_letter(v@[j], word@[j]),
        decreases n - i,
    {
        if !letter_matches(v[i], word.get_char(i)) {
            return false;
        }
        i = i + 1;
    }
    true
}

/// Whether a token reads as a floating-point number.
pub fn is_float_token(t: &Vec<char>) -> (r: bool)
    ensures
        r == float_text(t@),
{
    let n = t.len();
    let start: usize = if n > 0 && (t[0] == '+' || t[0] == '-') { 1 } else { 0 };
    let body = copy_range(t, start, n);
    caseless_equals(&body, "inf") || caseless_equals(&body, "infinity") || caseless_equals(
        &body,
        "nan",
    ) || is_number(&body)
}

/// Reads a boolean token.
pub fn parse_bool_token(t: &str) -> (r: Option<bool>)
    ensures
        r == bool_text(t@),
{
    if same_text(t, "true") {
        Some(true)
    } else if same_text(t, "false") {
        Some(false)
    } else {
        None
    }
}

/// Coerces a token to a value of the given kind; `None` where the token is
/// not valid for it.
pub fn coerce_token(kind: ValueKind, token: &str) -> (r: Option<ArgValue>)
    ensures
        opt_model(r) == coerce(kind, token@),
        kind matches ValueKind::Int(ik) ==> int_variant_matches(r, ik),
{
    match kind {
        ValueKind::Int(ik) => {
            let chars = chars_of(token);
            parse_int_token(&chars, ik)
        },
        ValueKind::Float => {
            let chars = chars_of(token);
            if is_float_token(&chars) {
                Some(ArgValue::Float(token.to_owned()))
            } else {
                None
            }
        },
        ValueKind::Bool => match parse_bool_token(token) {
            Some(b) => Some(ArgValue::Bool(b)),
            None => None,
        },
        ValueKind::Text => Some(ArgValue::Text(token.to_owned())),
    }
}

} // verus!
