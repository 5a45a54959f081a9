use vstd::prelude::*;
use vstd::string::StrSliceExecFns;
use crate::subst::is_ws;
use crate::util::push_char;
use crate::util::str_eq;
use crate::util::strs_view;

verus! {

// ---------------------------------------------------------------------------
// The `eval` expression language.
//
// An expression is a whitespace-separated sequence of operands and binary
// operators, evaluated left to right without precedence. Operands are the
// boolean literals `true` and `false`, signed decimal integers of at most
// eighteen digits, and — for any other token — the token itself as a
// string. The arithmetic operators `+ - *` work on integers and fail on a
// result outside the symmetric 64-bit range; `== != < <= > >=` compare
// integers (`==`/`!=` also booleans and strings) and yield a boolean; `&&`
// and `||` combine booleans. The result is rendered back to text.
// ---------------------------------------------------------------------------

/// A runtime value of the expression language.
#[derive(Debug, Clone, PartialEq, Eq)]
pub enum EvalValue {
    I(i64),
    B(bool),
    S(String),
}

/// Specification-level mirror of `EvalValue`.
pub enum SpecVal {
    I(int),
    B(bool),
    S(Seq<char>),
}

impl View for EvalValue {
    type V = SpecVal;

    open spec fn view(&self) -> SpecVal {
        match self {
            EvalValue::I(v) => SpecVal::I(*v as int),
            EvalValue::B(b) => SpecVal::B(*b),
            EvalValue::S(t) => SpecVal::S(t@),
        }
    }
}

/// The symmetric value range of the expression language.
pub open spec fn in_range(v: int) -> bool {
    -0x7fff_ffff_ffff_ffff <= v <= 0x7fff_ffff_ffff_ffff
}

/// First position at or after `i` holding a whitespace character or the end.
pub open spec fn sp_split_end(s: Seq<char>, i: int) -> int
    decreases s.len() - i,
{
    if i < 0 || i >= s.len() {
        i
    } else if !is_ws(s[i]) {
        sp_split_end(s, i + 1)
    } else {
        i
    }
}

/// The whitespace-separated tokens of the suffix starting at `i`.
pub open spec fn sp_tokens(s: Seq<char>, i: int) -> Seq<Seq<char>>
    decreases s.len() - i,
{
    let j = crate::subst::sp_ws_end(s, i);
    if j >= s.len() || j < i {
        Seq::empty()
    } else {
        let k = sp_split_end(s, j);
        if k <= j || k > s.len() {
            Seq::empty()
        } else {
            seq![s.subrange(j, k)] + sp_tokens(s, k)
        }
    }
}

/// Decimal digit test.
pub open spec fn is_digit(c: char) -> bool {
    c == '0' || c == '1' || c == '2' || c == '3' || c == '4' || c == '5' || c == '6' || c == '7'
        || c == '8' || c == '9'
}

/// Value of a decimal digit.
pub open spec fn sp_digit_val(c: char) -> int {
    if c == '0' {
        0
    } else if c == '1' {
        1
    } else if c == '2' {
        2
    } else if c == '3' {
        3
    } else if c == '4' {
        4
    } else if c == '5' {
        5
    } else if c == '6' {
        6
    } else if c == '7' {
        7
    } else if c == '8' {
        8
    } else {
        9
    }
}

/// Every character of `t` from `start` on is a decimal digit.
pub open spec fn sp_all_digits(t: Seq<char>, start: int) -> bool {
    forall|k: int| start <= k < t.len() ==> is_digit(t[k])
}

/// Value of the decimal digits `t[start..i]`.
pub open spec fn sp_digits_val(t: Seq<char>, start: int, i: int) -> int
    decreases i - start,
{
    if i <= start {
        0
    } else {
        sp_digits_val(t, start, i - 1) * 10 + sp_digit_val(t[i - 1])
    }
}

/// The integer denoted by a token: an optional minus sign followed by one to
/// eighteen decimal digits.
pub open spec fn sp_parse_int(t: Seq<char>) -> Option<int> {
    if t.len() >= 2 && t[0] == '-' {
        if t.len() <= 19 && sp_all_digits(t, 1) {
            Option::Some(-sp_digits_val(t, 1, t.len() as int))
        } else {
            Option::None
        }
    } else if 1 <= t.len() <= 18 && sp_all_digits(t, 0) {
        Option::Some(sp_digits_val(t, 0, t.len() as int))
    } else {
        Option::None
    }
}

/// The value denoted by an operand token.
pub open spec fn sp_operand(t: Seq<char>) -> Option<SpecVal> {
    if t == "true"@ {
        Option::Some(SpecVal::B(true))
    } else if t == "false"@ {
        Option::Some(SpecVal::B(false))
    } else {
        match sp_parse_int(t) {
            Option::Some(v) => Option::Some(SpecVal::I(v)),
            Option::None => Option::Some(SpecVal::S(t)),
        }
    }
}

/// Application of one binary operator.
pub open spec fn sp_apply(a: SpecVal, op: Seq<char>, b: SpecVal) -> Option<SpecVal> {
    if op == "+"@ {
        match (a, b) {
            (SpecVal::I(x), SpecVal::I(y)) => if in_range(x + y) {
                Option::Some(SpecVal::I(x + y))
            } else {
                Option::None
            },
            _ => Option::None,
        }
    } else if op == "-"@ {
        match (a, b) {
            (SpecVal::I(x), SpecVal::I(y)) => if in_range(x - y) {
                Option::Some(SpecVal::I(x - y))
            } else {
                Option::None
            },
            _ => Option::None,
        }
    } else if op == "*"@ {
        match (a, b) {
            (SpecVal::I(x), SpecVal::I(y)) => if in_range(x * y) {
                Option::Some(SpecVal::I(x * y))
            } else {
                Option::None
            },
            _ => Option::None,
        }
    } else if op == "=="@ {
        match (a, b) {
            (SpecVal::I(x), SpecVal::I(y)) => Option::Some(SpecVal::B(x == y)),
            (SpecVal::B(x), SpecVal::B(y)) => Option::Some(SpecVal::B(x == y)),
            (SpecVal::S(x), SpecVal::S(y)) => Option::Some(SpecVal::B(x == y)),
            _ => Option::None,
        }
    } else if op == "!="@ {
        match (a, b) {
            (SpecVal::I(x), SpecVal::I(y)) => Option::Some(SpecVal::B(x != y)),
            (SpecVal::B(x), SpecVal::B(y)) => Option::Some(SpecVal::B(x != y)),
            (SpecVal::S(x), SpecVal::S(y)) => Option::Some(SpecVal::B(x != y)),
            _ => Option::None,
        }
    } else if op == "<"@ {
        match (a, b) {
            (SpecVal::I(x), SpecVal::I(y)) => Option::Some(SpecVal::B(x < y)),
            _ => Option::None,
        }
    } else if op == "<="@ {
        match (a, b) {
            (SpecVal::I(x), SpecVal::I(y)) => Option::Some(SpecVal::B(x <= y)),
            _ => Option::None,
        }
    } else if op == ">"@ {
        match (a, b) {
            (SpecVal::I(x), SpecVal::I(y)) => Option::Some(SpecVal::B(x > y)),
            _ => Option::None,
        }
    } else if op == ">="@ {
        match (a, b) {
            (SpecVal::I(x), SpecVal::I(y)) => Option::Some(SpecVal::B(x >= y)),
            _ => Option::None,
        }
    } else if op == "&&"@ {
        match (a, b) {
            (SpecVal::B(x), SpecVal::B(y)) => Option::Some(SpecVal::B(x && y)),
            _ => Option::None,
        }
    } else if op == "||"@ {
        match (a, b) {
            (SpecVal::B(x), SpecVal::B(y)) => Option::Some(SpecVal::B(x || y)),
            _ => Option::None,
        }
    } else {
        Option::None
    }
}

/// Left-to-right fold of operator/operand pairs over an accumulator.
pub open spec fn sp_fold(toks: Seq<Seq<char>>, i: int, acc: SpecVal) -> Option<SpecVal>
    decreases toks.len() - i,
{
    if i < 0 || i >= toks.len() {
        Option::Some(acc)
    } else if i + 1 >= toks.len() {
        Option::None
    } else {
        match sp_operand(toks[i + 1]) {
            Option::None => Option::None,
            Option::Some(b) => match sp_apply(acc, toks[i], b) {
                Option::None => Option::None,
                Option::Some(acc2) => sp_fold(toks, i + 2, acc2),
            },
        }
    }
}

/// Decimal rendering of a nonnegative integer.
pub open spec fn sp_digit_char(d: int) -> char {
    if d == 0 {
        '0'
    } else if d == 1 {
        '1'
    } else if d == 2 {
        '2'
    } else if d == 3 {
        '3'
    } else if d == 4 {
        '4'
    } else if d == 5 {
        '5'
    } else if d == 6 {
        '6'
    } else if d == 7 {
        '7'
    } else if d == 8 {
        '8'
    } else {
        '9'
    }
}

/// Decimal text of a nonnegative integer.
pub open spec fn sp_nat_text(n: int) -> Seq<char>
    decreases n,
{
    if n < 10 {
        seq![sp_digit_char(n)]
    } else {
        sp_nat_text(n / 10).push(sp_digit_char(n % 10))
    }
}

/// Decimal text of an integer.
pub open spec fn sp_int_text(n: int) -> Seq<char> {
    if n < 0 {
        seq!['-'] + sp_nat_text(-n)
    } else {
        sp_nat_text(n)
    }
}

/// Text form of an expression value.
pub open spec fn sp_val_text(v: SpecVal) -> Seq<char> {
    match v {
        SpecVal::I(n) => sp_int_text(n),
        SpecVal::B(b) => if b {
            "true"@
        } else {
            "false"@
        },
        SpecVal::S(t) => t,
    }
}

/// The result of evaluating a whole expression, if it evaluates.
pub open spec fn sp_eval_expr(e: Seq<char>) -> Option<Seq<char>> {
    let toks = sp_tokens(e, 0);
    if toks.len() == 0 {
        Option::None
    } else {
        match sp_operand(toks[0]) {
            Option::None => Option::None,
            Option::Some(v0) => match sp_fold(toks, 1, v0) {
                Option::None => Option::None,
                Option::Some(v) => Option::Some(sp_val_text(v)),
            },
        }
    }
}

// ---------------------------------------------------------------------------
// Executable evaluator.
// ---------------------------------------------------------------------------

fn ex_split_end(s: &str, i: usize) -> (r: usize)
    requires
        i <= s@.len(),
    ensures
        r == sp_split_end(s@, i as int),
        i <= r <= s@.len(),
        i < s@.len() && !is_ws(s@[i as int]) ==> r >= i + 1,
    decreases s@.len() - i,
{
    let n = s.unicode_len();
    if i >= n {
        i
    } else {
        let c = s.get_char(i);
        if !(c == ' ' || c == '\t' || c == '\n' || c == '\r') {
            ex_split_end(s, i + 1)
        } else {
            i
        }
    }
}

fn ex_ws_end(s: &str, i: usize) -> (r: usize)
    requires
        i <= s@.len(),
    ensures
        r == crate::subst::sp_ws_end(s@, i as int),
        i <= r <= s@.len(),
        r < s@.len() ==> !is_ws(s@[r as int]),
    decreases s@.len() - i,
{
    let n = s.unicode_len();
    if i >= n {
        i
    } else {
        let c = s.get_char(i);
        if c == ' ' || c == '\t' || c == '\n' || c == '\r' {
            ex_ws_end(s, i + 1)
        } else {
            i
        }
    }
}

fn ex_tokens(s: &str, i: usize) -> (r: Vec<String>)
    requires
        i <= s@.len(),
    ensures
        strs_view(r@) == sp_tokens(s@, i as int),
    decreases s@.len() - i,
{
    let n = s.unicode_len();
    let j = ex_ws_end(s, i);
    if j >= n {
        let r = Vec::new();
        proof {
            assert(strs_view(r@) =~= sp_tokens(s@, i as int));
        }
        r
    } else {
        let k = ex_split_end(s, j);
        let tok = s.substring_char(j, k).to_owned();
        let rest = ex_tokens(s, k);
        let mut v = rest;
        v.insert(0, tok);
        proof {
            assert(strs_view(v@) =~= seq![s@.subrange(j as int, k as int)] + strs_view(
                v@.drop_first()));
        }
        v
    }
}

/// Powers of ten, for digit-count bounds.
pub open spec fn pow10(k: int) -> int
    decreases k,
{
    if k <= 0 {
        1
    } else {
        10 * pow10(k - 1)
    }
}

proof fn lemma_pow10_le(a: int, b: int)
    requires
        0 <= a <= b,
    ensures
        0 < pow10(a) <= pow10(b),
    decreases b,
{
    if a < b {
        lemma_pow10_le(a, b - 1);
    } else {
        if a > 0 {
            lemma_pow10_le(a - 1, a - 1);
        }
    }
}

proof fn lemma_digits_bound(t: Seq<char>, start: int, i: int)
    requires
        0 <= start <= i <= t.len(),
    ensures
        0 <= sp_digits_val(t, start, i) < pow10(i - start),
    decreases i - start,
{
    if i > start {
        lemma_digits_bound(t, start, i - 1);
        assert(pow10(i - start) == 10 * pow10(i - 1 - start));
    }
}

fn ex_parse_int(t: &str) -> (r: Option<i64>)
    ensures
        match r {
            Option::Some(v) => sp_parse_int(t@) == Option::Some(v as int),
            Option::None => sp_parse_int(t@) is None,
        },
{
    let n = t.unicode_len();
    let neg = n >= 2 && t.get_char(0) == '-';
    let start: usize = if neg {
        1
    } else {
        0
    };
    if n < start + 1 || n > start + 18 {
        return Option::None;
    }
    let mut acc: u64 = 0;
    let mut i: usize = start;
    while i < n
        invariant
            start <= i <= n,
            n == t@.len(),
            n <= start + 18,
            start == if t@.len() >= 2 && t@[0] == '-' { 1int } else { 0int },
            forall|k: int| start <= k < i ==> is_digit(t@[k]),
            acc == sp_digits_val(t@, start as int, i as int),
            acc < pow10(i - start),
        decreases n - i,
    {
        let c = t.get_char(i);
        let d: u64 = if c == '0' {
            0
        } else if c == '1' {
            1
        } else if c == '2' {
            2
        } else if c == '3' {
            3
        } else if c == '4' {
            4
        } else if c == '5' {
            5
        } else if c == '6' {
            6
        } else if c == '7' {
            7
        } else if c == '8' {
            8
        } else if c == '9' {
            9
        } else {
            proof {
                assert(!sp_all_digits(t@, start as int)) by {
                    assert(start <= i < t@.len() && !is_digit(t@[i as int]));
                }
            }
            return Option::None;
        };
        proof {
            lemma_pow10_le(i - start, 17);
            assert(pow10(17) == 100_000_000_000_000_000) by {
                reveal_with_fuel(pow10, 20);
            }
            assert(pow10(i as int + 1 - start) == 10 * pow10(i - start));
        }
        acc = acc * 10 + d;
        i = i + 1;
    }
    proof {
        lemma_pow10_le(i - start, 18);
        assert(pow10(18) == 1_000_000_000_000_000_000) by {
            reveal_with_fuel(pow10, 20);
        }
        assert(acc < 1_000_000_000_000_000_000);
    }
    if neg {
        let v: i64 = -(acc as i64);
        Option::Some(v)
    } else {
        Option::Some(acc as i64)
    }
}

fn ex_operand(t: &str) -> (r: Option<EvalValue>)
    ensures
        match r {
            Option::Some(v) => sp_operand(t@) == Option::Some(v@),
            Option::None => sp_operand(t@) is None,
        },
{
    if str_eq(t, "true") {
        Option::Some(EvalValue::B(true))
    } else if str_eq(t, "false") {
        Option::Some(EvalValue::B(false))
    } else {
        match ex_parse_int(t) {
            Option::Some(v) => Option::Some(EvalValue::I(v)),
            Option::None => Option::Some(EvalValue::S(t.to_owned())),
        }
    }
}

fn ex_apply(a: EvalValue, op: &str, b: EvalValue) -> (r: Option<EvalValue>)
    ensures
        match r {
            Option::Some(v) => sp_apply(a@, op@, b@) == Option::Some(v@),
            Option::None => sp_apply(a@, op@, b@) is None,
        },
{
    if str_eq(op, "+") {
        match (a, b) {
            (EvalValue::I(x), EvalValue::I(y)) => match x.checked_add(y) {
                Option::Some(z) => if z != i64::MIN {
                    Option::Some(EvalValue::I(z))
                } else {
                    Option::None
                },
                Option::None => Option::None,
            },
            _ => Option::None,
        }
    } else if str_eq(op, "-") {
        match (a, b) {
            (EvalValue::I(x), EvalValue::I(y)) => match x.checked_sub(y) {
                Option::Some(z) => if z != i64::MIN {
                    Option::Some(EvalValue::I(z))
                } else {
                    Option::None
                },
                Option::None => Option::None,
            },
            _ => Option::None,
        }
    } else if str_eq(op, "*") {
        match (a, b) {
            (EvalValue::I(x), EvalValue::I(y)) => match x.checked_mul(y) {
                Option::Some(z) => if z != i64::MIN {
                    Option::Some(EvalValue::I(z))
                } else {
                    Option::None
                },
                Option::None => Option::None,
            },
            _ => Option::None,
        }
    } else if str_eq(op, "==") {
        match (a, b) {
            (EvalValue::I(x), EvalValue::I(y)) => Option::Some(EvalValue::B(x == y)),
            (EvalValue::B(x), EvalValue::B(y)) => Option::Some(EvalValue::B(x == y)),
            (EvalValue::S(x), EvalValue::S(y)) => Option::Some(
                EvalValue::B(str_eq(x.as_str(), y.as_str())),
            ),
            _ => Option::None,
        }
    } else if str_eq(op, "!=") {
        match (a, b) {
            (EvalValue::I(x), EvalValue::I(y)) => Option::Some(EvalValue::B(x != y)),
            (EvalValue::B(x), EvalValue::B(y)) => Option::Some(EvalValue::B(x != y)),
            (EvalValue::S(x), EvalValue::S(y)) => Option::Some(
                EvalValue::B(!str_eq(x.as_str(), y.as_str())),
            ),
            _ => Option::None,
        }
    } else if str_eq(op, "<") {
        match (a, b) {
            (EvalValue::I(x), EvalValue::I(y)) => Option::Some(EvalValue::B(x < y)),
            _ => Option::None,
        }
    } else if str_eq(op, "<=") {
        match (a, b) {
            (EvalValue::I(x), EvalValue::I(y)) => Option::Some(EvalValue::B(x <= y)),
            _ => Option::None,
        }
    } else if str_eq(op, ">") {
        match (a, b) {
            (EvalValue::I(x), EvalValue::I(y)) => Option::Some(EvalValue::B(x > y)),
            _ => Option::None,
        }
    } else if str_eq(op, ">=") {
        match (a, b) {
            (EvalValue::I(x), EvalValue::I(y)) => Option::Some(EvalValue::B(x >= y)),
            _ => Option::None,
        }
    } else if str_eq(op, "&&") {
        match (a, b) {
            (EvalValue::B(x), EvalValue::B(y)) => Option::Some(EvalValue::B(x && y)),
            _ => Option::None,
        }
    } else if str_eq(op, "||") {
        match (a, b) {
            (EvalValue::B(x), EvalValue::B(y)) => Option::Some(EvalValue::B(x || y)),
            _ => Option::None,
        }
    } else {
        Option::None
    }
}

fn ex_nat_text(n: u64) -> (r: String)
    ensures
        r@ == sp_nat_text(n as int),
    decreases n,
{
    let d: u64 = n % 10;
    let c: char = if d == 0 {
        '0'
    } else if d == 1 {
        '1'
    } else if d == 2 {
        '2'
    } else if d == 3 {
        '3'
    } else if d == 4 {
        '4'
    } else if d == 5 {
        '5'
    } else if d == 6 {
        '6'
    } else if d == 7 {
        '7'
    } else if d == 8 {
        '8'
    } else {
        '9'
    };
    if n < 10 {
        let mut out = String::new();
        push_char(&mut out, c);
        proof {
            assert(out@ =~= sp_nat_text(n as int));
        }
        out
    } else {
        let mut out = ex_nat_text(n / 10);
        push_char(&mut out, c);
        proof {
            assert(out@ =~= sp_nat_text(n as int));
        }
        out
    }
}

fn ex_val_text(v: EvalValue) -> (r: String)
    ensures
        r@ == sp_val_text(v@),
{
    match v {
        EvalValue::S(t) => t,
        EvalValue::B(b) => {
            if b {
                "true".to_owned()
            } else {
                "false".to_owned()
            }
        },
        EvalValue::I(n) => {
            if n >= 0 {
                ex_nat_text(n as u64)
            } else {
                let m: u64 = if n == i64::MIN {
                    9_223_372_036_854_775_808u64
                } else {
                    (-n) as u64
                };
                let mut out = String::new();
                push_char(&mut out, '-');
                let digits = ex_nat_text(m);
                out.append(digits.as_str());
                proof {
                    assert(out@ =~= sp_int_text(n as int));
                }
                out
            }
        },
    }
}

/// Evaluate a whole expression to its text form, if it evaluates.
pub fn eval_expr(e: &str) -> (r: Option<String>)
    ensures
        match r {
            Option::Some(s) => sp_eval_expr(e@) == Option::Some(s@),
            Option::None => sp_eval_expr(e@) is None,
        },
{
    let toks = ex_tokens(e, 0);
    if toks.len() == 0 {
        return Option::None;
    }
    proof {
        assert(strs_view(toks@)[0] == toks@[0]@);
    }
    let mut acc = match ex_operand(toks[0].as_str()) {
        Option::Some(v) => v,
        Option::None => {
            return Option::None;
        },
    };
    let ghost sptoks = sp_tokens(e@, 0);
    let ghost v0 = acc@;
    let mut i: usize = 1;
    while i < toks.len()
        invariant
            1 <= i <= toks@.len(),
            sptoks == strs_view(toks@),
            sptoks == sp_tokens(e@, 0),
            sptoks.len() > 0,
            sp_operand(sptoks[0]) == Option::Some(v0),
            sp_fold(sptoks, 1, v0) == sp_fold(sptoks, i as int, acc@),
        decreases toks@.len() - i,
    {
        if i + 1 >= toks.len() {
            return Option::None;
        }
        let b = match ex_operand(toks[i + 1].as_str()) {
            Option::Some(v) => v,
            Option::None => {
                return Option::None;
            },
        };
        let op = &toks[i];
        acc = match ex_apply(acc, op.as_str(), b) {
            Option::Some(v) => v,
            Option::None => {
                return Option::None;
            },
        };
        i = i + 2;
    }
    Option::Some(ex_val_text(acc))
}

} // verus!
