use vstd::prelude::*;
use vstd::string::StrSliceExecFns;
use vstd::string::StringExecFns;
use crate::errors::LaunchError;
use crate::errors::SpecErr;
use crate::util::opt_view;
use crate::util::push_char;
use crate::util::str_eq;
use crate::util::strs_view;

verus! {

// ---------------------------------------------------------------------------
// The substitution language.
//
// An attribute value is a run of literal text interleaved with calls written
// `$(command arg ...)`. A `$` that does not open a call is literal text, and
// `$$` stands for a single literal `$`. Inside a call, tokens are separated
// by whitespace; an argument containing whitespace can be written between
// double quotes. The `eval` command instead consumes everything up to the
// closing parenthesis as one opaque expression. Arity is checked at parse
// time for the well-known commands; any other command is kept as a generic
// call carrying its raw arguments.
// ---------------------------------------------------------------------------

/// One parsed substitution call.
#[derive(Debug, Clone, PartialEq, Eq)]
pub enum Substitution {
    Env { variable: String },
    OptEnv { variable: String, default_value: Option<String> },
    Find { pkg: String },
    Anon { name: String },
    Arg { name: String },
    Eval { expr: String },
    DirName,
    Other { command: String, args: Vec<String> },
}

/// One parsed block: literal text or a substitution call.
#[derive(Debug, Clone, PartialEq, Eq)]
pub enum SubstBlock {
    Text(String),
    Substitution(Substitution),
}

/// Specification-level mirror of `Substitution`.
pub enum SpecSubst {
    Env { variable: Seq<char> },
    OptEnv { variable: Seq<char>, default_value: Option<Seq<char>> },
    Find { pkg: Seq<char> },
    Anon { name: Seq<char> },
    Arg { name: Seq<char> },
    Eval { expr: Seq<char> },
    DirName,
    Other { command: Seq<char>, args: Seq<Seq<char>> },
}

/// Specification-level mirror of `SubstBlock`.
pub enum SpecBlock {
    Text(Seq<char>),
    Substitution(SpecSubst),
}

impl View for Substitution {
    type V = SpecSubst;

    open spec fn view(&self) -> SpecSubst {
        match self {
            Substitution::Env { variable } => SpecSubst::Env { variable: variable@ },
            Substitution::OptEnv { variable, default_value } => SpecSubst::OptEnv {
                variable: variable@,
                default_value: opt_view(*default_value),
            },
            Substitution::Find { pkg } => SpecSubst::Find { pkg: pkg@ },
            Substitution::Anon { name } => SpecSubst::Anon { name: name@ },
            Substitution::Arg { name } => SpecSubst::Arg { name: name@ },
            Substitution::Eval { expr } => SpecSubst::Eval { expr: expr@ },
            Substitution::DirName => SpecSubst::DirName,
            Substitution::Other { command, args } => SpecSubst::Other {
                command: command@,
                args: strs_view(args@),
            },
        }
    }
}

impl View for SubstBlock {
    type V = SpecBlock;

    open spec fn view(&self) -> SpecBlock {
        match self {
            SubstBlock::Text(t) => SpecBlock::Text(t@),
            SubstBlock::Substitution(sub) => SpecBlock::Substitution(sub@),
        }
    }
}

/// View of a sequence of blocks.
pub open spec fn blocks_view(v: Seq<SubstBlock>) -> Seq<SpecBlock> {
    Seq::new(v.len(), |i: int| v[i]@)
}

/// Whitespace characters separating call tokens.
pub open spec fn is_ws(c: char) -> bool {
    c == ' ' || c == '\t' || c == '\n' || c == '\r'
}

/// Characters allowed in an unquoted call token.
pub open spec fn is_bare(c: char) -> bool {
    !is_ws(c) && c != ')' && c != '"'
}

/// First position at or after `i` holding a non-whitespace character.
pub open spec fn sp_ws_end(s: Seq<char>, i: int) -> int
    decreases s.len() - i,
{
    if i < 0 || i >= s.len() {
        i
    } else if is_ws(s[i]) {
        sp_ws_end(s, i + 1)
    } else {
        i
    }
}

/// First position at or after `i` holding a non-token character.
pub open spec fn sp_tok_end(s: Seq<char>, i: int) -> int
    decreases s.len() - i,
{
    if i < 0 || i >= s.len() {
        i
    } else if is_bare(s[i]) {
        sp_tok_end(s, i + 1)
    } else {
        i
    }
}

/// Position of the first `c` at or after `i`, or `-1` if there is none.
pub open spec fn sp_find(s: Seq<char>, i: int, c: char) -> int
    decreases s.len() - i,
{
    if i < 0 || i >= s.len() {
        -1
    } else if s[i] == c {
        i
    } else {
        sp_find(s, i + 1, c)
    }
}

/// End of the literal-text run starting at `i`: the input's end or the next
/// call opener `$(`.
pub open spec fn sp_text_end(s: Seq<char>, i: int) -> int
    decreases s.len() - i,
{
    if i < 0 || i >= s.len() {
        i
    } else if s[i] == '$' {
        if i + 1 < s.len() && s[i + 1] == '(' {
            i
        } else if i + 1 < s.len() && s[i + 1] == '$' {
            sp_text_end(s, i + 2)
        } else {
            sp_text_end(s, i + 1)
        }
    } else {
        sp_text_end(s, i + 1)
    }
}

/// The literal text of the run starting at `i`, with `$$` unescaped to `$`.
pub open spec fn sp_text_val(s: Seq<char>, i: int) -> Seq<char>
    decreases s.len() - i,
{
    if i < 0 || i >= s.len() {
        Seq::empty()
    } else if s[i] == '$' {
        if i + 1 < s.len() && s[i + 1] == '(' {
            Seq::empty()
        } else if i + 1 < s.len() && s[i + 1] == '$' {
            seq!['$'] + sp_text_val(s, i + 2)
        } else {
            seq!['$'] + sp_text_val(s, i + 1)
        }
    } else {
        seq![s[i]] + sp_text_val(s, i + 1)
    }
}

/// The argument tokens of a call, starting at `i`, up to and including the
/// closing parenthesis. `Ok` carries the tokens and the position just past
/// the parenthesis; `Err` carries the offending position.
pub open spec fn sp_args(s: Seq<char>, i: int) -> Result<(Seq<Seq<char>>, int), int>
    decreases s.len() - i,
{
    let j = sp_ws_end(s, i);
    if j >= s.len() {
        Err(j)
    } else if s[j] == ')' {
        Ok((Seq::empty(), j + 1))
    } else if s[j] == '"' {
        let q = sp_find(s, j + 1, '"');
        if q < 0 {
            Err(j)
        } else if q + 1 <= i || q + 1 > s.len() {
            Err(j)
        } else {
            match sp_args(s, q + 1) {
                Ok((rest, e)) => Ok((seq![s.subrange(j + 1, q)] + rest, e)),
                Err(p) => Err(p),
            }
        }
    } else {
        let t = sp_tok_end(s, j);
        if t <= i || t > s.len() {
            Err(j)
        } else {
            match sp_args(s, t) {
                Ok((rest, e)) => Ok((seq![s.subrange(j, t)] + rest, e)),
                Err(p) => Err(p),
            }
        }
    }
}

/// Arity-checked interpretation of a parsed call. `at` is the position
/// reported when the argument count does not fit the command.
pub open spec fn sp_dispatch(cmd: Seq<char>, args: Seq<Seq<char>>, at: int) -> Result<
    SpecSubst,
    int,
> {
    if cmd == "env"@ {
        if args.len() == 1 {
            Ok(SpecSubst::Env { variable: args[0] })
        } else {
            Err(at)
        }
    } else if cmd == "optenv"@ {
        if args.len() == 1 {
            Ok(SpecSubst::OptEnv { variable: args[0], default_value: Option::None })
        } else if args.len() == 2 {
            Ok(SpecSubst::OptEnv { variable: args[0], default_value: Option::Some(args[1]) })
        } else {
            Err(at)
        }
    } else if cmd == "find"@ {
        if args.len() == 1 {
            Ok(SpecSubst::Find { pkg: args[0] })
        } else {
            Err(at)
        }
    } else if cmd == "anon"@ {
        if args.len() == 1 {
            Ok(SpecSubst::Anon { name: args[0] })
        } else {
            Err(at)
        }
    } else if cmd == "arg"@ {
        if args.len() == 1 {
            Ok(SpecSubst::Arg { name: args[0] })
        } else {
            Err(at)
        }
    } else if cmd == "dirname"@ {
        if args.len() == 0 {
            Ok(SpecSubst::DirName)
        } else {
            Err(at)
        }
    } else {
        Ok(SpecSubst::Other { command: cmd, args })
    }
}

/// A full call body starting at `i` (just past the `$(` opener): command
/// token, arguments, closing parenthesis.
pub open spec fn sp_call(s: Seq<char>, i: int) -> Result<(SpecSubst, int), int> {
    let j = sp_ws_end(s, i);
    let k = sp_tok_end(s, j);
    if k <= j {
        Err(j)
    } else {
        let cmd = s.subrange(j, k);
        if cmd == "eval"@ {
            let m = sp_ws_end(s, k);
            let q = sp_find(s, m, ')');
            if q < 0 {
                Err(m)
            } else {
                Ok((SpecSubst::Eval { expr: s.subrange(m, q) }, q + 1))
            }
        } else {
            match sp_args(s, k) {
                Err(p) => Err(p),
                Ok((args, e)) => match sp_dispatch(cmd, args, j) {
                    Err(p) => Err(p),
                    Ok(sub) => Ok((sub, e)),
                },
            }
        }
    }
}

/// The block sequence of the input suffix starting at `i`.
pub open spec fn sp_blocks(s: Seq<char>, i: int) -> Result<Seq<SpecBlock>, int>
    decreases s.len() - i,
{
    if i < 0 || i >= s.len() {
        Ok(Seq::empty())
    } else if s[i] == '$' && i + 1 < s.len() && s[i + 1] == '(' {
        match sp_call(s, i + 2) {
            Err(p) => Err(p),
            Ok((sub, j)) => {
                if j <= i || j > s.len() {
                    Err(i)
                } else {
                    match sp_blocks(s, j) {
                        Err(p) => Err(p),
                        Ok(rest) => Ok(seq![SpecBlock::Substitution(sub)] + rest),
                    }
                }
            },
        }
    } else {
        let j = sp_text_end(s, i);
        if j <= i || j > s.len() {
            Err(i)
        } else {
            match sp_blocks(s, j) {
                Err(p) => Err(p),
                Ok(rest) => Ok(seq![SpecBlock::Text(sp_text_val(s, i))] + rest),
            }
        }
    }
}

/// The parse of a whole attribute value: its block sequence, or the position
/// where the grammar is violated.
pub open spec fn sp_parse(s: Seq<char>) -> Result<Seq<SpecBlock>, int> {
    sp_blocks(s, 0)
}

// ---------------------------------------------------------------------------
// Executable parser, each function pinned to its specification twin.
// ---------------------------------------------------------------------------

fn ex_ws_end(s: &str, i: usize) -> (r: usize)
    requires
        i <= s@.len(),
    ensures
        r == sp_ws_end(s@, i as int),
        i <= r <= s@.len(),
        r < s@.len() ==> !is_ws(s@[r as int]),
    decreases s@.len() - i,
{
    let n = s.unicode_len();
    if i >= n {
        i
    } else {
        let c = s.get_char(i);
        if c == ' ' || c == '\t' || c == '\n' || c == '\r' {
            ex_ws_end(s, i + 1)
        } else {
            i
        }
    }
}

fn ex_tok_end(s: &str, i: usize) -> (r: usize)
    requires
        i <= s@.len(),
    ensures
        r == sp_tok_end(s@, i as int),
        i <= r <= s@.len(),
        i < s@.len() && is_bare(s@[i as int]) ==> r >= i + 1,
    decreases s@.len() - i,
{
    let n = s.unicode_len();
    if i >= n {
        i
    } else {
        let c = s.get_char(i);
        if !(c == ' ' || c == '\t' || c == '\n' || c == '\r') && c != ')' && c != '"' {
            ex_tok_end(s, i + 1)
        } else {
            i
        }
    }
}

fn ex_find(s: &str, i: usize, c: char) -> (r: Option<usize>)
    requires
        i <= s@.len(),
    ensures
        match r {
            Option::Some(q) => q == sp_find(s@, i as int, c) && i <= q < s@.len(),
            Option::None => sp_find(s@, i as int, c) == -1,
        },
    decreases s@.len() - i,
{
    let n = s.unicode_len();
    if i >= n {
        Option::None
    } else if s.get_char(i) == c {
        Option::Some(i)
    } else {
        ex_find(s, i + 1, c)
    }
}

fn ex_text(s: &str, i: usize) -> (r: (String, usize))
    requires
        i <= s@.len(),
    ensures
        r.1 == sp_text_end(s@, i as int),
        r.0@ == sp_text_val(s@, i as int),
        i <= r.1 <= s@.len(),
        i < s@.len() && !(s@[i as int] == '$' && i + 1 < s@.len() && s@[i as int + 1] == '(')
            ==> r.1 >= i + 1,
    decreases s@.len() - i,
{
    let n = s.unicode_len();
    if i >= n {
        (String::new(), i)
    } else {
        let c = s.get_char(i);
        if c == '$' {
            if i + 1 < n && s.get_char(i + 1) == '(' {
                (String::new(), i)
            } else if i + 1 < n && s.get_char(i + 1) == '$' {
                let (rest, j) = ex_text(s, i + 2);
                let mut out = String::new();
                push_char(&mut out, '$');
                out.append(rest.as_str());
                (out, j)
            } else {
                let (rest, j) = ex_text(s, i + 1);
                let mut out = String::new();
                push_char(&mut out, '$');
                out.append(rest.as_str());
                (out, j)
            }
        } else {
            let (rest, j) = ex_text(s, i + 1);
            let mut out = String::new();
            push_char(&mut out, c);
            out.append(rest.as_str());
            (out, j)
        }
    }
}

fn ex_args(s: &str, i: usize) -> (r: Result<(Vec<String>, usize), usize>)
    requires
        i <= s@.len(),
    ensures
        match r {
            Result::Ok((args, e)) => sp_args(s@, i as int) matches Ok(sp) && strs_view(args@)
                == sp.0 && e == sp.1 && i < e <= s@.len(),
            Result::Err(p) => sp_args(s@, i as int) matches Err(sp) && p == sp,
        },
    decreases s@.len() - i,
{
    let n = s.unicode_len();
    let j = ex_ws_end(s, i);
    if j >= n {
        return Result::Err(j);
    }
    let c = s.get_char(j);
    if c == ')' {
        Result::Ok((Vec::new(), j + 1))
    } else if c == '"' {
        match ex_find(s, j + 1, '"') {
            Option::None => Result::Err(j),
            Option::Some(q) => {
                let tok = s.substring_char(j + 1, q).to_owned();
                match ex_args(s, q + 1) {
                    Result::Err(p) => Result::Err(p),
                    Result::Ok((rest, e)) => {
                        let mut args = rest;
                        args.insert(0, tok);
                        proof {
                            assert(strs_view(args@) =~= seq![s@.subrange(j + 1, q as int)]
                                + strs_view(args@.drop_first()));
                        }
                        Result::Ok((args, e))
                    },
                }
            },
        }
    } else {
        let t = ex_tok_end(s, j);
        let tok = s.substring_char(j, t).to_owned();
        match ex_args(s, t) {
            Result::Err(p) => Result::Err(p),
            Result::Ok((rest, e)) => {
                let mut args = rest;
                args.insert(0, tok);
                proof {
                    assert(strs_view(args@) =~= seq![s@.subrange(j as int, t as int)]
                        + strs_view(args@.drop_first()));
                }
                Result::Ok((args, e))
            },
        }
    }
}

fn ex_dispatch(cmd: String, args: Vec<String>, at: usize) -> (r: Result<Substitution, usize>)
    ensures
        match r {
            Result::Ok(sub) => sp_dispatch(cmd@, strs_view(args@), at as int) matches Ok(sp)
                && sub@ == sp,
            Result::Err(p) => sp_dispatch(cmd@, strs_view(args@), at as int) matches Err(sp)
                && p == sp,
        },
{
    let mut args = args;
    if str_eq(cmd.as_str(), "env") {
        if args.len() == 1 {
            let variable = args.remove(0);
            Result::Ok(Substitution::Env { variable })
        } else {
            Result::Err(at)
        }
    } else if str_eq(cmd.as_str(), "optenv") {
        if args.len() == 1 {
            let variable = args.remove(0);
            Result::Ok(Substitution::OptEnv { variable, default_value: Option::None })
        } else if args.len() == 2 {
            let variable = args.remove(0);
            let default = args.remove(0);
            Result::Ok(Substitution::OptEnv {
                variable,
                default_value: Option::Some(default),
            })
        } else {
            Result::Err(at)
        }
    } else if str_eq(cmd.as_str(), "find") {
        if args.len() == 1 {
            let pkg = args.remove(0);
            Result::Ok(Substitution::Find { pkg })
        } else {
            Result::Err(at)
        }
    } else if str_eq(cmd.as_str(), "anon") {
        if args.len() == 1 {
            let name = args.remove(0);
            Result::Ok(Substitution::Anon { name })
        } else {
            Result::Err(at)
        }
    } else if str_eq(cmd.as_str(), "arg") {
        if args.len() == 1 {
            let name = args.remove(0);
            Result::Ok(Substitution::Arg { name })
        } else {
            Result::Err(at)
        }
    } else if str_eq(cmd.as_str(), "dirname") {
        if args.len() == 0 {
            Result::Ok(Substitution::DirName)
        } else {
            Result::Err(at)
        }
    } else {
        Result::Ok(Substitution::Other { command: cmd, args })
    }
}

fn ex_call(s: &str, i: usize) -> (r: Result<(Substitution, usize), usize>)
    requires
        i <= s@.len(),
    ensures
        match r {
            Result::Ok((sub, e)) => sp_call(s@, i as int) matches Ok(sp) && sub@ == sp.0 && e
                == sp.1 && i < e <= s@.len(),
            Result::Err(p) => sp_call(s@, i as int) matches Err(sp) && p == sp,
        },
{
    let n = s.unicode_len();
    let j = ex_ws_end(s, i);
    let k = ex_tok_end(s, j);
    if k <= j {
        return Result::Err(j);
    }
    let cmd = s.substring_char(j, k).to_owned();
    if str_eq(cmd.as_str(), "eval") {
        let m = ex_ws_end(s, k);
        match ex_find(s, m, ')') {
            Option::None => Result::Err(m),
            Option::Some(q) => {
                let expr = s.substring_char(m, q).to_owned();
                Result::Ok((Substitution::Eval { expr }, q + 1))
            },
        }
    } else {
        match ex_args(s, k) {
            Result::Err(p) => Result::Err(p),
            Result::Ok((args, e)) => match ex_dispatch(cmd, args, j) {
                Result::Err(p) => Result::Err(p),
                Result::Ok(sub) => Result::Ok((sub, e)),
            },
        }
    }
}

fn ex_blocks(s: &str, i: usize) -> (r: Result<Vec<SubstBlock>, usize>)
    requires
        i <= s@.len(),
    ensures
        match r {
            Result::Ok(v) => sp_blocks(s@, i as int) matches Ok(sp) && blocks_view(v@) == sp,
            Result::Err(p) => sp_blocks(s@, i as int) matches Err(sp) && p == sp,
        },
    decreases s@.len() - i,
{
    let n = s.unicode_len();
    if i >= n {
        return Result::Ok(Vec::new());
    }
    let c = s.get_char(i);
    if c == '$' && i + 1 < n && s.get_char(i + 1) == '(' {
        match ex_call(s, i + 2) {
            Result::Err(p) => Result::Err(p),
            Result::Ok((sub, j)) => match ex_blocks(s, j) {
                Result::Err(p) => Result::Err(p),
                Result::Ok(rest) => {
                    let mut v = rest;
                    v.insert(0, SubstBlock::Substitution(sub));
                    proof {
                        assert(blocks_view(v@) =~= seq![v@[0]@] + blocks_view(v@.drop_first()));
                    }
                    Result::Ok(v)
                },
            },
        }
    } else {
        let (t, j) = ex_text(s, i);
        match ex_blocks(s, j) {
            Result::Err(p) => Result::Err(p),
            Result::Ok(rest) => {
                let mut v = rest;
                v.insert(0, SubstBlock::Text(t));
                proof {
                    assert(blocks_view(v@) =~= seq![v@[0]@] + blocks_view(v@.drop_first()));
                }
                Result::Ok(v)
            },
        }
    }
}

/// Parse an attribute value into its block sequence.
///
/// The result is a function of the input text alone: identical input yields
/// an identical block sequence, or an identical error position.
pub fn parse(input: &str) -> (r: Result<Vec<SubstBlock>, LaunchError>)
    ensures
        match r {
            Result::Ok(v) => sp_parse(input@) matches Ok(sp) && blocks_view(v@) == sp,
            Result::Err(e) => sp_parse(input@) matches Err(p) && e@ == SpecErr::Syntax { at: p },
        },
{
    match ex_blocks(input, 0) {
        Result::Ok(v) => Result::Ok(v),
        Result::Err(p) => Result::Err(LaunchError::Syntax { at: p }),
    }
}

} // verus!
