use vstd::prelude::*;
use vstd::string::StrSliceExecFns;
use vstd::string::StringExecFns;
use crate::errors::LaunchError;
use crate::errors::SpecErr;
use crate::expr::eval_expr;
use crate::expr::sp_eval_expr;
use crate::profile::ParsedExecutable;
use crate::profile::ParsedNode;
use crate::profile::SpecExecRecord;
use crate::profile::SpecNodeRecord;
use crate::profile::execs_view;
use crate::profile::nodes_view;
use crate::strmap::StrMap;
use crate::subst::SpecBlock;
use crate::subst::SpecSubst;
use crate::subst::SubstBlock;
use crate::subst::Substitution;
use crate::subst::blocks_view;
use crate::subst::parse;
use crate::subst::sp_parse;
use crate::util::push_char;
use crate::util::str_eq;
use crate::util::strs_view;

verus! {

/// One lexical frame: variable bindings and an environment overlay.
#[derive(Debug, PartialEq, Eq)]
pub struct Scope {
    pub vars: StrMap,
    pub envs: StrMap,
}

/// Specification-level mirror of `Scope`.
pub struct SpecScope {
    pub vars: Map<Seq<char>, Seq<char>>,
    pub envs: Map<Seq<char>, Seq<char>>,
}

impl View for Scope {
    type V = SpecScope;

    open spec fn view(&self) -> SpecScope {
        SpecScope { vars: self.vars@, envs: self.envs@ }
    }
}

/// View of a scope stack.
pub open spec fn scopes_view(v: Seq<Scope>) -> Seq<SpecScope> {
    Seq::new(v.len(), |i: int| v[i]@)
}

/// View of a work-directory stack.
pub open spec fn wds_view(v: Seq<String>) -> Seq<Seq<char>> {
    Seq::new(v.len(), |i: int| v[i]@)
}

/// Specification-level mirror of `State`.
pub struct SpecState {
    pub work_dirs: Seq<Seq<char>>,
    pub scopes: Seq<SpecScope>,
    pub execs: Seq<SpecExecRecord>,
    pub nodes: Seq<SpecNodeRecord>,
    pub base_env: Map<Seq<char>, Seq<char>>,
    pub packages: Map<Seq<char>, Seq<char>>,
    pub run_id: Seq<char>,
}

/// The interpreter state of one resolution run: the work-directory and scope
/// stacks, the two output accumulators, and the injected collaborators — an
/// environment snapshot, the package registry, and a run identifier that
/// keeps `anon` names apart across runs (collision-free when the caller
/// supplies underscore-free identifiers, as the laws module proves).
#[derive(Debug)]
pub struct State {
    work_dirs: Vec<String>,
    scopes: Vec<Scope>,
    execs: Vec<ParsedExecutable>,
    nodes: Vec<ParsedNode>,
    base_env: StrMap,
    packages: StrMap,
    run_id: String,
}

impl View for State {
    type V = SpecState;

    closed spec fn view(&self) -> SpecState {
        SpecState {
            work_dirs: wds_view(self.work_dirs@),
            scopes: scopes_view(self.scopes@),
            execs: execs_view(self.execs@),
            nodes: nodes_view(self.nodes@),
            base_env: self.base_env@,
            packages: self.packages@,
            run_id: self.run_id@,
        }
    }
}

/// Both stacks are nonempty, as they are throughout interpretation of a
/// document's children.
pub open spec fn sp_state_wf(st: SpecState) -> bool {
    st.scopes.len() > 0 && st.work_dirs.len() > 0
}

/// An empty lexical frame.
pub open spec fn sp_empty_scope() -> SpecScope {
    SpecScope { vars: Map::empty(), envs: Map::empty() }
}

/// Variable lookup walking outward from scope `j - 1` down to the outermost.
pub open spec fn sp_lookup_var_from(scopes: Seq<SpecScope>, j: int, k: Seq<char>) -> Option<
    Seq<char>,
>
    decreases j,
{
    if j <= 0 || j > scopes.len() {
        Option::None
    } else if scopes[j - 1].vars.contains_key(k) {
        Option::Some(scopes[j - 1].vars[k])
    } else {
        sp_lookup_var_from(scopes, j - 1, k)
    }
}

/// Environment-overlay lookup walking outward from scope `j - 1`.
pub open spec fn sp_lookup_env_from(scopes: Seq<SpecScope>, j: int, k: Seq<char>) -> Option<
    Seq<char>,
>
    decreases j,
{
    if j <= 0 || j > scopes.len() {
        Option::None
    } else if scopes[j - 1].envs.contains_key(k) {
        Option::Some(scopes[j - 1].envs[k])
    } else {
        sp_lookup_env_from(scopes, j - 1, k)
    }
}

/// Visible value of a variable: innermost binding wins.
pub open spec fn sp_lookup_var(st: SpecState, k: Seq<char>) -> Option<Seq<char>> {
    sp_lookup_var_from(st.scopes, st.scopes.len() as int, k)
}

/// Visible value of an environment variable: overlays walked outward, then
/// the base environment snapshot.
pub open spec fn sp_lookup_env(st: SpecState, k: Seq<char>) -> Option<Seq<char>> {
    match sp_lookup_env_from(st.scopes, st.scopes.len() as int, k) {
        Option::Some(v) => Option::Some(v),
        Option::None => if st.base_env.contains_key(k) {
            Option::Some(st.base_env[k])
        } else {
            Option::None
        },
    }
}

/// The directory of the document currently being interpreted.
pub open spec fn sp_cwd(st: SpecState) -> Seq<char> {
    if st.work_dirs.len() > 0 {
        st.work_dirs.last()
    } else {
        Seq::empty()
    }
}

/// State after pushing a work directory.
pub open spec fn sp_push_wd(st: SpecState, wd: Seq<char>) -> SpecState {
    SpecState { work_dirs: st.work_dirs.push(wd), ..st }
}

/// State after popping the top work directory.
pub open spec fn sp_pop_wd(st: SpecState) -> SpecState {
    SpecState { work_dirs: st.work_dirs.drop_last(), ..st }
}

/// State after pushing a fresh scope.
pub open spec fn sp_push_scope(st: SpecState) -> SpecState {
    SpecState { scopes: st.scopes.push(sp_empty_scope()), ..st }
}

/// State after popping the innermost scope.
pub open spec fn sp_pop_scope(st: SpecState) -> SpecState {
    SpecState { scopes: st.scopes.drop_last(), ..st }
}

/// State after binding a variable in the innermost scope.
pub open spec fn sp_insert_var(st: SpecState, k: Seq<char>, v: Seq<char>) -> SpecState {
    let n = st.scopes.len() as int - 1;
    SpecState {
        scopes: st.scopes.update(
            n,
            SpecScope { vars: st.scopes[n].vars.insert(k, v), envs: st.scopes[n].envs },
        ),
        ..st
    }
}

/// State after upserting an environment overlay entry in the innermost scope.
pub open spec fn sp_insert_env(st: SpecState, k: Seq<char>, v: Seq<char>) -> SpecState {
    let n = st.scopes.len() as int - 1;
    SpecState {
        scopes: st.scopes.update(
            n,
            SpecScope { vars: st.scopes[n].vars, envs: st.scopes[n].envs.insert(k, v) },
        ),
        ..st
    }
}

/// State after removing an environment overlay entry from the innermost
/// scope; removing an absent entry is a no-op.
pub open spec fn sp_remove_env(st: SpecState, k: Seq<char>) -> SpecState {
    let n = st.scopes.len() as int - 1;
    SpecState {
        scopes: st.scopes.update(
            n,
            SpecScope { vars: st.scopes[n].vars, envs: st.scopes[n].envs.remove(k) },
        ),
        ..st
    }
}

/// State after appending a resolved executable record.
pub open spec fn sp_push_exec(st: SpecState, rec: SpecExecRecord) -> SpecState {
    SpecState { execs: st.execs.push(rec), ..st }
}

/// State after appending a resolved node record.
pub open spec fn sp_push_node(st: SpecState, rec: SpecNodeRecord) -> SpecState {
    SpecState { nodes: st.nodes.push(rec), ..st }
}

/// Run identifiers that keep `anon` names collision-free contain no
/// underscore (the app-side default, a process id, is all digits).
pub open spec fn plain_run_id(s: Seq<char>) -> bool {
    forall|k: int| 0 <= k < s.len() ==> s[k] != '_'
}

/// The generated `anon` name: the name, an underscore, then the run
/// identifier. It is stable for one name within a run; for underscore-free
/// run identifiers, distinct names or distinct runs never collide
/// (`laws::lemma_anon_names_distinct`).
pub open spec fn sp_anon_name(name: Seq<char>, run_id: Seq<char>) -> Seq<char> {
    name + seq!['_'] + run_id
}

/// The value of one substitution call in a given state.
pub open spec fn sp_subst(sub: SpecSubst, st: SpecState) -> Result<Seq<char>, SpecErr> {
    match sub {
        SpecSubst::Env { variable } => match sp_lookup_env(st, variable) {
            Option::Some(v) => Ok(v),
            Option::None => Err(SpecErr::UnsetEnvironmentVariable { name: variable }),
        },
        SpecSubst::OptEnv { variable, default_value } => match sp_lookup_env(st, variable) {
            Option::Some(v) => Ok(v),
            Option::None => match default_value {
                Option::Some(d) => Ok(d),
                Option::None => Err(SpecErr::UnsetEnvironmentVariable { name: variable }),
            },
        },
        SpecSubst::Find { pkg } => if st.packages.contains_key(pkg) {
            Ok(st.packages[pkg])
        } else {
            Err(SpecErr::PackageNotFound { name: pkg })
        },
        SpecSubst::Anon { name } => Ok(sp_anon_name(name, st.run_id)),
        SpecSubst::Arg { name } => match sp_lookup_var(st, name) {
            Option::Some(v) => Ok(v),
            Option::None => Err(SpecErr::UndeclaredVariable { name }),
        },
        SpecSubst::Eval { expr } => match sp_eval_expr(expr) {
            Option::Some(v) => Ok(v),
            Option::None => Err(SpecErr::InvalidExpression { expr }),
        },
        SpecSubst::DirName => Ok(sp_cwd(st)),
        SpecSubst::Other { command, args } => Err(SpecErr::UnknownSubstitutionCommand {
            command,
            args,
        }),
    }
}

/// Left-to-right evaluation of a block sequence; the results concatenate.
pub open spec fn sp_eval_blocks(bs: Seq<SpecBlock>, i: int, st: SpecState) -> Result<
    Seq<char>,
    SpecErr,
>
    decreases bs.len() - i,
{
    if i < 0 || i >= bs.len() {
        Ok(Seq::empty())
    } else {
        match bs[i] {
            SpecBlock::Text(t) => match sp_eval_blocks(bs, i + 1, st) {
                Ok(r) => Ok(t + r),
                Err(e) => Err(e),
            },
            SpecBlock::Substitution(sub) => match sp_subst(sub, st) {
                Err(e) => Err(e),
                Ok(v) => match sp_eval_blocks(bs, i + 1, st) {
                    Ok(r) => Ok(v + r),
                    Err(e) => Err(e),
                },
            },
        }
    }
}

/// Full substitution expansion of an attribute value in a given state.
pub open spec fn sp_eval(text: Seq<char>, st: SpecState) -> Result<Seq<char>, SpecErr> {
    match sp_parse(text) {
        Err(p) => Err(SpecErr::Syntax { at: p }),
        Ok(bs) => sp_eval_blocks(bs, 0, st),
    }
}

/// Boolean reading of an expanded attribute: exactly `true` or `false`.
pub open spec fn sp_eval_bool(text: Seq<char>, st: SpecState) -> Result<bool, SpecErr> {
    match sp_eval(text, st) {
        Err(e) => Err(e),
        Ok(v) => if v == "true"@ {
            Ok(true)
        } else if v == "false"@ {
            Ok(false)
        } else {
            Err(SpecErr::InvalidBooleanLiteral { text: v })
        },
    }
}

/// View of an optional borrowed string.
pub open spec fn optref_view(o: Option<&String>) -> Option<Seq<char>> {
    match o {
        Option::Some(s) => Option::Some(s@),
        Option::None => Option::None,
    }
}

/// Conditional gating: `if` defaults to true, `unless` to false, and the
/// element is visible when `if` holds and `unless` does not.
pub open spec fn sp_eval_if_unless(
    iff: Option<Seq<char>>,
    unless: Option<Seq<char>>,
    st: SpecState,
) -> Result<bool, SpecErr> {
    let ifr = match iff {
        Option::Some(c) => sp_eval_bool(c, st),
        Option::None => Ok(true),
    };
    match ifr {
        Err(e) => Err(e),
        Ok(iv) => {
            let unr = match unless {
                Option::Some(c) => sp_eval_bool(c, st),
                Option::None => Ok(false),
            };
            match unr {
                Err(e) => Err(e),
                Ok(uv) => Ok(iv && !uv),
            }
        },
    }
}

fn clone_strs(v: &Vec<String>) -> (r: Vec<String>)
    ensures
        strs_view(r@) == strs_view(v@),
{
    let mut out: Vec<String> = Vec::new();
    let mut i: usize = 0;
    while i < v.len()
        invariant
            i <= v@.len(),
            out@.len() == i,
            forall|j: int| 0 <= j < i ==> out@[j]@ == v@[j]@,
        decreases v@.len() - i,
    {
        out.push(v[i].clone());
        i = i + 1;
    }
    proof {
        assert(strs_view(out@) =~= strs_view(v@));
    }
    out
}

impl State {
    /// A fresh state around the injected collaborators, with empty stacks
    /// and empty accumulators.
    pub fn new(base_env: StrMap, packages: StrMap, run_id: String) -> (r: State)
        ensures
            r@.work_dirs =~= Seq::<Seq<char>>::empty(),
            r@.scopes =~= Seq::<SpecScope>::empty(),
            r@.execs =~= Seq::<SpecExecRecord>::empty(),
            r@.nodes =~= Seq::<SpecNodeRecord>::empty(),
            r@.base_env == base_env@,
            r@.packages == packages@,
            r@.run_id == run_id@,
    {
        State {
            work_dirs: Vec::new(),
            scopes: Vec::new(),
            execs: Vec::new(),
            nodes: Vec::new(),
            base_env,
            packages,
            run_id,
        }
    }

    /// Surrender the two accumulators at the end of a run.
    pub fn into_accumulators(self) -> (r: (Vec<ParsedExecutable>, Vec<ParsedNode>))
        ensures
            execs_view(r.0@) == self@.execs,
            nodes_view(r.1@) == self@.nodes,
    {
        let State { execs, nodes, .. } = self;
        (execs, nodes)
    }

    /// Push a work directory on document entry.
    pub fn push_wd(&mut self, wd: String)
        ensures
            final(self)@ == sp_push_wd(old(self)@, wd@),
    {
        let ghost pre = self@;
        self.work_dirs.push(wd);
        proof {
            assert(self@.work_dirs =~= pre.work_dirs.push(wd@));
            assert(self@ =~= sp_push_wd(pre, wd@));
        }
    }

    /// Pop the work directory on document exit.
    pub fn pop_wd(&mut self)
        requires
            old(self)@.work_dirs.len() > 0,
        ensures
            final(self)@ == sp_pop_wd(old(self)@),
    {
        let ghost pre = self@;
        let _ = self.work_dirs.pop();
        proof {
            assert(self@.work_dirs =~= pre.work_dirs.drop_last());
            assert(self@ =~= sp_pop_wd(pre));
        }
    }

    /// The directory of the document currently being interpreted.
    pub fn cwd(&self) -> (r: String)
        requires
            self@.work_dirs.len() > 0,
        ensures
            r@ == sp_cwd(self@),
    {
        let i = self.work_dirs.len() - 1;
        self.work_dirs[i].clone()
    }

    /// Push a fresh scope.
    pub fn push_scope(&mut self)
        ensures
            final(self)@ == sp_push_scope(old(self)@),
    {
        let ghost pre = self@;
        self.scopes.push(Scope { vars: StrMap::new(), envs: StrMap::new() });
        proof {
            assert(self@.scopes =~= pre.scopes.push(sp_empty_scope()));
            assert(self@ =~= sp_push_scope(pre));
        }
    }

    /// Pop the innermost scope.
    pub fn pop_scope(&mut self)
        requires
            old(self)@.scopes.len() > 0,
        ensures
            final(self)@ == sp_pop_scope(old(self)@),
    {
        let ghost pre = self@;
        let _ = self.scopes.pop();
        proof {
            assert(self@.scopes =~= pre.scopes.drop_last());
            assert(self@ =~= sp_pop_scope(pre));
        }
    }

    /// A borrow of the innermost scope.
    pub fn current_scope(&self) -> (r: &Scope)
        requires
            self@.scopes.len() > 0,
        ensures
            r@ == self@.scopes.last(),
    {
        let i = self.scopes.len() - 1;
        &self.scopes[i]
    }

    /// Whether a variable is visible in some scope.
    pub fn contains_var(&self, name: &String) -> (r: bool)
        ensures
            r == (sp_lookup_var(self@, name@) is Some),
    {
        self.get_var(name).is_some()
    }

    /// Whether an environment variable is visible, in an overlay or in the
    /// base environment.
    pub fn contains_env(&self, name: &String) -> (r: bool)
        ensures
            r == (sp_lookup_env(self@, name@) is Some),
    {
        self.get_env(name).is_some()
    }

    /// Value of a variable: the innermost binding wins.
    pub fn get_var(&self, name: &String) -> (r: Option<String>)
        ensures
            match r {
                Option::Some(v) => sp_lookup_var(self@, name@) == Option::Some(v@),
                Option::None => sp_lookup_var(self@, name@) is None,
            },
    {
        let ghost sv = self@.scopes;
        let mut j = self.scopes.len();
        while j > 0
            invariant
                j <= self.scopes@.len(),
                sv == scopes_view(self.scopes@),
                sp_lookup_var_from(sv, sv.len() as int, name@) == sp_lookup_var_from(
                    sv,
                    j as int,
                    name@,
                ),
            decreases j,
        {
            j = j - 1;
            match self.scopes[j].vars.get(name) {
                Option::Some(v) => {
                    return Option::Some(v);
                },
                Option::None => (),
            }
        }
        Option::None
    }

    /// Value of an environment variable: overlays walked outward, then the
    /// base environment snapshot.
    pub fn get_env(&self, name: &String) -> (r: Option<String>)
        ensures
            match r {
                Option::Some(v) => sp_lookup_env(self@, name@) == Option::Some(v@),
                Option::None => sp_lookup_env(self@, name@) is None,
            },
    {
        let ghost sv = self@.scopes;
        let mut j = self.scopes.len();
        while j > 0
            invariant
                j <= self.scopes@.len(),
                sv == scopes_view(self.scopes@),
                sp_lookup_env_from(sv, sv.len() as int, name@) == sp_lookup_env_from(
                    sv,
                    j as int,
                    name@,
                ),
            decreases j,
        {
            j = j - 1;
            match self.scopes[j].envs.get(name) {
                Option::Some(v) => {
                    return Option::Some(v);
                },
                Option::None => (),
            }
        }
        self.base_env.get(name)
    }

    /// Bind a variable in the innermost scope, overriding any earlier
    /// binding of the same name there.
    pub fn insert_var(&mut self, name: String, value: String)
        requires
            old(self)@.scopes.len() > 0,
        ensures
            final(self)@ == sp_insert_var(old(self)@, name@, value@),
    {
        let ghost pre = self@;
        if let Option::Some(mut sc) = self.scopes.pop() {
            sc.vars.insert(name, value);
            self.scopes.push(sc);
        }
        proof {
            assert(self@.scopes =~= sp_insert_var(pre, name@, value@).scopes);
            assert(self@ =~= sp_insert_var(pre, name@, value@));
        }
    }

    /// Upsert an environment overlay entry in the innermost scope.
    pub fn insert_env(&mut self, name: String, value: String)
        requires
            old(self)@.scopes.len() > 0,
        ensures
            final(self)@ == sp_insert_env(old(self)@, name@, value@),
    {
        let ghost pre = self@;
        if let Option::Some(mut sc) = self.scopes.pop() {
            sc.envs.insert(name, value);
            self.scopes.push(sc);
        }
        proof {
            assert(self@.scopes =~= sp_insert_env(pre, name@, value@).scopes);
            assert(self@ =~= sp_insert_env(pre, name@, value@));
        }
    }

    /// Remove an environment overlay entry from the innermost scope; absence
    /// is a no-op.
    pub fn remove_env(&mut self, name: &String) -> (r: Option<String>)
        requires
            old(self)@.scopes.len() > 0,
        ensures
            final(self)@ == sp_remove_env(old(self)@, name@),
            match r {
                Option::Some(v) => old(self)@.scopes.last().envs.contains_key(name@) && v@ == old(
                    self,
                )@.scopes.last().envs[name@],
                Option::None => !old(self)@.scopes.last().envs.contains_key(name@),
            },
    {
        let ghost pre = self@;
        let mut r: Option<String> = Option::None;
        if let Option::Some(mut sc) = self.scopes.pop() {
            r = sc.envs.remove(name);
            self.scopes.push(sc);
        }
        proof {
            assert(self@.scopes =~= sp_remove_env(pre, name@).scopes);
            assert(self@ =~= sp_remove_env(pre, name@));
        }
        r
    }

    /// Value of a variable if visible; otherwise bind `default` in the
    /// innermost scope and return it.
    pub fn get_var_or_insert(&mut self, name: &String, default: &String) -> (r: String)
        requires
            old(self)@.scopes.len() > 0,
        ensures
            match sp_lookup_var(old(self)@, name@) {
                Option::Some(v) => r@ == v && final(self)@ == old(self)@,
                Option::None => r@ == default@ && final(self)@ == sp_insert_var(
                    old(self)@,
                    name@,
                    default@,
                ),
            },
    {
        match self.get_var(name) {
            Option::Some(v) => v,
            Option::None => {
                self.insert_var(name.clone(), default.clone());
                default.clone()
            },
        }
    }

    /// Value of an environment variable if visible; otherwise upsert
    /// `default` into the innermost overlay and return it.
    pub fn get_env_or_insert(&mut self, name: &String, default: &String) -> (r: String)
        requires
            old(self)@.scopes.len() > 0,
        ensures
            match sp_lookup_env(old(self)@, name@) {
                Option::Some(v) => r@ == v && final(self)@ == old(self)@,
                Option::None => r@ == default@ && final(self)@ == sp_insert_env(
                    old(self)@,
                    name@,
                    default@,
                ),
            },
    {
        match self.get_env(name) {
            Option::Some(v) => v,
            Option::None => {
                self.insert_env(name.clone(), default.clone());
                default.clone()
            },
        }
    }

    /// Value of a variable if visible; otherwise bind `default`. Same
    /// behavior as `get_var_or_insert`, under its other customary name.
    pub fn get_var_or_default(&mut self, name: &String, default: &String) -> (r: String)
        requires
            old(self)@.scopes.len() > 0,
        ensures
            match sp_lookup_var(old(self)@, name@) {
                Option::Some(v) => r@ == v && final(self)@ == old(self)@,
                Option::None => r@ == default@ && final(self)@ == sp_insert_var(
                    old(self)@,
                    name@,
                    default@,
                ),
            },
    {
        self.get_var_or_insert(name, default)
    }

    /// Value of an environment variable if visible; otherwise upsert
    /// `default`. Same behavior as `get_env_or_insert`.
    pub fn get_env_or_default(&mut self, name: &String, default: &String) -> (r: String)
        requires
            old(self)@.scopes.len() > 0,
        ensures
            match sp_lookup_env(old(self)@, name@) {
                Option::Some(v) => r@ == v && final(self)@ == old(self)@,
                Option::None => r@ == default@ && final(self)@ == sp_insert_env(
                    old(self)@,
                    name@,
                    default@,
                ),
            },
    {
        self.get_env_or_insert(name, default)
    }

    /// Append a resolved executable record.
    pub fn record_exec(&mut self, rec: ParsedExecutable)
        ensures
            final(self)@ == sp_push_exec(old(self)@, rec@),
    {
        let ghost pre = self@;
        let ghost recv = rec@;
        self.execs.push(rec);
        proof {
            assert(self@.execs =~= pre.execs.push(recv));
            assert(self@ =~= sp_push_exec(pre, recv));
        }
    }

    /// Append a resolved node record.
    pub fn record_node(&mut self, rec: ParsedNode)
        ensures
            final(self)@ == sp_push_node(old(self)@, rec@),
    {
        let ghost pre = self@;
        let ghost recv = rec@;
        self.nodes.push(rec);
        proof {
            assert(self@.nodes =~= pre.nodes.push(recv));
            assert(self@ =~= sp_push_node(pre, recv));
        }
    }

    /// Resolve one substitution call against this state.
    pub fn subst(&self, sub: &Substitution) -> (r: Result<String, LaunchError>)
        requires
            sp_state_wf(self@),
        ensures
            match r {
                Result::Ok(v) => sp_subst(sub@, self@) == Ok::<Seq<char>, SpecErr>(v@),
                Result::Err(e) => sp_subst(sub@, self@) == Err::<Seq<char>, SpecErr>(e@),
            },
    {
        match sub {
            Substitution::Env { variable } => match self.get_env(variable) {
                Option::Some(v) => Result::Ok(v),
                Option::None => Result::Err(LaunchError::UnsetEnvironmentVariable {
                    name: variable.clone(),
                }),
            },
            Substitution::OptEnv { variable, default_value } => match self.get_env(variable) {
                Option::Some(v) => Result::Ok(v),
                Option::None => match default_value {
                    Option::Some(d) => Result::Ok(d.clone()),
                    Option::None => Result::Err(LaunchError::UnsetEnvironmentVariable {
                        name: variable.clone(),
                    }),
                },
            },
            Substitution::Find { pkg } => match self.packages.get(pkg) {
                Option::Some(v) => Result::Ok(v),
                Option::None => Result::Err(LaunchError::PackageNotFound { name: pkg.clone() }),
            },
            Substitution::Anon { name } => {
                let mut out = name.clone();
                push_char(&mut out, '_');
                out.append(self.run_id.as_str());
                proof {
                    assert(out@ =~= sp_anon_name(name@, self@.run_id));
                }
                Result::Ok(out)
            },
            Substitution::Arg { name } => match self.get_var(name) {
                Option::Some(v) => Result::Ok(v),
                Option::None => Result::Err(LaunchError::UndeclaredVariable {
                    name: name.clone(),
                }),
            },
            Substitution::Eval { expr } => match eval_expr(expr.as_str()) {
                Option::Some(v) => Result::Ok(v),
                Option::None => Result::Err(LaunchError::InvalidExpression {
                    expr: expr.clone(),
                }),
            },
            Substitution::DirName => Result::Ok(self.cwd()),
            Substitution::Other { command, args } => Result::Err(
                LaunchError::UnknownSubstitutionCommand {
                    command: command.clone(),
                    args: clone_strs(args),
                },
            ),
        }
    }

    /// Expand every substitution in an attribute value against this state.
    pub fn eval(&self, text: &str) -> (r: Result<String, LaunchError>)
        requires
            sp_state_wf(self@),
        ensures
            match r {
                Result::Ok(v) => sp_eval(text@, self@) == Ok::<Seq<char>, SpecErr>(v@),
                Result::Err(e) => sp_eval(text@, self@) == Err::<Seq<char>, SpecErr>(e@),
            },
    {
        let blocks: Vec<SubstBlock> = match parse(text) {
            Result::Ok(bs) => bs,
            Result::Err(e) => {
                return Result::Err(e);
            },
        };
        let ghost bv = blocks_view(blocks@);
        let mut buf = String::new();
        let mut i: usize = 0;
        while i < blocks.len()
            invariant
                i <= blocks@.len(),
                bv == blocks_view(blocks@),
                sp_parse(text@) == Ok::<Seq<SpecBlock>, int>(bv),
                sp_state_wf(self@),
                sp_eval_blocks(bv, 0, self@) == (match sp_eval_blocks(bv, i as int, self@) {
                    Ok(rest) => Ok::<Seq<char>, SpecErr>(buf@ + rest),
                    Err(e) => Err::<Seq<char>, SpecErr>(e),
                }),
            decreases blocks@.len() - i,
        {
            match &blocks[i] {
                SubstBlock::Text(t) => {
                    let ghost pre = buf@;
                    buf.append(t.as_str());
                    proof {
                        let sv = sp_eval_blocks(bv, i as int + 1, self@);
                        if sv is Ok {
                            assert(pre + (t@ + sv->Ok_0) =~= buf@ + sv->Ok_0);
                        }
                    }
                },
                SubstBlock::Substitution(sub) => {
                    match self.subst(sub) {
                        Result::Ok(v) => {
                            let ghost pre = buf@;
                            buf.append(v.as_str());
                            proof {
                                let sv = sp_eval_blocks(bv, i as int + 1, self@);
                                if sv is Ok {
                                    assert(pre + (v@ + sv->Ok_0) =~= buf@ + sv->Ok_0);
                                }
                            }
                        },
                        Result::Err(e) => {
                            return Result::Err(e);
                        },
                    }
                },
            }
            i = i + 1;
        }
        proof {
            assert(buf@ + Seq::<char>::empty() =~= buf@);
        }
        Result::Ok(buf)
    }

    /// Expand an attribute and read it as a boolean literal.
    pub fn eval_bool(&self, text: &str) -> (r: Result<bool, LaunchError>)
        requires
            sp_state_wf(self@),
        ensures
            match r {
                Result::Ok(b) => sp_eval_bool(text@, self@) == Ok::<bool, SpecErr>(b),
                Result::Err(e) => sp_eval_bool(text@, self@) == Err::<bool, SpecErr>(e@),
            },
    {
        match self.eval(text) {
            Result::Err(e) => Result::Err(e),
            Result::Ok(v) => {
                if str_eq(v.as_str(), "true") {
                    Result::Ok(true)
                } else if str_eq(v.as_str(), "false") {
                    Result::Ok(false)
                } else {
                    Result::Err(LaunchError::InvalidBooleanLiteral { text: v })
                }
            },
        }
    }

    /// Evaluate the `if`/`unless` guard pair.
    pub fn eval_if_unless(&self, if_cond: Option<&String>, unless: Option<&String>) -> (r: Result<
        bool,
        LaunchError,
    >)
        requires
            sp_state_wf(self@),
        ensures
            match r {
                Result::Ok(b) => sp_eval_if_unless(optref_view(if_cond), optref_view(unless), self@)
                    == Ok::<bool, SpecErr>(b),
                Result::Err(e) => sp_eval_if_unless(
                    optref_view(if_cond),
                    optref_view(unless),
                    self@,
                ) == Err::<bool, SpecErr>(e@),
            },
    {
        let if_value = match if_cond {
            Option::Some(cond) => match self.eval_bool(cond.as_str()) {
                Result::Ok(b) => b,
                Result::Err(e) => {
                    return Result::Err(e);
                },
            },
            Option::None => true,
        };
        let unless_value = match unless {
            Option::Some(cond) => match self.eval_bool(cond.as_str()) {
                Result::Ok(b) => b,
                Result::Err(e) => {
                    return Result::Err(e);
                },
            },
            Option::None => false,
        };
        Result::Ok(if_value && !unless_value)
    }
}

} // verus!
