use vstd::prelude::*;
use vstd::string::StrSliceExecFns;
use vstd::string::StringExecFns;
use crate::errors::LaunchError;
use crate::errors::SpecErr;
use crate::profile::LaunchProfile;
use crate::profile::ParsedExecutable;
use crate::profile::ParsedNode;
use crate::profile::SpecExecRecord;
use crate::profile::SpecNodeRecord;
use crate::profile::SpecParam;
use crate::profile::SpecRemap;
use crate::profile::params_view;
use crate::profile::remaps_view;
use crate::schema::Env;
use crate::schema::Executable;
use crate::schema::Group;
use crate::schema::GroupChild;
use crate::schema::Include;
use crate::schema::IncludeArg;
use crate::schema::Launch;
use crate::schema::LaunchArg;
use crate::schema::LaunchChild;
use crate::schema::Let;
use crate::schema::Node;
use crate::schema::NodeChild;
use crate::schema::SetEnv;
use crate::schema::UnsetEnv;
use crate::state::SpecState;
use crate::state::State;
use crate::state::sp_cwd;
use crate::state::sp_eval;
use crate::state::sp_eval_if_unless;
use crate::state::sp_insert_env;
use crate::state::sp_insert_var;
use crate::state::sp_lookup_var;
use crate::state::sp_pop_scope;
use crate::state::sp_pop_wd;
use crate::state::sp_push_exec;
use crate::state::sp_push_node;
use crate::state::sp_push_scope;
use crate::state::sp_push_wd;
use crate::state::sp_remove_env;
use crate::state::sp_state_wf;
use crate::strmap::StrMap;
use crate::util::opt_view;
use crate::util::push_char;
use crate::util::pairs_view;
use crate::util::str_eq;

verus! {

// ---------------------------------------------------------------------------
// The document set: pre-loaded documents by path.
// ---------------------------------------------------------------------------

/// The documents available to a resolution run, keyed by path. An
/// `Include` whose expanded path is not here fails with
/// `DocumentNotLoaded`, so a caller doing file access can load the file
/// and retry.
#[derive(Debug)]
pub struct DocumentSet {
    entries: Vec<(String, Launch)>,
}

/// The keys of a document sequence are pairwise distinct.
pub open spec fn doc_unique_keys(s: Seq<(String, Launch)>) -> bool {
    forall|i: int, j: int| 0 <= i < j < s.len() ==> s[i].0@ != s[j].0@
}

/// The map described by a document sequence.
pub open spec fn doc_map(s: Seq<(String, Launch)>) -> Map<Seq<char>, Launch>
    decreases s.len(),
{
    if s.len() == 0 {
        Map::empty()
    } else {
        doc_map(s.drop_last()).insert(s.last().0@, s.last().1)
    }
}

proof fn lemma_doc_absent(s: Seq<(String, Launch)>, k: Seq<char>)
    requires
        forall|i: int| 0 <= i < s.len() ==> s[i].0@ != k,
    ensures
        !doc_map(s).contains_key(k),
    decreases s.len(),
{
    if s.len() > 0 {
        lemma_doc_absent(s.drop_last(), k);
    }
}

proof fn lemma_doc_index(s: Seq<(String, Launch)>, i: int)
    requires
        doc_unique_keys(s),
        0 <= i < s.len(),
    ensures
        doc_map(s).contains_key(s[i].0@),
        doc_map(s)[s[i].0@] == s[i].1,
    decreases s.len(),
{
    if i < s.len() - 1 {
        lemma_doc_index(s.drop_last(), i);
    }
}

impl DocumentSet {
    #[verifier::type_invariant]
    closed spec fn inv(self) -> bool {
        doc_unique_keys(self.entries@)
    }

    /// An empty set.
    pub fn new() -> (r: DocumentSet)
        ensures
            r@ == Map::<Seq<char>, Launch>::empty(),
    {
        DocumentSet { entries: Vec::new() }
    }

    /// Add a document under a path not yet present.
    pub fn insert(&mut self, path: String, doc: Launch)
        requires
            !old(self)@.contains_key(path@),
        ensures
            final(self)@ == old(self)@.insert(path@, doc),
    {
        proof {
            use_type_invariant(&*self);
            assert forall|j: int|
                0 <= j < self.entries@.len() implies self.entries@[j].0@ != path@ by {
                if self.entries@[j].0@ == path@ {
                    lemma_doc_index(self.entries@, j);
                }
            }
        }
        let ghost pre = self.entries@;
        let mut entries: Vec<(String, Launch)> = Vec::new();
        core::mem::swap(&mut entries, &mut self.entries);
        entries.push((path, doc));
        proof {
            assert(doc_unique_keys(entries@));
        }
        core::mem::swap(&mut entries, &mut self.entries);
        proof {
            assert(self.entries@.drop_last() =~= pre);
        }
    }

    /// The document stored under a path.
    pub fn get(&self, path: &String) -> (r: Option<&Launch>)
        ensures
            match r {
                Option::Some(d) => self@.contains_key(path@) && *d == self@[path@],
                Option::None => !self@.contains_key(path@),
            },
    {
        proof {
            use_type_invariant(self);
        }
        let mut i: usize = 0;
        while i < self.entries.len()
            invariant
                i <= self.entries@.len(),
                doc_unique_keys(self.entries@),
                forall|j: int| 0 <= j < i ==> self.entries@[j].0@ != path@,
            decreases self.entries@.len() - i,
        {
            if self.entries[i].0 == *path {
                proof {
                    lemma_doc_index(self.entries@, i as int);
                }
                return Option::Some(&self.entries[i].1);
            }
            i = i + 1;
        }
        proof {
            lemma_doc_absent(self.entries@, path@);
        }
        Option::None
    }

    /// Whether a path is present.
    pub fn contains(&self, path: &String) -> (r: bool)
        ensures
            r == self@.contains_key(path@),
    {
        self.get(path).is_some()
    }
}

impl View for DocumentSet {
    type V = Map<Seq<char>, Launch>;

    closed spec fn view(&self) -> Map<Seq<char>, Launch> {
        doc_map(self.entries@)
    }
}

// ---------------------------------------------------------------------------
// Path arithmetic on plain strings.
// ---------------------------------------------------------------------------

/// Whether `s` ends with `suffix`.
pub open spec fn sp_ends_with(s: Seq<char>, suffix: Seq<char>) -> bool {
    s.len() >= suffix.len() && s.subrange(s.len() - suffix.len(), s.len() as int) == suffix
}

/// Index of the last `/` strictly before `i`, or `-1`.
pub open spec fn sp_last_slash(p: Seq<char>, i: int) -> int
    decreases i,
{
    if i <= 0 || i > p.len() {
        -1
    } else if p[i - 1] == '/' {
        i - 1
    } else {
        sp_last_slash(p, i - 1)
    }
}

/// The directory of a path: the prefix before the last `/`, `/` for a root
/// entry, or `.` for a bare file name.
pub open spec fn sp_dirname(p: Seq<char>) -> Seq<char> {
    let k = sp_last_slash(p, p.len() as int);
    if k < 0 {
        seq!['.']
    } else if k == 0 {
        seq!['/']
    } else {
        p.subrange(0, k)
    }
}

/// Resolve `f` against the directory `wd`: an absolute `f` stands alone.
pub open spec fn sp_join(wd: Seq<char>, f: Seq<char>) -> Seq<char> {
    if f.len() > 0 && f[0] == '/' {
        f
    } else {
        wd + seq!['/'] + f
    }
}

fn ex_ends_with(s: &str, suffix: &str) -> (r: bool)
    ensures
        r == sp_ends_with(s@, suffix@),
{
    let n = s.unicode_len();
    let m = suffix.unicode_len();
    if n < m {
        return false;
    }
    let tail = s.substring_char(n - m, n);
    str_eq(tail, suffix)
}

fn ex_dirname(p: &str) -> (r: String)
    ensures
        r@ == sp_dirname(p@),
{
    let n = p.unicode_len();
    let mut i: usize = n;
    while i > 0
        invariant
            i <= n,
            n == p@.len(),
            sp_last_slash(p@, n as int) == sp_last_slash(p@, i as int),
        decreases i,
    {
        if p.get_char(i - 1) == '/' {
            if i - 1 == 0 {
                proof {
                    reveal_strlit("/");
                    assert("/"@ =~= seq!['/']);
                }
                return "/".to_owned();
            }
            return p.substring_char(0, i - 1).to_owned();
        }
        i = i - 1;
    }
    proof {
        reveal_strlit(".");
        assert("."@ =~= seq!['.']);
    }
    ".".to_owned()
}

fn ex_join(wd: &String, f: &String) -> (r: String)
    ensures
        r@ == sp_join(wd@, f@),
{
    let n = f.as_str().unicode_len();
    if n > 0 && f.as_str().get_char(0) == '/' {
        f.clone()
    } else {
        let mut out = wd.clone();
        push_char(&mut out, '/');
        out.append(f.as_str());
        proof {
            assert(out@ =~= sp_join(wd@, f@));
        }
        out
    }
}

// ---------------------------------------------------------------------------
// The specification interpreter.
// ---------------------------------------------------------------------------

/// `Arg` three-way policy: a `value` binds unconditionally; a `default`
/// binds only when the name is not already visible; a bare declaration
/// requires a pre-existing binding.
pub open spec fn sp_do_arg(a: LaunchArg, st: SpecState) -> Result<SpecState, SpecErr> {
    match a.value {
        Option::Some(v) => Ok(sp_insert_var(st, a.name@, v@)),
        Option::None => match a.default {
            Option::Some(d) => match sp_lookup_var(st, a.name@) {
                Option::Some(_) => Ok(st),
                Option::None => Ok(sp_insert_var(st, a.name@, d@)),
            },
            Option::None => match sp_lookup_var(st, a.name@) {
                Option::Some(_) => Ok(st),
                Option::None => Err(SpecErr::MissingRequiredArg { name: a.name@ }),
            },
        },
    }
}

/// `Let` expands its value and binds it, unconditionally overriding.
pub open spec fn sp_do_let(l: Let, st: SpecState) -> Result<SpecState, SpecErr> {
    match sp_eval(l.value@, st) {
        Ok(v) => Ok(sp_insert_var(st, l.name@, v)),
        Err(e) => Err(e),
    }
}

/// `SetEnv` upserts the innermost environment overlay when its guards hold.
pub open spec fn sp_do_set_env(se: SetEnv, st: SpecState) -> Result<SpecState, SpecErr> {
    match sp_eval_if_unless(opt_view(se.if_cond), opt_view(se.unless), st) {
        Err(e) => Err(e),
        Ok(false) => Ok(st),
        Ok(true) => Ok(sp_insert_env(st, se.name@, se.value@)),
    }
}

/// `UnsetEnv` removes from the innermost overlay when its guards hold;
/// removing an absent entry is a no-op.
pub open spec fn sp_do_unset_env(ue: UnsetEnv, st: SpecState) -> Result<SpecState, SpecErr> {
    match sp_eval_if_unless(opt_view(ue.if_cond), opt_view(ue.unless), st) {
        Err(e) => Err(e),
        Ok(false) => Ok(st),
        Ok(true) => Ok(sp_remove_env(st, ue.name@)),
    }
}

/// Expansion of an optional attribute.
pub open spec fn sp_opt_eval(o: Option<String>, st: SpecState) -> Result<
    Option<Seq<char>>,
    SpecErr,
> {
    match o {
        Option::None => Ok(Option::None),
        Option::Some(t) => match sp_eval(t@, st) {
            Ok(v) => Ok(Option::Some(v)),
            Err(e) => Err(e),
        },
    }
}

/// The environment map of a record: each value expanded, a later entry of
/// the same name overriding an earlier one.
pub open spec fn sp_env_list(
    envs: Seq<Env>,
    i: int,
    acc: Map<Seq<char>, Seq<char>>,
    st: SpecState,
) -> Result<Map<Seq<char>, Seq<char>>, SpecErr>
    decreases envs.len() - i,
{
    if i < 0 || i >= envs.len() {
        Ok(acc)
    } else {
        match sp_eval(envs[i].value@, st) {
            Err(e) => Err(e),
            Ok(v) => sp_env_list(envs, i + 1, acc.insert(envs[i].name@, v), st),
        }
    }
}

/// The fully-expanded record of an `Executable` element.
pub open spec fn sp_exec_record(e: Executable, st: SpecState) -> Result<SpecExecRecord, SpecErr> {
    match sp_eval(e.cmd@, st) {
        Err(err) => Err(err),
        Ok(cmd) => match sp_opt_eval(e.cwd, st) {
            Err(err) => Err(err),
            Ok(cwd) => match sp_opt_eval(e.name, st) {
                Err(err) => Err(err),
                Ok(name) => match sp_opt_eval(e.args, st) {
                    Err(err) => Err(err),
                    Ok(args) => match sp_env_list(e.env@, 0, Map::empty(), st) {
                        Err(err) => Err(err),
                        Ok(env) => Ok(SpecExecRecord {
                            cmd,
                            cwd,
                            name,
                            args,
                            shell: opt_view(e.shell),
                            launch_prefix: opt_view(e.launch_prefix),
                            output: e.output,
                            env,
                        }),
                    },
                },
            },
        },
    }
}

/// An `Executable` is gated, then resolved and appended.
pub open spec fn sp_do_exec(e: Executable, st: SpecState) -> Result<SpecState, SpecErr> {
    match sp_eval_if_unless(opt_view(e.if_cond), opt_view(e.unless), st) {
        Err(err) => Err(err),
        Ok(false) => Ok(st),
        Ok(true) => match sp_exec_record(e, st) {
            Err(err) => Err(err),
            Ok(rec) => Ok(sp_push_exec(st, rec)),
        },
    }
}

/// Fold over a node's children: environment entries, parameters and
/// remappings, each substitution-bearing value expanded.
pub open spec fn sp_node_children(
    cs: Seq<NodeChild>,
    i: int,
    env: Map<Seq<char>, Seq<char>>,
    params: Seq<SpecParam>,
    remaps: Seq<SpecRemap>,
    st: SpecState,
) -> Result<(Map<Seq<char>, Seq<char>>, Seq<SpecParam>, Seq<SpecRemap>), SpecErr>
    decreases cs.len() - i,
{
    if i < 0 || i >= cs.len() {
        Ok((env, params, remaps))
    } else {
        match cs[i] {
            NodeChild::Env(en) => match sp_eval(en.value@, st) {
                Err(e) => Err(e),
                Ok(v) => sp_node_children(cs, i + 1, env.insert(en.name@, v), params, remaps, st),
            },
            NodeChild::Param(p) => match sp_eval(p.value@, st) {
                Err(e) => Err(e),
                Ok(v) => sp_node_children(
                    cs,
                    i + 1,
                    env,
                    params.push(
                        SpecParam {
                            name: opt_view(p.name),
                            from: opt_view(p.from),
                            sep: opt_view(p.sep),
                            value: v,
                        },
                    ),
                    remaps,
                    st,
                ),
            },
            NodeChild::Remap(r) => match sp_eval(r.from@, st) {
                Err(e) => Err(e),
                Ok(f) => match sp_eval(r.to@, st) {
                    Err(e) => Err(e),
                    Ok(t) => sp_node_children(
                        cs,
                        i + 1,
                        env,
                        params,
                        remaps.push(SpecRemap { from: f, to: t }),
                        st,
                    ),
                },
            },
        }
    }
}

/// The fully-expanded record of a `Node` element. The `pkg`/`exec` pair
/// stays raw for the package registry at spawn time.
pub open spec fn sp_node_record(n: Node, st: SpecState) -> Result<SpecNodeRecord, SpecErr> {
    match sp_opt_eval(n.name, st) {
        Err(err) => Err(err),
        Ok(name) => match sp_opt_eval(n.ros_args, st) {
            Err(err) => Err(err),
            Ok(ros_args) => match sp_opt_eval(n.args, st) {
                Err(err) => Err(err),
                Ok(args) => match sp_opt_eval(n.namespace, st) {
                    Err(err) => Err(err),
                    Ok(namespace) => match sp_node_children(
                        n.children@,
                        0,
                        Map::empty(),
                        Seq::empty(),
                        Seq::empty(),
                        st,
                    ) {
                        Err(err) => Err(err),
                        Ok(acc) => Ok(SpecNodeRecord {
                            pkg: n.pkg@,
                            exec_name: n.exec_name@,
                            name,
                            ros_args,
                            args,
                            namespace,
                            launch_prefix: opt_view(n.launch_prefix),
                            output: n.output,
                            env: acc.0,
                            param: acc.1,
                            remap: acc.2,
                        }),
                    },
                },
            },
        },
    }
}

/// A `Node` is gated, then resolved and appended.
pub open spec fn sp_do_node(n: Node, st: SpecState) -> Result<SpecState, SpecErr> {
    match sp_eval_if_unless(opt_view(n.if_cond), opt_view(n.unless), st) {
        Err(err) => Err(err),
        Ok(false) => Ok(st),
        Ok(true) => match sp_node_record(n, st) {
            Err(err) => Err(err),
            Ok(rec) => Ok(sp_push_node(st, rec)),
        },
    }
}

/// The arguments passed into an included document, each value expanded
/// against the including scope.
pub open spec fn sp_include_args(args: Seq<IncludeArg>, i: int, st: SpecState) -> Result<
    Seq<(Seq<char>, Seq<char>)>,
    SpecErr,
>
    decreases args.len() - i,
{
    if i < 0 || i >= args.len() {
        Ok(Seq::empty())
    } else {
        match sp_eval(args[i].value@, st) {
            Err(e) => Err(e),
            Ok(v) => match sp_include_args(args, i + 1, st) {
                Err(e) => Err(e),
                Ok(rest) => Ok(seq![(args[i].name@, v)] + rest),
            },
        }
    }
}

/// Bind caller arguments, in order, into the entry scope.
pub open spec fn sp_bind_args(
    args: Seq<(Seq<char>, Seq<char>)>,
    i: int,
    st: SpecState,
) -> SpecState
    decreases args.len() - i,
{
    if i < 0 || i >= args.len() {
        st
    } else {
        sp_bind_args(args, i + 1, sp_insert_var(st, args[i].0, args[i].1))
    }
}


/// Structural size of the tail of a document's child list.
pub open spec fn sz_launch_from(doc: Launch, i: int) -> nat
    decreases doc, 2int, doc.children@.len() - i,
{
    if i < 0 || i >= doc.children@.len() {
        0
    } else {
        1 + sz_child(doc.children@[i]) + sz_launch_from(doc, i + 1)
    }
}

/// Structural size of one root directive.
pub open spec fn sz_child(c: LaunchChild) -> nat
    decreases c, 2int, 0int,
{
    match c {
        LaunchChild::Group(g) => 1 + sz_group(g),
        _ => 1,
    }
}

/// Structural size of a group.
pub open spec fn sz_group(g: Group) -> nat
    decreases g, 2int, 1int,
{
    1 + sz_group_from(g, 0)
}

/// Structural size of the tail of a group's child list.
pub open spec fn sz_group_from(g: Group, i: int) -> nat
    decreases g, 1int, g.children@.len() - i,
{
    if i < 0 || i >= g.children@.len() {
        0
    } else {
        1 + sz_gchild(g.children@[i]) + sz_group_from(g, i + 1)
    }
}

/// Structural size of one group directive.
pub open spec fn sz_gchild(c: GroupChild) -> nat
    decreases c, 2int, 0int,
{
    match c {
        GroupChild::Group(g) => 1 + sz_group(g),
        _ => 1,
    }
}

proof fn lemma_sz_launch_bound(doc: Launch, i: int, j: int)
    requires
        0 <= i <= j < doc.children@.len(),
    ensures
        sz_child(doc.children@[j]) < sz_launch_from(doc, i),
    decreases j - i,
{
    if i < j {
        lemma_sz_launch_bound(doc, i + 1, j);
    }
}

proof fn lemma_sz_group_bound(g: Group, i: int, j: int)
    requires
        0 <= i <= j < g.children@.len(),
    ensures
        sz_gchild(g.children@[j]) < sz_group_from(g, i),
    decreases j - i,
{
    if i < j {
        lemma_sz_group_bound(g, i + 1, j);
    }
}

/// Resolution of one whole document: extension check, document lookup,
/// work-directory and scope push, argument binding, children in order, and
/// the matching pops.
pub open spec fn sp_load_document(
    docs: Map<Seq<char>, Launch>,
    path: Seq<char>,
    args: Seq<(Seq<char>, Seq<char>)>,
    st: SpecState,
    fuel: nat,
) -> Result<SpecState, SpecErr>
    decreases fuel, 2 + sz_launch_from(docs[path], 0),
{
    if !(sp_ends_with(path, ".xml"@) || sp_ends_with(path, ".yaml"@)) {
        Err(SpecErr::UnsupportedFileFormat { path })
    } else if !docs.contains_key(path) {
        Err(SpecErr::DocumentNotLoaded { path })
    } else {
        let st1 = sp_bind_args(args, 0, sp_push_scope(sp_push_wd(st, sp_dirname(path))));
        match sp_launch_kids(docs[path], 0, docs, st1, fuel) {
            Err(e) => Err(e),
            Ok(st2) => Ok(sp_pop_wd(sp_pop_scope(st2))),
        }
    }
}

/// The children of a document root, visited in order.
pub open spec fn sp_launch_kids(
    doc: Launch,
    i: int,
    docs: Map<Seq<char>, Launch>,
    st: SpecState,
    fuel: nat,
) -> Result<SpecState, SpecErr>
    decreases fuel, 1 + sz_launch_from(doc, i),
{
    if i < 0 || i >= doc.children@.len() {
        Ok(st)
    } else {
        match sp_child(doc.children@[i], docs, st, fuel) {
            Err(e) => Err(e),
            Ok(st2) => sp_launch_kids(doc, i + 1, docs, st2, fuel),
        }
    }
}

/// One directive under the document root.
pub open spec fn sp_child(
    c: LaunchChild,
    docs: Map<Seq<char>, Launch>,
    st: SpecState,
    fuel: nat,
) -> Result<SpecState, SpecErr>
    decreases fuel, sz_child(c),
{
    match c {
        LaunchChild::Arg(a) => sp_do_arg(a, st),
        LaunchChild::Let(l) => sp_do_let(l, st),
        LaunchChild::Executable(e) => sp_do_exec(e, st),
        LaunchChild::Node(n) => sp_do_node(n, st),
        LaunchChild::Group(g) => sp_do_group(g, docs, st, fuel),
        LaunchChild::Include(inc) => sp_do_include(inc, docs, st, fuel),
        LaunchChild::SetEnv(se) => sp_do_set_env(se, st),
        LaunchChild::UnsetEnv(ue) => sp_do_unset_env(ue, st),
    }
}

/// A `Group` is gated; a scoped group pushes a fresh scope around its
/// children and pops it after, an unscoped one shares the enclosing scope.
pub open spec fn sp_do_group(
    g: Group,
    docs: Map<Seq<char>, Launch>,
    st: SpecState,
    fuel: nat,
) -> Result<SpecState, SpecErr>
    decreases fuel, sz_group(g),
{
    match sp_eval_if_unless(opt_view(g.if_cond), opt_view(g.unless), st) {
        Err(e) => Err(e),
        Ok(false) => Ok(st),
        Ok(true) => {
            if g.scoped == Option::Some(true) {
                match sp_group_kids(g, 0, docs, sp_push_scope(st), fuel) {
                    Err(e) => Err(e),
                    Ok(st2) => Ok(sp_pop_scope(st2)),
                }
            } else {
                sp_group_kids(g, 0, docs, st, fuel)
            }
        },
    }
}

/// The children of a group, visited in order.
pub open spec fn sp_group_kids(
    g: Group,
    i: int,
    docs: Map<Seq<char>, Launch>,
    st: SpecState,
    fuel: nat,
) -> Result<SpecState, SpecErr>
    decreases fuel, sz_group_from(g, i),
{
    if i < 0 || i >= g.children@.len() {
        Ok(st)
    } else {
        match sp_gchild(g.children@[i], docs, st, fuel) {
            Err(e) => Err(e),
            Ok(st2) => sp_group_kids(g, i + 1, docs, st2, fuel),
        }
    }
}

/// One directive inside a group.
pub open spec fn sp_gchild(
    c: GroupChild,
    docs: Map<Seq<char>, Launch>,
    st: SpecState,
    fuel: nat,
) -> Result<SpecState, SpecErr>
    decreases fuel, sz_gchild(c),
{
    match c {
        GroupChild::Executable(e) => sp_do_exec(e, st),
        GroupChild::Node(n) => sp_do_node(n, st),
        GroupChild::Group(g) => sp_do_group(g, docs, st, fuel),
        GroupChild::Include(inc) => sp_do_include(inc, docs, st, fuel),
        GroupChild::SetEnv(se) => sp_do_set_env(se, st),
        GroupChild::UnsetEnv(ue) => sp_do_unset_env(ue, st),
    }
}

/// An `Include` is gated; its file attribute is expanded and resolved
/// against the including document's directory, its argument values are
/// expanded against the including scope, and the named document is resolved
/// in place with one unit of inclusion depth spent.
pub open spec fn sp_do_include(
    inc: Include,
    docs: Map<Seq<char>, Launch>,
    st: SpecState,
    fuel: nat,
) -> Result<SpecState, SpecErr>
    decreases fuel, 0int,
{
    match sp_eval_if_unless(opt_view(inc.if_cond), opt_view(inc.unless), st) {
        Err(e) => Err(e),
        Ok(false) => Ok(st),
        Ok(true) => match sp_eval(inc.file@, st) {
            Err(e) => Err(e),
            Ok(p) => match sp_include_args(inc.arg@, 0, st) {
                Err(e) => Err(e),
                Ok(args) => if fuel == 0 {
                    Err(SpecErr::RecursionLimitExceeded)
                } else {
                    sp_load_document(docs, sp_join(sp_cwd(st), p), args, st, (fuel - 1) as nat)
                },
            },
        },
    }
}

/// The whole run: a fresh state around the injected collaborators, the
/// entry document resolved with the caller's arguments, and the two
/// accumulators as the profile.
pub open spec fn sp_resolve(
    docs: Map<Seq<char>, Launch>,
    path: Seq<char>,
    args: Seq<(Seq<char>, Seq<char>)>,
    base_env: Map<Seq<char>, Seq<char>>,
    packages: Map<Seq<char>, Seq<char>>,
    run_id: Seq<char>,
    fuel: nat,
) -> Result<(Seq<SpecExecRecord>, Seq<SpecNodeRecord>), SpecErr> {
    let st0 = SpecState {
        work_dirs: Seq::empty(),
        scopes: Seq::empty(),
        execs: Seq::empty(),
        nodes: Seq::empty(),
        base_env,
        packages,
        run_id,
    };
    match sp_load_document(docs, path, args, st0, fuel) {
        Err(e) => Err(e),
        Ok(st) => Ok((st.execs, st.nodes)),
    }
}

// ---------------------------------------------------------------------------
// The executable walker.
// ---------------------------------------------------------------------------

/// An executable step agrees with its specification twin: on success the
/// new state is the specified one, on failure the error is the specified
/// one.
pub open spec fn obeys_step(
    r: Result<(), LaunchError>,
    sp: Result<SpecState, SpecErr>,
    post: SpecState,
) -> bool {
    match r {
        Result::Ok(()) => sp == Ok::<SpecState, SpecErr>(post),
        Result::Err(e) => sp == Err::<SpecState, SpecErr>(e@),
    }
}

/// Elementwise prefix relation on sequences.
pub open spec fn seq_prefix<T>(a: Seq<T>, b: Seq<T>) -> bool {
    a.len() <= b.len() && forall|k: int| 0 <= k < a.len() ==> a[k] == b[k]
}

/// The frame every walker step keeps, whether it succeeds or fails: both
/// stacks keep their depth — every push has its matching pop on every exit
/// path — the work-directory stack and every enclosing scope keep their
/// contents (only the innermost scope may change), records are at most
/// appended, and the injected collaborators stay as they were.
pub open spec fn frame_ok(pre: SpecState, post: SpecState) -> bool {
    &&& post.scopes.len() == pre.scopes.len()
    &&& forall|k: int| 0 <= k < pre.scopes.len() - 1 ==> post.scopes[k] == pre.scopes[k]
    &&& post.work_dirs == pre.work_dirs
    &&& seq_prefix(pre.execs, post.execs)
    &&& seq_prefix(pre.nodes, post.nodes)
    &&& post.base_env == pre.base_env
    &&& post.packages == pre.packages
    &&& post.run_id == pre.run_id
}

/// What resolving a whole document keeps, on success and on error alike:
/// the scope and work-directory stacks are restored to exactly their former
/// contents, records are at most appended, and the collaborators stay as
/// they were.
pub open spec fn doc_frame(pre: SpecState, post: SpecState) -> bool {
    &&& post.scopes == pre.scopes
    &&& post.work_dirs == pre.work_dirs
    &&& seq_prefix(pre.execs, post.execs)
    &&& seq_prefix(pre.nodes, post.nodes)
    &&& post.base_env == pre.base_env
    &&& post.packages == pre.packages
    &&& post.run_id == pre.run_id
}

/// The step frame composes along a run.
pub proof fn lemma_frame_trans(a: SpecState, b: SpecState, c: SpecState)
    requires
        frame_ok(a, b),
        frame_ok(b, c),
    ensures
        frame_ok(a, c),
{
}

fn clone_opt(o: &Option<String>) -> (r: Option<String>)
    ensures
        opt_view(r) == opt_view(*o),
{
    match o {
        Option::Some(s) => Option::Some(s.clone()),
        Option::None => Option::None,
    }
}

fn opt_eval(state: &State, o: &Option<String>) -> (r: Result<Option<String>, LaunchError>)
    requires
        sp_state_wf(state@),
    ensures
        match r {
            Result::Ok(v) => sp_opt_eval(*o, state@) == Ok::<Option<Seq<char>>, SpecErr>(
                opt_view(v),
            ),
            Result::Err(e) => sp_opt_eval(*o, state@) == Err::<Option<Seq<char>>, SpecErr>(e@),
        },
{
    match o {
        Option::None => Result::Ok(Option::None),
        Option::Some(t) => match state.eval(t.as_str()) {
            Result::Ok(v) => Result::Ok(Option::Some(v)),
            Result::Err(e) => Result::Err(e),
        },
    }
}

/// Resolve one `executable` element: gate it, expand its attributes and
/// environment, and append the record.
pub fn parse_executable(exec: &Executable, state: &mut State) -> (r: Result<(), LaunchError>)
    requires
        sp_state_wf(old(state)@),
    ensures
        obeys_step(r, sp_do_exec(*exec, old(state)@), final(state)@),
        frame_ok(old(state)@, final(state)@),
        r is Err ==> final(state)@ == old(state)@,
        sp_state_wf(final(state)@),
{
    let visible = match state.eval_if_unless(exec.if_cond.as_ref(), exec.unless.as_ref()) {
        Result::Ok(b) => b,
        Result::Err(e) => {
            return Result::Err(e);
        },
    };
    if !visible {
        return Result::Ok(());
    }
    let cmd = match state.eval(exec.cmd.as_str()) {
        Result::Ok(v) => v,
        Result::Err(e) => {
            return Result::Err(e);
        },
    };
    let cwd = match opt_eval(state, &exec.cwd) {
        Result::Ok(v) => v,
        Result::Err(e) => {
            return Result::Err(e);
        },
    };
    let name = match opt_eval(state, &exec.name) {
        Result::Ok(v) => v,
        Result::Err(e) => {
            return Result::Err(e);
        },
    };
    let args = match opt_eval(state, &exec.args) {
        Result::Ok(v) => v,
        Result::Err(e) => {
            return Result::Err(e);
        },
    };
    let mut env = StrMap::new();
    let mut i: usize = 0;
    while i < exec.env.len()
        invariant
            i <= exec.env@.len(),
            sp_state_wf(state@),
            state@ == old(state)@,
            sp_eval_if_unless(opt_view(exec.if_cond), opt_view(exec.unless), state@) == Ok::<
                bool,
                SpecErr,
            >(true),
            sp_eval(exec.cmd@, state@) == Ok::<Seq<char>, SpecErr>(cmd@),
            sp_opt_eval(exec.cwd, state@) == Ok::<Option<Seq<char>>, SpecErr>(opt_view(cwd)),
            sp_opt_eval(exec.name, state@) == Ok::<Option<Seq<char>>, SpecErr>(opt_view(name)),
            sp_opt_eval(exec.args, state@) == Ok::<Option<Seq<char>>, SpecErr>(opt_view(args)),
            sp_env_list(exec.env@, 0, Map::empty(), state@) == sp_env_list(
                exec.env@,
                i as int,
                env@,
                state@,
            ),
        decreases exec.env@.len() - i,
    {
        let entry = &exec.env[i];
        match state.eval(entry.value.as_str()) {
            Result::Ok(v) => {
                env.insert(entry.name.clone(), v);
            },
            Result::Err(e) => {
                return Result::Err(e);
            },
        }
        i = i + 1;
    }
    let rec = ParsedExecutable {
        cmd,
        cwd,
        name,
        args,
        shell: clone_opt(&exec.shell),
        launch_prefix: clone_opt(&exec.launch_prefix),
        output: exec.output,
        env,
    };
    state.record_exec(rec);
    Result::Ok(())
}

/// Resolve one `node` element: gate it, expand its attributes and children,
/// and append the record.
#[verifier::rlimit(100)]
pub fn parse_node(node: &Node, state: &mut State) -> (r: Result<(), LaunchError>)
    requires
        sp_state_wf(old(state)@),
    ensures
        obeys_step(r, sp_do_node(*node, old(state)@), final(state)@),
        frame_ok(old(state)@, final(state)@),
        r is Err ==> final(state)@ == old(state)@,
        sp_state_wf(final(state)@),
{
    let visible = match state.eval_if_unless(node.if_cond.as_ref(), node.unless.as_ref()) {
        Result::Ok(b) => b,
        Result::Err(e) => {
            return Result::Err(e);
        },
    };
    if !visible {
        return Result::Ok(());
    }
    let name = match opt_eval(state, &node.name) {
        Result::Ok(v) => v,
        Result::Err(e) => {
            return Result::Err(e);
        },
    };
    let ros_args = match opt_eval(state, &node.ros_args) {
        Result::Ok(v) => v,
        Result::Err(e) => {
            return Result::Err(e);
        },
    };
    let args = match opt_eval(state, &node.args) {
        Result::Ok(v) => v,
        Result::Err(e) => {
            return Result::Err(e);
        },
    };
    let namespace = match opt_eval(state, &node.namespace) {
        Result::Ok(v) => v,
        Result::Err(e) => {
            return Result::Err(e);
        },
    };
    let mut env = StrMap::new();
    let mut params: Vec<crate::schema::Param> = Vec::new();
    let mut remaps: Vec<crate::schema::Remap> = Vec::new();
    proof {
        assert(params_view(params@) =~= Seq::<SpecParam>::empty());
        assert(remaps_view(remaps@) =~= Seq::<SpecRemap>::empty());
    }
    let mut i: usize = 0;
    while i < node.children.len()
        invariant
            i <= node.children@.len(),
            sp_state_wf(state@),
            state@ == old(state)@,
            sp_eval_if_unless(opt_view(node.if_cond), opt_view(node.unless), state@) == Ok::<
                bool,
                SpecErr,
            >(true),
            sp_opt_eval(node.name, state@) == Ok::<Option<Seq<char>>, SpecErr>(opt_view(name)),
            sp_opt_eval(node.ros_args, state@) == Ok::<Option<Seq<char>>, SpecErr>(
                opt_view(ros_args),
            ),
            sp_opt_eval(node.args, state@) == Ok::<Option<Seq<char>>, SpecErr>(opt_view(args)),
            sp_opt_eval(node.namespace, state@) == Ok::<Option<Seq<char>>, SpecErr>(
                opt_view(namespace),
            ),
            sp_node_children(node.children@, 0, Map::empty(), Seq::empty(), Seq::empty(), state@)
                == sp_node_children(
                node.children@,
                i as int,
                env@,
                params_view(params@),
                remaps_view(remaps@),
                state@,
            ),
        decreases node.children@.len() - i,
    {
        match &node.children[i] {
            NodeChild::Env(en) => match state.eval(en.value.as_str()) {
                Result::Ok(v) => {
                    env.insert(en.name.clone(), v);
                },
                Result::Err(e) => {
                    return Result::Err(e);
                },
            },
            NodeChild::Param(p) => match state.eval(p.value.as_str()) {
                Result::Ok(v) => {
                    let ghost pre = params_view(params@);
                    params.push(
                        crate::schema::Param {
                            name: clone_opt(&p.name),
                            from: clone_opt(&p.from),
                            sep: clone_opt(&p.sep),
                            value: v,
                        },
                    );
                    proof {
                        assert(params_view(params@) =~= pre.push(params@.last()@));
                    }
                },
                Result::Err(e) => {
                    return Result::Err(e);
                },
            },
            NodeChild::Remap(rm) => match state.eval(rm.from.as_str()) {
                Result::Err(e) => {
                    return Result::Err(e);
                },
                Result::Ok(f) => match state.eval(rm.to.as_str()) {
                    Result::Err(e) => {
                        return Result::Err(e);
                    },
                    Result::Ok(t) => {
                        let ghost pre = remaps_view(remaps@);
                        remaps.push(crate::schema::Remap { from: f, to: t });
                        proof {
                            assert(remaps_view(remaps@) =~= pre.push(remaps@.last()@));
                        }
                    },
                },
            },
        }
        i = i + 1;
    }
    let rec = ParsedNode {
        pkg: node.pkg.clone(),
        exec_name: node.exec_name.clone(),
        name,
        ros_args,
        args,
        namespace,
        launch_prefix: clone_opt(&node.launch_prefix),
        output: node.output,
        env,
        param: params,
        remap: remaps,
    };
    state.record_node(rec);
    Result::Ok(())
}

/// Resolve one `set-env` element.
pub fn parse_set_env(set_env: &SetEnv, state: &mut State) -> (r: Result<(), LaunchError>)
    requires
        sp_state_wf(old(state)@),
    ensures
        obeys_step(r, sp_do_set_env(*set_env, old(state)@), final(state)@),
        frame_ok(old(state)@, final(state)@),
        r is Err ==> final(state)@ == old(state)@,
        sp_state_wf(final(state)@),
{
    let visible = match state.eval_if_unless(set_env.if_cond.as_ref(), set_env.unless.as_ref()) {
        Result::Ok(b) => b,
        Result::Err(e) => {
            return Result::Err(e);
        },
    };
    if visible {
        state.insert_env(set_env.name.clone(), set_env.value.clone());
    }
    Result::Ok(())
}

/// Resolve one `unset-env` element; removing an absent entry is a no-op.
pub fn parse_unset_env(unset_env: &UnsetEnv, state: &mut State) -> (r: Result<(), LaunchError>)
    requires
        sp_state_wf(old(state)@),
    ensures
        obeys_step(r, sp_do_unset_env(*unset_env, old(state)@), final(state)@),
        frame_ok(old(state)@, final(state)@),
        r is Err ==> final(state)@ == old(state)@,
        sp_state_wf(final(state)@),
{
    let visible = match state.eval_if_unless(unset_env.if_cond.as_ref(), unset_env.unless.as_ref())
        {
        Result::Ok(b) => b,
        Result::Err(e) => {
            return Result::Err(e);
        },
    };
    if visible {
        let _ = state.remove_env(&unset_env.name);
    }
    Result::Ok(())
}

/// Resolve one `group` element.
#[verifier::rlimit(100)]
pub fn parse_group(
    group: &Group,
    state: &mut State,
    docs: &DocumentSet,
    fuel: usize,
) -> (r: Result<(), LaunchError>)
    requires
        sp_state_wf(old(state)@),
    ensures
        obeys_step(r, sp_do_group(*group, docs@, old(state)@, fuel as nat), final(state)@),
        frame_ok(old(state)@, final(state)@),
        sp_state_wf(final(state)@),
    decreases fuel, sz_group(*group),
{
    let visible = match state.eval_if_unless(group.if_cond.as_ref(), group.unless.as_ref()) {
        Result::Ok(b) => b,
        Result::Err(e) => {
            return Result::Err(e);
        },
    };
    if !visible {
        return Result::Ok(());
    }
    let scoped = match &group.scoped {
        Option::Some(b) => *b,
        Option::None => false,
    };
    if scoped {
        state.push_scope();
    }
    let ghost base = state@;
    let mut i: usize = 0;
    while i < group.children.len()
        invariant
            i <= group.children@.len(),
            sp_state_wf(state@),
            sp_state_wf(old(state)@),
            frame_ok(base, state@),
            sp_eval_if_unless(opt_view(group.if_cond), opt_view(group.unless), old(state)@)
                == Ok::<bool, SpecErr>(true),
            scoped == (group.scoped == Option::Some(true)),
            base == if scoped {
                sp_push_scope(old(state)@)
            } else {
                old(state)@
            },
            sp_group_kids(*group, 0, docs@, base, fuel as nat) == sp_group_kids(
                *group,
                i as int,
                docs@,
                state@,
                fuel as nat,
            ),
        decreases group.children@.len() - i,
    {
        proof {
            lemma_sz_group_bound(*group, 0, i as int);
        }
        let ghost before = state@;
        let res = parse_group_child(&group.children[i], state, docs, fuel);
        proof {
            lemma_frame_trans(base, before, state@);
        }
        match res {
            Result::Ok(()) => (),
            Result::Err(e) => {
                if scoped {
                    state.pop_scope();
                }
                return Result::Err(e);
            },
        }
        i = i + 1;
    }
    if scoped {
        state.pop_scope();
    }
    Result::Ok(())
}

/// Expand the argument bindings of an `Include` against the including
/// scope.
fn eval_include_args(inc: &Include, state: &State) -> (r: Result<
    Vec<(String, String)>,
    LaunchError,
>)
    requires
        sp_state_wf(state@),
    ensures
        match r {
            Result::Ok(v) => sp_include_args(inc.arg@, 0, state@) == Ok::<
                Seq<(Seq<char>, Seq<char>)>,
                SpecErr,
            >(pairs_view(v@)),
            Result::Err(e) => sp_include_args(inc.arg@, 0, state@) == Err::<
                Seq<(Seq<char>, Seq<char>)>,
                SpecErr,
            >(e@),
        },
{
    let mut args: Vec<(String, String)> = Vec::new();
    let mut i: usize = 0;
    while i < inc.arg.len()
        invariant
            i <= inc.arg@.len(),
            sp_state_wf(state@),
            sp_include_args(inc.arg@, 0, state@) == (match sp_include_args(
                inc.arg@,
                i as int,
                state@,
            ) {
                Ok(rest) => Ok::<Seq<(Seq<char>, Seq<char>)>, SpecErr>(pairs_view(args@) + rest),
                Err(e) => Err::<Seq<(Seq<char>, Seq<char>)>, SpecErr>(e),
            }),
        decreases inc.arg@.len() - i,
    {
        let entry = &inc.arg[i];
        match state.eval(entry.value.as_str()) {
            Result::Ok(v) => {
                let ghost pre = pairs_view(args@);
                let ghost nm = entry.name@;
                args.push((entry.name.clone(), v));
                proof {
                    assert(pairs_view(args@) =~= pre.push((nm, args@.last().1@)));
                    let sv2 = sp_include_args(inc.arg@, i as int + 1, state@);
                    if sv2 is Ok {
                        assert(pre + (seq![(nm, args@.last().1@)] + sv2->Ok_0) =~= pairs_view(
                            args@,
                        ) + sv2->Ok_0);
                    }
                }
            },
            Result::Err(e) => {
                return Result::Err(e);
            },
        }
        i = i + 1;
    }
    proof {
        assert(pairs_view(args@) + Seq::<(Seq<char>, Seq<char>)>::empty() =~= pairs_view(args@));
    }
    Result::Ok(args)
}

/// Resolve one `Include` element.
#[verifier::rlimit(100)]
pub fn parse_include(
    inc: &Include,
    state: &mut State,
    docs: &DocumentSet,
    fuel: usize,
) -> (r: Result<(), LaunchError>)
    requires
        sp_state_wf(old(state)@),
    ensures
        obeys_step(r, sp_do_include(*inc, docs@, old(state)@, fuel as nat), final(state)@),
        frame_ok(old(state)@, final(state)@),
        sp_state_wf(final(state)@),
    decreases fuel, 0int,
{
    let visible = match state.eval_if_unless(inc.if_cond.as_ref(), inc.unless.as_ref()) {
        Result::Ok(b) => b,
        Result::Err(e) => {
            return Result::Err(e);
        },
    };
    if !visible {
        return Result::Ok(());
    }
    let path = match state.eval(inc.file.as_str()) {
        Result::Ok(v) => v,
        Result::Err(e) => {
            return Result::Err(e);
        },
    };
    let args = match eval_include_args(inc, state) {
        Result::Ok(v) => v,
        Result::Err(e) => {
            return Result::Err(e);
        },
    };
    let wd = state.cwd();
    let full = ex_join(&wd, &path);
    if fuel == 0 {
        return Result::Err(LaunchError::RecursionLimitExceeded);
    }
    load_document(docs, &full, &args, state, fuel - 1)
}

/// Resolve one directive inside a group.
fn parse_group_child(
    c: &GroupChild,
    state: &mut State,
    docs: &DocumentSet,
    fuel: usize,
) -> (r: Result<(), LaunchError>)
    requires
        sp_state_wf(old(state)@),
    ensures
        obeys_step(r, sp_gchild(*c, docs@, old(state)@, fuel as nat), final(state)@),
        frame_ok(old(state)@, final(state)@),
        sp_state_wf(final(state)@),
    decreases fuel, sz_gchild(*c),
{
    match c {
        GroupChild::Executable(e) => parse_executable(e, state),
        GroupChild::Node(n) => parse_node(n, state),
        GroupChild::Group(g) => parse_group(g, state, docs, fuel),
        GroupChild::Include(inc) => parse_include(inc, state, docs, fuel),
        GroupChild::SetEnv(se) => parse_set_env(se, state),
        GroupChild::UnsetEnv(ue) => parse_unset_env(ue, state),
    }
}

/// Resolve one directive under the document root.
fn parse_launch_child(
    c: &LaunchChild,
    state: &mut State,
    docs: &DocumentSet,
    fuel: usize,
) -> (r: Result<(), LaunchError>)
    requires
        sp_state_wf(old(state)@),
    ensures
        obeys_step(r, sp_child(*c, docs@, old(state)@, fuel as nat), final(state)@),
        frame_ok(old(state)@, final(state)@),
        sp_state_wf(final(state)@),
    decreases fuel, sz_child(*c),
{
    match c {
        LaunchChild::Arg(a) => parse_arg(a, state),
        LaunchChild::Let(l) => parse_let(l, state),
        LaunchChild::Executable(e) => parse_executable(e, state),
        LaunchChild::Node(n) => parse_node(n, state),
        LaunchChild::Group(g) => parse_group(g, state, docs, fuel),
        LaunchChild::Include(inc) => parse_include(inc, state, docs, fuel),
        LaunchChild::SetEnv(se) => parse_set_env(se, state),
        LaunchChild::UnsetEnv(ue) => parse_unset_env(ue, state),
    }
}

/// Resolve the children of one document in order, against the current
/// stacks.
pub fn parse_launch(
    launch: &Launch,
    state: &mut State,
    docs: &DocumentSet,
    fuel: usize,
) -> (r: Result<(), LaunchError>)
    requires
        sp_state_wf(old(state)@),
    ensures
        obeys_step(r, sp_launch_kids(*launch, 0, docs@, old(state)@, fuel as nat), final(state)@),
        frame_ok(old(state)@, final(state)@),
        sp_state_wf(final(state)@),
    decreases fuel, 1 + sz_launch_from(*launch, 0),
{
    let ghost base = state@;
    let mut i: usize = 0;
    while i < launch.children.len()
        invariant
            i <= launch.children@.len(),
            sp_state_wf(state@),
            sp_state_wf(old(state)@),
            frame_ok(base, state@),
            base == old(state)@,
            sp_launch_kids(*launch, 0, docs@, base, fuel as nat) == sp_launch_kids(
                *launch,
                i as int,
                docs@,
                state@,
                fuel as nat,
            ),
        decreases launch.children@.len() - i,
    {
        proof {
            lemma_sz_launch_bound(*launch, 0, i as int);
        }
        let ghost before = state@;
        let res = parse_launch_child(&launch.children[i], state, docs, fuel);
        proof {
            lemma_frame_trans(base, before, state@);
        }
        match res {
            Result::Ok(()) => (),
            Result::Err(e) => {
                return Result::Err(e);
            },
        }
        i = i + 1;
    }
    Result::Ok(())
}

/// Resolve one `arg` declaration by the three-way policy.
pub fn parse_arg(arg: &LaunchArg, state: &mut State) -> (r: Result<(), LaunchError>)
    requires
        sp_state_wf(old(state)@),
    ensures
        obeys_step(r, sp_do_arg(*arg, old(state)@), final(state)@),
        frame_ok(old(state)@, final(state)@),
        r is Err ==> final(state)@ == old(state)@,
        sp_state_wf(final(state)@),
{
    match &arg.value {
        Option::Some(v) => {
            state.insert_var(arg.name.clone(), v.clone());
            Result::Ok(())
        },
        Option::None => match &arg.default {
            Option::Some(d) => {
                let _ = state.get_var_or_insert(&arg.name, d);
                Result::Ok(())
            },
            Option::None => {
                if state.contains_var(&arg.name) {
                    Result::Ok(())
                } else {
                    Result::Err(LaunchError::MissingRequiredArg { name: arg.name.clone() })
                }
            },
        },
    }
}

/// Resolve one `let` binding: expand the value, bind it overriding.
pub fn parse_let(l: &Let, state: &mut State) -> (r: Result<(), LaunchError>)
    requires
        sp_state_wf(old(state)@),
    ensures
        obeys_step(r, sp_do_let(*l, old(state)@), final(state)@),
        frame_ok(old(state)@, final(state)@),
        r is Err ==> final(state)@ == old(state)@,
        sp_state_wf(final(state)@),
{
    match state.eval(l.value.as_str()) {
        Result::Ok(v) => {
            state.insert_var(l.name.clone(), v);
            Result::Ok(())
        },
        Result::Err(e) => Result::Err(e),
    }
}

/// Resolve one document against the current state: check its extension,
/// look it up, push its directory and a fresh scope, bind the caller
/// arguments, visit its children, and pop both stacks again — on the error
/// path too.
pub fn load_document(
    docs: &DocumentSet,
    path: &String,
    args: &Vec<(String, String)>,
    state: &mut State,
    fuel: usize,
) -> (r: Result<(), LaunchError>)
    ensures
        obeys_step(
            r,
            sp_load_document(docs@, path@, pairs_view(args@), old(state)@, fuel as nat),
            final(state)@,
        ),
        doc_frame(old(state)@, final(state)@),
    decreases fuel, 2 + sz_launch_from(docs@[path@], 0),
{
    if !(ex_ends_with(path.as_str(), ".xml") || ex_ends_with(path.as_str(), ".yaml")) {
        return Result::Err(LaunchError::UnsupportedFileFormat { path: path.clone() });
    }
    let doc = match docs.get(path) {
        Option::Some(d) => d,
        Option::None => {
            return Result::Err(LaunchError::DocumentNotLoaded { path: path.clone() });
        },
    };
    let dir = ex_dirname(path.as_str());
    state.push_wd(dir);
    state.push_scope();
    let ghost entered = state@;
    let mut i: usize = 0;
    while i < args.len()
        invariant
            i <= args@.len(),
            sp_state_wf(state@),
            frame_ok(entered, state@),
            sp_bind_args(pairs_view(args@), 0, entered) == sp_bind_args(
                pairs_view(args@),
                i as int,
                state@,
            ),
        decreases args@.len() - i,
    {
        let entry = &args[i];
        state.insert_var(entry.0.clone(), entry.1.clone());
        i = i + 1;
    }
    let ghost bound = state@;
    let r = parse_launch(doc, state, docs, fuel);
    proof {
        lemma_frame_trans(entered, bound, state@);
    }
    state.pop_scope();
    state.pop_wd();
    proof {
        assert(state@.scopes =~= old(state)@.scopes);
        assert(state@.work_dirs =~= old(state)@.work_dirs);
    }
    match r {
        Result::Err(e) => Result::Err(e),
        Result::Ok(()) => Result::Ok(()),
    }
}

/// Resolve an entry document with caller-supplied arguments into a flat
/// profile.
///
/// `docs` holds every document the run may reach; `base_env` is the
/// environment snapshot read by `env`/`optenv`; `packages` is the package
/// registry read by `find`; `run_id` makes `anon` names unique across runs;
/// `fuel` bounds the inclusion depth. The result is exactly what the
/// specification interpreter yields: identical inputs give an identical
/// profile or an identical error, and no partial profile survives an error.
pub fn load_launch_file(
    docs: &DocumentSet,
    path: &String,
    args: &Vec<(String, String)>,
    base_env: StrMap,
    packages: StrMap,
    run_id: String,
    fuel: usize,
) -> (r: Result<LaunchProfile, LaunchError>)
    ensures
        match r {
            Result::Ok(profile) => sp_resolve(
                docs@,
                path@,
                pairs_view(args@),
                base_env@,
                packages@,
                run_id@,
                fuel as nat,
            ) == Ok::<_, SpecErr>(
                (crate::profile::execs_view(profile.execs@), crate::profile::nodes_view(
                    profile.nodes@,
                )),
            ),
            Result::Err(e) => sp_resolve(
                docs@,
                path@,
                pairs_view(args@),
                base_env@,
                packages@,
                run_id@,
                fuel as nat,
            ) == Err::<(Seq<SpecExecRecord>, Seq<SpecNodeRecord>), SpecErr>(e@),
        },
{
    let mut state = State::new(base_env, packages, run_id);
    match load_document(docs, path, args, &mut state, fuel) {
        Result::Err(e) => Result::Err(e),
        Result::Ok(()) => {
            let (execs, nodes) = state.into_accumulators();
            Result::Ok(LaunchProfile { execs, nodes })
        },
    }
}

} // verus!
