use vstd::prelude::*;
use crate::errors::SpecErr;
use crate::schema::Group;
use crate::schema::GroupChild;
use crate::schema::Launch;
use crate::schema::LaunchArg;
use crate::schema::SetEnv;
use crate::state::SpecState;
use crate::state::sp_eval_if_unless;
use crate::state::sp_insert_var;
use crate::state::sp_lookup_var;
use crate::resolve::frame_ok;
use crate::resolve::seq_prefix;
use crate::resolve::sp_child;
use crate::resolve::sp_do_arg;
use crate::resolve::sp_do_group;
use crate::resolve::sp_gchild;
use crate::subst::sp_parse;
use crate::util::opt_view;

verus! {

/// Parsing substitution text is deterministic: equal inputs yield equal
/// block sequences or equal error positions, across any two calls.
pub proof fn lemma_parse_deterministic(s1: Seq<char>, s2: Seq<char>)
    requires
        s1 == s2,
    ensures
        sp_parse(s1) == sp_parse(s2),
{
}

/// Resolution depends on document values alone: two runs over equal
/// document sets, entry paths, arguments, environments, registries, run
/// identifiers and depth budgets yield equal profiles or equal errors. In
/// particular, a document read from either serialized form resolves
/// identically once it denotes the same in-memory document.
pub proof fn lemma_resolution_value_determined(
    docs1: Map<Seq<char>, Launch>,
    docs2: Map<Seq<char>, Launch>,
    path: Seq<char>,
    args: Seq<(Seq<char>, Seq<char>)>,
    base_env: Map<Seq<char>, Seq<char>>,
    packages: Map<Seq<char>, Seq<char>>,
    run_id: Seq<char>,
    fuel: nat,
)
    requires
        docs1 == docs2,
    ensures
        crate::resolve::sp_resolve(docs1, path, args, base_env, packages, run_id, fuel)
            == crate::resolve::sp_resolve(docs2, path, args, base_env, packages, run_id, fuel),
{
}

/// `Arg` three-way policy, first clause: a declaration carrying `value`
/// binds that value, overriding any caller-supplied binding.
pub proof fn lemma_arg_value_wins(a: LaunchArg, st: SpecState, v: String)
    requires
        a.value == Option::Some(v),
    ensures
        sp_do_arg(a, st) == Ok::<SpecState, SpecErr>(sp_insert_var(st, a.name@, v@)),
{
}

/// `Arg` three-way policy, second clause: a declaration carrying only
/// `default` keeps a caller-supplied binding and binds the default only
/// when the name is unbound.
pub proof fn lemma_arg_default(a: LaunchArg, st: SpecState, d: String)
    requires
        a.value is None,
        a.default == Option::Some(d),
    ensures
        sp_lookup_var(st, a.name@) is Some ==> sp_do_arg(a, st) == Ok::<SpecState, SpecErr>(st),
        sp_lookup_var(st, a.name@) is None ==> sp_do_arg(a, st) == Ok::<SpecState, SpecErr>(
            sp_insert_var(st, a.name@, d@),
        ),
{
}

/// `Arg` three-way policy, third clause: a bare declaration requires a
/// pre-existing binding and fails with `MissingRequiredArg` otherwise.
pub proof fn lemma_arg_required(a: LaunchArg, st: SpecState)
    requires
        a.value is None,
        a.default is None,
    ensures
        sp_lookup_var(st, a.name@) is Some ==> sp_do_arg(a, st) == Ok::<SpecState, SpecErr>(st),
        sp_lookup_var(st, a.name@) is None ==> sp_do_arg(a, st) == Err::<SpecState, SpecErr>(
            SpecErr::MissingRequiredArg { name: a.name@ },
        ),
{
}

/// Conditional gating skips the whole element: when the `if`/`unless` pair
/// of a root directive evaluates to invisible, the directive contributes
/// nothing — no records, no bindings, no environment changes.
pub proof fn lemma_gate_skips_child(
    c: crate::schema::LaunchChild,
    docs: Map<Seq<char>, Launch>,
    st: SpecState,
    fuel: nat,
)
    requires
        match c {
            crate::schema::LaunchChild::Executable(e) => sp_eval_if_unless(
                opt_view(e.if_cond),
                opt_view(e.unless),
                st,
            ) == Ok::<bool, SpecErr>(false),
            crate::schema::LaunchChild::Node(n) => sp_eval_if_unless(
                opt_view(n.if_cond),
                opt_view(n.unless),
                st,
            ) == Ok::<bool, SpecErr>(false),
            crate::schema::LaunchChild::Group(g) => sp_eval_if_unless(
                opt_view(g.if_cond),
                opt_view(g.unless),
                st,
            ) == Ok::<bool, SpecErr>(false),
            crate::schema::LaunchChild::Include(inc) => sp_eval_if_unless(
                opt_view(inc.if_cond),
                opt_view(inc.unless),
                st,
            ) == Ok::<bool, SpecErr>(false),
            crate::schema::LaunchChild::SetEnv(se) => sp_eval_if_unless(
                opt_view(se.if_cond),
                opt_view(se.unless),
                st,
            ) == Ok::<bool, SpecErr>(false),
            crate::schema::LaunchChild::UnsetEnv(ue) => sp_eval_if_unless(
                opt_view(ue.if_cond),
                opt_view(ue.unless),
                st,
            ) == Ok::<bool, SpecErr>(false),
            _ => false,
        },
    ensures
        sp_child(c, docs, st, fuel) == Ok::<SpecState, SpecErr>(st),
{
}

/// Scoped group isolation, on the shape the property names: a scoped group
/// holding one visible `SetEnv` leaves the surrounding state exactly as it
/// was — the overlay entry dies with the popped scope, so a sibling
/// following the group cannot see it.
pub proof fn lemma_scoped_set_env_isolated(
    g: Group,
    se: SetEnv,
    docs: Map<Seq<char>, Launch>,
    st: SpecState,
    fuel: nat,
)
    requires
        g.scoped == Option::Some(true),
        g.children@ =~= seq![GroupChild::SetEnv(se)],
        sp_eval_if_unless(opt_view(g.if_cond), opt_view(g.unless), st) == Ok::<bool, SpecErr>(
            true,
        ),
        sp_eval_if_unless(opt_view(se.if_cond), opt_view(se.unless), crate::state::sp_push_scope(st))
            == Ok::<bool, SpecErr>(true),
    ensures
        sp_do_group(g, docs, st, fuel) == Ok::<SpecState, SpecErr>(
            crate::state::SpecState { scopes: st.scopes, ..st },
        ),
{
    let pushed = crate::state::sp_push_scope(st);
    let after_set = crate::state::sp_insert_env(pushed, se.name@, se.value@);
    assert(sp_gchild(g.children@[0], docs, pushed, fuel) == Ok::<SpecState, SpecErr>(after_set));
    assert(crate::resolve::sp_group_kids(g, 1, docs, after_set, fuel) == Ok::<
        SpecState,
        SpecErr,
    >(after_set));
    assert(crate::resolve::sp_group_kids(g, 0, docs, pushed, fuel) == Ok::<SpecState, SpecErr>(
        after_set,
    ));
    assert(crate::state::sp_pop_scope(after_set).scopes =~= st.scopes);
    assert(crate::state::sp_pop_scope(after_set) =~= (crate::state::SpecState {
        scopes: st.scopes,
        ..st
    }));
}


/// Resolving a document restores both stacks exactly and at most appends
/// records, on the success path.
pub proof fn frame_load_document(
    docs: Map<Seq<char>, Launch>,
    path: Seq<char>,
    args: Seq<(Seq<char>, Seq<char>)>,
    st: SpecState,
    fuel: nat,
)
    ensures
        crate::resolve::sp_load_document(docs, path, args, st, fuel) matches Ok(st2) ==> {
            &&& st2.scopes =~= st.scopes
            &&& st2.work_dirs =~= st.work_dirs
            &&& seq_prefix(st.execs, st2.execs)
            &&& seq_prefix(st.nodes, st2.nodes)
            &&& st2.base_env == st.base_env
            &&& st2.packages == st.packages
            &&& st2.run_id == st.run_id
        },
    decreases fuel, 2 + crate::resolve::sz_launch_from(docs[path], 0),
{
    let r = crate::resolve::sp_load_document(docs, path, args, st, fuel);
    if r is Ok {
        let entered = crate::state::sp_push_scope(crate::state::sp_push_wd(
            st,
            crate::resolve::sp_dirname(path),
        ));
        let st1 = crate::resolve::sp_bind_args(args, 0, entered);
        frame_bind_args(args, 0, entered);
        frame_launch_kids(docs[path], 0, docs, st1, fuel);
    }
}

/// Binding caller arguments touches only the innermost scope.
pub proof fn frame_bind_args(args: Seq<(Seq<char>, Seq<char>)>, i: int, st: SpecState)
    requires
        crate::state::sp_state_wf(st),
    ensures
        ({
            let st2 = crate::resolve::sp_bind_args(args, i, st);
            {
                &&& st2.scopes.len() == st.scopes.len()
                &&& forall|k: int| 0 <= k < st.scopes.len() - 1 ==> st2.scopes[k] == st.scopes[k]
                &&& st2.work_dirs == st.work_dirs
                &&& st2.execs == st.execs
                &&& st2.nodes == st.nodes
                &&& st2.base_env == st.base_env
                &&& st2.packages == st.packages
                &&& st2.run_id == st.run_id
            }
        }),
    decreases args.len() - i,
{
    if 0 <= i < args.len() {
        frame_bind_args(args, i + 1, sp_insert_var(st, args[i].0, args[i].1));
    }
}

/// A successful run over a document's children keeps the step frame.
pub proof fn frame_launch_kids(
    doc: Launch,
    i: int,
    docs: Map<Seq<char>, Launch>,
    st: SpecState,
    fuel: nat,
)
    requires
        crate::state::sp_state_wf(st),
    ensures
        crate::resolve::sp_launch_kids(doc, i, docs, st, fuel) matches Ok(st2) ==> frame_ok(
            st,
            st2,
        ) && crate::state::sp_state_wf(st2),
    decreases fuel, 1 + crate::resolve::sz_launch_from(doc, i),
{
    if 0 <= i < doc.children@.len() {
        frame_child(doc.children@[i], docs, st, fuel);
        let step = sp_child(doc.children@[i], docs, st, fuel);
        if step is Ok {
            frame_launch_kids(doc, i + 1, docs, step->Ok_0, fuel);
        }
    }
}

/// A successful root directive keeps the step frame.
pub proof fn frame_child(
    c: crate::schema::LaunchChild,
    docs: Map<Seq<char>, Launch>,
    st: SpecState,
    fuel: nat,
)
    requires
        crate::state::sp_state_wf(st),
    ensures
        sp_child(c, docs, st, fuel) matches Ok(st2) ==> frame_ok(st, st2)
            && crate::state::sp_state_wf(st2),
    decreases fuel, crate::resolve::sz_child(c),
{
    match c {
        crate::schema::LaunchChild::Group(g) => {
            frame_do_group(g, docs, st, fuel);
        },
        crate::schema::LaunchChild::Include(inc) => {
            frame_do_include(inc, docs, st, fuel);
        },
        _ => {},
    }
}

/// A successful group keeps the step frame; a scoped group restores the
/// scope stack exactly.
pub proof fn frame_do_group(g: Group, docs: Map<Seq<char>, Launch>, st: SpecState, fuel: nat)
    requires
        crate::state::sp_state_wf(st),
    ensures
        sp_do_group(g, docs, st, fuel) matches Ok(st2) ==> frame_ok(st, st2)
            && crate::state::sp_state_wf(st2),
        g.scoped == Option::Some(true) ==> (sp_do_group(g, docs, st, fuel) matches Ok(st2)
            ==> st2.scopes =~= st.scopes),
    decreases fuel, crate::resolve::sz_group(g),
{
    let r = sp_do_group(g, docs, st, fuel);
    if r is Ok {
        let gate = sp_eval_if_unless(opt_view(g.if_cond), opt_view(g.unless), st);
        if gate == Ok::<bool, SpecErr>(true) {
            if g.scoped == Option::Some(true) {
                let pushed = crate::state::sp_push_scope(st);
                frame_group_kids(g, 0, docs, pushed, fuel);
            } else {
                frame_group_kids(g, 0, docs, st, fuel);
            }
        }
    }
}

/// A successful run over a group's children keeps the step frame.
pub proof fn frame_group_kids(g: Group, i: int, docs: Map<Seq<char>, Launch>, st: SpecState, fuel: nat)
    requires
        crate::state::sp_state_wf(st),
    ensures
        crate::resolve::sp_group_kids(g, i, docs, st, fuel) matches Ok(st2) ==> frame_ok(st, st2)
            && crate::state::sp_state_wf(st2),
    decreases fuel, crate::resolve::sz_group_from(g, i),
{
    if 0 <= i < g.children@.len() {
        frame_gchild(g.children@[i], docs, st, fuel);
        let step = sp_gchild(g.children@[i], docs, st, fuel);
        if step is Ok {
            frame_group_kids(g, i + 1, docs, step->Ok_0, fuel);
        }
    }
}

/// A successful group directive keeps the step frame.
pub proof fn frame_gchild(
    c: GroupChild,
    docs: Map<Seq<char>, Launch>,
    st: SpecState,
    fuel: nat,
)
    requires
        crate::state::sp_state_wf(st),
    ensures
        sp_gchild(c, docs, st, fuel) matches Ok(st2) ==> frame_ok(st, st2)
            && crate::state::sp_state_wf(st2),
    decreases fuel, crate::resolve::sz_gchild(c),
{
    match c {
        GroupChild::Group(g) => {
            frame_do_group(g, docs, st, fuel);
        },
        GroupChild::Include(inc) => {
            frame_do_include(inc, docs, st, fuel);
        },
        _ => {},
    }
}

/// A successful inclusion keeps the step frame.
pub proof fn frame_do_include(
    inc: crate::schema::Include,
    docs: Map<Seq<char>, Launch>,
    st: SpecState,
    fuel: nat,
)
    requires
        crate::state::sp_state_wf(st),
    ensures
        crate::resolve::sp_do_include(inc, docs, st, fuel) matches Ok(st2) ==> frame_ok(st, st2)
            && crate::state::sp_state_wf(st2),
    decreases fuel, 0int,
{
    let r = crate::resolve::sp_do_include(inc, docs, st, fuel);
    if r is Ok && fuel > 0 {
        let gate = sp_eval_if_unless(opt_view(inc.if_cond), opt_view(inc.unless), st);
        if gate == Ok::<bool, SpecErr>(true) {
            let pr = crate::state::sp_eval(inc.file@, st);
            if pr is Ok {
                let ar = crate::resolve::sp_include_args(inc.arg@, 0, st);
                if ar is Ok {
                    frame_load_document(
                        docs,
                        crate::resolve::sp_join(crate::state::sp_cwd(st), pr->Ok_0),
                        ar->Ok_0,
                        st,
                        (fuel - 1) as nat,
                    );
                }
            }
        }
    }
}

/// Scoped-group isolation in general: whatever a scoped group's children
/// bind or overlay, a successful group leaves the whole scope stack — the
/// enclosing variables and environment overlays — exactly as it found it.
/// A sibling after the group sees none of it.
pub proof fn lemma_scoped_group_isolated(
    g: Group,
    docs: Map<Seq<char>, Launch>,
    st: SpecState,
    fuel: nat,
)
    requires
        crate::state::sp_state_wf(st),
        g.scoped == Option::Some(true),
    ensures
        sp_do_group(g, docs, st, fuel) matches Ok(st2) ==> {
            &&& st2.scopes =~= st.scopes
            &&& st2.work_dirs == st.work_dirs
            &&& st2.base_env == st.base_env
        },
{
    frame_do_group(g, docs, st, fuel);
}

/// Ordering is append-only: a successful step never removes or reorders
/// records already accumulated — it only appends its own contribution, so
/// the profile lists records in traversal order.
pub proof fn lemma_records_append_only(
    c: crate::schema::LaunchChild,
    docs: Map<Seq<char>, Launch>,
    st: SpecState,
    fuel: nat,
)
    requires
        crate::state::sp_state_wf(st),
    ensures
        sp_child(c, docs, st, fuel) matches Ok(st2) ==> seq_prefix(st.execs, st2.execs)
            && seq_prefix(st.nodes, st2.nodes),
{
    frame_child(c, docs, st, fuel);
}


/// `anon` names never collide: for underscore-free run identifiers, two
/// generated names are equal only when both the name and the run identifier
/// are equal — distinct names within a run, and any names across distinct
/// runs, stay apart. Within one run the generator is a pure function of the
/// name, so repeated calls with one name agree.
pub proof fn lemma_anon_names_distinct(
    n1: Seq<char>,
    r1: Seq<char>,
    n2: Seq<char>,
    r2: Seq<char>,
)
    requires
        crate::state::plain_run_id(r1),
        crate::state::plain_run_id(r2),
        crate::state::sp_anon_name(n1, r1) == crate::state::sp_anon_name(n2, r2),
    ensures
        n1 == n2,
        r1 == r2,
{
    let s = crate::state::sp_anon_name(n1, r1);
    assert(s.len() == n1.len() + 1 + r1.len());
    assert(s.len() == n2.len() + 1 + r2.len());
    assert(s[n1.len() as int] == '_');
    assert(s[n2.len() as int] == '_');
    if n1.len() < n2.len() {
        assert(s[n2.len() as int] == r1[n2.len() - n1.len() - 1]);
        assert(false);
    }
    if n2.len() < n1.len() {
        assert(s[n1.len() as int] == r2[n1.len() - n2.len() - 1]);
        assert(false);
    }
    assert(n1 =~= n2) by {
        assert forall|k: int| 0 <= k < n1.len() implies n1[k] == n2[k] by {
            assert(n1[k] == s[k]);
            assert(n2[k] == s[k]);
        }
    }
    assert(r1 =~= r2) by {
        assert forall|k: int| 0 <= k < r1.len() implies r1[k] == r2[k] by {
            assert(r1[k] == s[n1.len() + 1 + k]);
            assert(r2[k] == s[n2.len() + 1 + k]);
        }
    }
}


/// Cross-format round trip: two entry paths, one ending `.xml` and one
/// `.yaml`, that denote the same in-memory document and lie in the same
/// directory resolve to identical profiles — or identical errors — under
/// identical caller arguments, environment, registry, run identifier and
/// depth budget. The two serialization adapters need only agree on the
/// document value. (With different directories, `$(dirname)` may
/// legitimately expand differently.)
pub proof fn lemma_cross_format_round_trip(
    docs: Map<Seq<char>, Launch>,
    xml_path: Seq<char>,
    yaml_path: Seq<char>,
    args: Seq<(Seq<char>, Seq<char>)>,
    base_env: Map<Seq<char>, Seq<char>>,
    packages: Map<Seq<char>, Seq<char>>,
    run_id: Seq<char>,
    fuel: nat,
)
    requires
        crate::resolve::sp_ends_with(xml_path, ".xml"@),
        crate::resolve::sp_ends_with(yaml_path, ".yaml"@),
        docs.contains_key(xml_path),
        docs.contains_key(yaml_path),
        docs[xml_path] == docs[yaml_path],
        crate::resolve::sp_dirname(xml_path) == crate::resolve::sp_dirname(yaml_path),
    ensures
        crate::resolve::sp_resolve(docs, xml_path, args, base_env, packages, run_id, fuel)
            == crate::resolve::sp_resolve(docs, yaml_path, args, base_env, packages, run_id, fuel),
{
    let st0 = SpecState {
        work_dirs: Seq::empty(),
        scopes: Seq::empty(),
        execs: Seq::empty(),
        nodes: Seq::empty(),
        base_env,
        packages,
        run_id,
    };
    let entered = crate::resolve::sp_bind_args(
        args,
        0,
        crate::state::sp_push_scope(
            crate::state::sp_push_wd(st0, crate::resolve::sp_dirname(xml_path)),
        ),
    );
    assert(crate::resolve::sp_load_document(docs, xml_path, args, st0, fuel) == (
    match crate::resolve::sp_launch_kids(docs[xml_path], 0, docs, entered, fuel) {
        Ok(st2) => Ok::<SpecState, SpecErr>(crate::state::sp_pop_wd(crate::state::sp_pop_scope(st2))),
        Err(e) => Err::<SpecState, SpecErr>(e),
    }));
    assert(crate::resolve::sp_load_document(docs, yaml_path, args, st0, fuel) == (
    match crate::resolve::sp_launch_kids(docs[yaml_path], 0, docs, entered, fuel) {
        Ok(st2) => Ok::<SpecState, SpecErr>(crate::state::sp_pop_wd(crate::state::sp_pop_scope(st2))),
        Err(e) => Err::<SpecState, SpecErr>(e),
    }));
}

/// The ordering instance the spec names, composed over any document of
/// three directives: when the first contributes one executable record, the
/// second (an inclusion, say) contributes one node record, and the third
/// contributes one more executable record, the resolved accumulators hold
/// the executables as [first, third] and the node between them in traversal
/// order — the inclusion's contribution sits exactly at its position.
pub proof fn lemma_ordering_instance(
    doc: Launch,
    docs: Map<Seq<char>, Launch>,
    st: SpecState,
    fuel: nat,
    st1: SpecState,
    st2: SpecState,
    st3: SpecState,
    ra: crate::profile::SpecExecRecord,
    rn: crate::profile::SpecNodeRecord,
    rb: crate::profile::SpecExecRecord,
)
    requires
        doc.children@.len() == 3,
        sp_child(doc.children@[0], docs, st, fuel) == Ok::<SpecState, SpecErr>(st1),
        st1.execs == st.execs.push(ra),
        st1.nodes == st.nodes,
        sp_child(doc.children@[1], docs, st1, fuel) == Ok::<SpecState, SpecErr>(st2),
        st2.execs == st1.execs,
        st2.nodes == st1.nodes.push(rn),
        sp_child(doc.children@[2], docs, st2, fuel) == Ok::<SpecState, SpecErr>(st3),
        st3.execs == st2.execs.push(rb),
        st3.nodes == st2.nodes,
    ensures
        crate::resolve::sp_launch_kids(doc, 0, docs, st, fuel) == Ok::<SpecState, SpecErr>(st3),
        st3.execs =~= st.execs + seq![ra, rb],
        st3.nodes =~= st.nodes.push(rn),
{
    assert(crate::resolve::sp_launch_kids(doc, 3, docs, st3, fuel) == Ok::<SpecState, SpecErr>(
        st3,
    ));
    assert(crate::resolve::sp_launch_kids(doc, 2, docs, st2, fuel) == Ok::<SpecState, SpecErr>(
        st3,
    ));
    assert(crate::resolve::sp_launch_kids(doc, 1, docs, st1, fuel) == Ok::<SpecState, SpecErr>(
        st3,
    ));
}

} // verus!
