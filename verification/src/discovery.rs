//! Mapping the server-advertised authentication flows into the ordered,
//! selectable list of login choices.

use vstd::prelude::*;

use crate::choices::ChoiceData;
use crate::choices::FlowData;
use crate::choices::IdentityProvider;
use crate::choices::LoginChoice;
use crate::choices::LoginFlow;
use crate::choices::ProviderData;
use crate::errors::LoginError;

verus! {

/// The choices one advertised flow contributes: a password flow contributes
/// the password choice; an SSO flow without identity providers contributes the
/// generic SSO choice, one with providers contributes one provider-scoped
/// choice per provider, in the server's order; token, application-service and
/// unknown flows contribute nothing.
pub open spec fn choices_of_flow(f: FlowData) -> Seq<ChoiceData> {
    match f {
        FlowData::Password => seq![ChoiceData::Password],
        FlowData::Sso(ps) => if ps.len() == 0 {
            seq![ChoiceData::Sso]
        } else {
            ps.map_values(|p: ProviderData| ChoiceData::SsoIdp(p))
        },
        FlowData::Token => Seq::empty(),
        FlowData::ApplicationService => Seq::empty(),
        FlowData::Other => Seq::empty(),
    }
}

/// The ordered choice list that a list of advertised flows maps to.
pub open spec fn choices_of(fs: Seq<FlowData>) -> Seq<ChoiceData>
    decreases fs.len(),
{
    if fs.len() == 0 {
        Seq::empty()
    } else {
        choices_of_flow(fs[0]) + choices_of(fs.drop_first())
    }
}

/// Discovery handles flows one at a time, in order.
pub proof fn lemma_choices_of_snoc(fs: Seq<FlowData>, f: FlowData)
    ensures
        choices_of(fs.push(f)) == choices_of(fs) + choices_of_flow(f),
    decreases fs.len(),
{
    if fs.len() == 0 {
        assert(fs.push(f).drop_first() =~= Seq::<FlowData>::empty());
        assert(fs.push(f)[0] == f);
        assert(choices_of(fs.push(f)) == choices_of_flow(f) + choices_of(Seq::<FlowData>::empty()));
        assert(choices_of_flow(f) + Seq::<ChoiceData>::empty() =~= choices_of_flow(f));
        assert(choices_of(fs) + choices_of_flow(f) =~= choices_of_flow(f));
    } else {
        assert(fs.push(f).drop_first() =~= fs.drop_first().push(f));
        assert(fs.push(f)[0] == fs[0]);
        lemma_choices_of_snoc(fs.drop_first(), f);
        assert(choices_of_flow(fs[0]) + (choices_of(fs.drop_first()) + choices_of_flow(f))
            =~= (choices_of_flow(fs[0]) + choices_of(fs.drop_first())) + choices_of_flow(f));
    }
}

/// Whether two choices offer the same thing: the same fixed variant, or SSO
/// through providers with the same id.
pub open spec fn same_choice(a: ChoiceData, b: ChoiceData) -> bool {
    match (a, b) {
        (ChoiceData::Password, ChoiceData::Password) => true,
        (ChoiceData::Sso, ChoiceData::Sso) => true,
        (ChoiceData::SsoIdp(p), ChoiceData::SsoIdp(q)) => p.id == q.id,
        _ => false,
    }
}

/// No two entries of the choice list offer the same thing.
pub open spec fn distinct_choices(cs: Seq<ChoiceData>) -> bool {
    forall|i: int, j: int| 0 <= i < j < cs.len() ==> !same_choice(cs[i], cs[j])
}

/// A well-formed server answer: it does not advertise the password flow or
/// the SSO flow twice, and no SSO flow repeats a provider id.
pub open spec fn flow_list_ok(fs: Seq<FlowData>) -> bool {
    (forall|i: int, j: int|
        0 <= i < j < fs.len() ==> !((#[trigger] fs[i]) is Password && (#[trigger] fs[j]) is Password))
        && (forall|i: int, j: int|
        0 <= i < j < fs.len() ==> !((#[trigger] fs[i]) is Sso && (#[trigger] fs[j]) is Sso))
        && (forall|i: int|
        0 <= i < fs.len() ==> ((#[trigger] fs[i]) is Sso ==> distinct_provider_ids(fs[i]->Sso_0)))
}

/// No provider id occurs twice.
pub open spec fn distinct_provider_ids(ps: Seq<ProviderData>) -> bool {
    forall|i: int, j: int| 0 <= i < j < ps.len() ==> (#[trigger] ps[i]).id != (#[trigger] ps[j]).id
}

/// Discovery yields a choice exactly when the server advertises a password or
/// SSO flow; a list of only token, application-service and unknown flows
/// yields none, and is the case the discoverer rejects.
pub proof fn lemma_discovery_yield(fs: Seq<FlowData>)
    ensures
        choices_of(fs).len() > 0 <==> exists|i: int|
            0 <= i < fs.len() && ((#[trigger] fs[i]) is Password || fs[i] is Sso),
    decreases fs.len(),
{
    if fs.len() > 0 {
        lemma_discovery_yield(fs.drop_first());
        if fs[0] is Password || fs[0] is Sso {
            assert(choices_of_flow(fs[0]).len() > 0);
        } else {
            assert(choices_of_flow(fs[0]).len() == 0);
            if choices_of(fs.drop_first()).len() > 0 {
                let t = fs.drop_first();
                let i = choose|i: int|
                    0 <= i < t.len() && ((#[trigger] t[i]) is Password || t[i] is Sso);
                assert(fs[i + 1] == t[i]);
            }
            if exists|i: int| 0 <= i < fs.len() && ((#[trigger] fs[i]) is Password || fs[i] is Sso) {
                let i = choose|i: int|
                    0 <= i < fs.len() && ((#[trigger] fs[i]) is Password || fs[i] is Sso);
                assert(fs.drop_first()[i - 1] == fs[i]);
            }
        }
    }
}

/// Every choice discovery emits traces back to a flow of its kind: the
/// password choice to a password flow, and both SSO choices to an SSO flow.
pub proof fn lemma_choice_origin(fs: Seq<FlowData>)
    ensures
        forall|k: int|
            0 <= k < choices_of(fs).len() ==> match #[trigger] choices_of(fs)[k] {
                ChoiceData::Password => exists|i: int| 0 <= i < fs.len() && (#[trigger] fs[i]) is Password,
                ChoiceData::Sso => exists|i: int| 0 <= i < fs.len() && (#[trigger] fs[i]) is Sso,
                ChoiceData::SsoIdp(_) => exists|i: int| 0 <= i < fs.len() && (#[trigger] fs[i]) is Sso,
            },
    decreases fs.len(),
{
    if fs.len() > 0 {
        lemma_choice_origin(fs.drop_first());
        let head = choices_of_flow(fs[0]);
        let tail = choices_of(fs.drop_first());
        assert forall|k: int| 0 <= k < choices_of(fs).len() implies match #[trigger] choices_of(
            fs,
        )[k] {
            ChoiceData::Password => exists|i: int|
                0 <= i < fs.len() && (#[trigger] fs[i]) is Password,
            ChoiceData::Sso => exists|i: int| 0 <= i < fs.len() && (#[trigger] fs[i]) is Sso,
            ChoiceData::SsoIdp(_) => exists|i: int| 0 <= i < fs.len() && (#[trigger] fs[i]) is Sso,
        } by {
            if k < head.len() {
                assert(choices_of(fs)[k] == head[k]);
                match fs[0] {
                    FlowData::Password => {
                        assert(fs[0] is Password);
                    },
                    FlowData::Sso(ps) => {
                        assert(fs[0] is Sso);
                    },
                    _ => {},
                }
            } else {
                let t = fs.drop_first();
                assert(choices_of(fs)[k] == tail[k - head.len()]);
                match tail[k - head.len()] {
                    ChoiceData::Password => {
                        let i = choose|i: int| 0 <= i < t.len() && (#[trigger] t[i]) is Password;
                        assert(fs[i + 1] == t[i]);
                    },
                    ChoiceData::Sso => {
                        let i = choose|i: int| 0 <= i < t.len() && (#[trigger] t[i]) is Sso;
                        assert(fs[i + 1] == t[i]);
                    },
                    ChoiceData::SsoIdp(_) => {
                        let i = choose|i: int| 0 <= i < t.len() && (#[trigger] t[i]) is Sso;
                        assert(fs[i + 1] == t[i]);
                    },
                }
            }
        }
    }
}

/// A well-formed server answer yields a duplicate-free choice list.
pub proof fn lemma_discovery_distinct(fs: Seq<FlowData>)
    requires
        flow_list_ok(fs),
    ensures
        distinct_choices(choices_of(fs)),
    decreases fs.len(),
{
    if fs.len() > 0 {
        let t = fs.drop_first();
        assert(forall|i: int| 0 <= i < t.len() ==> #[trigger] t[i] == fs[i + 1]);
        assert(flow_list_ok(t));
        lemma_discovery_distinct(t);
        lemma_choice_origin(t);
        let head = choices_of_flow(fs[0]);
        let tail = choices_of(t);
        let cs = choices_of(fs);
        assert forall|i: int, j: int| 0 <= i < j < cs.len() implies !same_choice(
            cs[i],
            cs[j],
        ) by {
            if j < head.len() {
                // both inside the head flow's contribution
                match fs[0] {
                    FlowData::Sso(ps) => {
                        assert(ps.len() > 0);
                        assert(head[i] == ChoiceData::SsoIdp(ps[i]));
                        assert(head[j] == ChoiceData::SsoIdp(ps[j]));
                        assert(distinct_provider_ids(ps));
                    },
                    _ => {},
                }
            } else if i >= head.len() {
                assert(cs[i] == tail[i - head.len()]);
                assert(cs[j] == tail[j - head.len()]);
            } else {
                // one from the head flow, one from the rest
                let a = cs[i];
                let b = tail[j - head.len()];
                assert(cs[j] == b);
                if same_choice(a, b) {
                    match fs[0] {
                        FlowData::Password => {
                            assert(a is Password);
                            assert(b is Password);
                            let m = choose|m: int|
                                0 <= m < t.len() && (#[trigger] t[m]) is Password;
                            assert(fs[m + 1] == t[m]);
                            assert(false);
                        },
                        FlowData::Sso(ps) => {
                            assert(b is Sso || b is SsoIdp);
                            let m = choose|m: int| 0 <= m < t.len() && (#[trigger] t[m]) is Sso;
                            assert(fs[m + 1] == t[m]);
                            assert(false);
                        },
                        _ => {
                            assert(false);
                        },
                    }
                }
            }
        }
    }
}

/// An SSO flow with providers yields exactly one provider-scoped choice per
/// provider, in the server's order, and never the bare SSO choice.
pub proof fn lemma_sso_flow_choices(ps: Seq<ProviderData>)
    requires
        ps.len() >= 1,
    ensures
        choices_of(seq![FlowData::Sso(ps)]).len() == ps.len(),
        forall|k: int|
            0 <= k < ps.len() ==> choices_of(seq![FlowData::Sso(ps)])[k] == ChoiceData::SsoIdp(
                ps[k],
            ),
        forall|k: int| 0 <= k < ps.len() ==> !(#[trigger] choices_of(seq![FlowData::Sso(ps)])[k] is Sso),
{
    let fs = seq![FlowData::Sso(ps)];
    assert(fs.drop_first() =~= Seq::<FlowData>::empty());
    assert(fs.len() == 1);
    assert(choices_of(fs) == choices_of_flow(fs[0]) + choices_of(Seq::<FlowData>::empty()));
    assert(choices_of(Seq::<FlowData>::empty()) =~= Seq::<ChoiceData>::empty());
    assert(choices_of_flow(fs[0]) + Seq::<ChoiceData>::empty() =~= choices_of_flow(fs[0]));
    assert(fs[0] == FlowData::Sso(ps));
}

/// Queries mapped into choices: for each reported flow, in order, emit what it
/// contributes; fail with `NoCompatibleLoginMethod` exactly when nothing
/// selectable was advertised.
pub fn discover_choices(flows: &Vec<LoginFlow>) -> (r: Result<Vec<LoginChoice>, LoginError>)
    ensures
        match r {
            Ok(cs) => cs.deep_view() == choices_of(flows.deep_view()) && cs.len() > 0,
            Err(e) => e == LoginError::NoCompatibleLoginMethod && choices_of(
                flows.deep_view(),
            ).len() == 0,
        },
{
    let ghost fsv = flows.deep_view();
    let mut out: Vec<LoginChoice> = Vec::new();
    let n = flows.len();
    let mut i: usize = 0;
    proof {
        assert(fsv.take(0) =~= Seq::<FlowData>::empty());
        assert(out.deep_view() =~= choices_of(fsv.take(0)));
    }
    while i < n
        invariant
            i <= n == flows.len(),
            fsv == flows.deep_view(),
            fsv.len() == n,
            out.deep_view() == choices_of(fsv.take(i as int)),
        decreases n - i,
    {
        proof {
            lemma_choices_of_snoc(fsv.take(i as int), fsv[i as int]);
            assert(fsv.take(i as int + 1) =~= fsv.take(i as int).push(fsv[i as int]));
        }
        let flow = &flows[i];
        proof {
            assert(flow.deep_view() == fsv[i as int]);
        }
        match flow {
            LoginFlow::Password => {
                out.push(LoginChoice::Password);
                proof {
                    assert(out.deep_view() =~= choices_of(fsv.take(i as int)) + seq![
                        ChoiceData::Password,
                    ]);
                }
            },
            LoginFlow::Sso(ps) => {
                let ghost psv = ps.deep_view();
                if ps.len() == 0 {
                    out.push(LoginChoice::Sso);
                    proof {
                        assert(psv.len() == 0);
                        assert(out.deep_view() =~= choices_of(fsv.take(i as int)) + seq![
                            ChoiceData::Sso,
                        ]);
                    }
                } else {
                    let m = ps.len();
                    let mut j: usize = 0;
                    proof {
                        assert(out.deep_view() =~= choices_of(fsv.take(i as int)) + psv.take(
                            0,
                        ).map_values(|p: ProviderData| ChoiceData::SsoIdp(p)));
                    }
                    while j < m
                        invariant
                            j <= m == ps.len(),
                            psv == ps.deep_view(),
                            psv.len() == m,
                            fsv == flows.deep_view(),
                            out.deep_view() == choices_of(fsv.take(i as int)) + psv.take(
                                j as int,
                            ).map_values(|p: ProviderData| ChoiceData::SsoIdp(p)),
                        decreases m - j,
                    {
                        let provider = ps[j].clone();
                        proof {
                            assert(provider.deep_view() == psv[j as int]);
                        }
                        out.push(LoginChoice::SsoIdp(provider));
                        proof {
                            assert(psv.take(j as int + 1) =~= psv.take(j as int).push(
                                psv[j as int],
                            ));
                            assert(psv.take(j as int + 1).map_values(
                                |p: ProviderData| ChoiceData::SsoIdp(p),
                            ) =~= psv.take(j as int).map_values(
                                |p: ProviderData| ChoiceData::SsoIdp(p),
                            ).push(ChoiceData::SsoIdp(psv[j as int])));
                            assert(out.deep_view() =~= (choices_of(fsv.take(i as int)) + psv.take(
                                j as int,
                            ).map_values(|p: ProviderData| ChoiceData::SsoIdp(p))).push(
                                ChoiceData::SsoIdp(psv[j as int]),
                            ));
                            assert((choices_of(fsv.take(i as int)) + psv.take(j as int).map_values(
                                |p: ProviderData| ChoiceData::SsoIdp(p),
                            )).push(ChoiceData::SsoIdp(psv[j as int])) =~= choices_of(fsv.take(
                                i as int,
                            )) + psv.take(j as int + 1).map_values(
                                |p: ProviderData| ChoiceData::SsoIdp(p),
                            ));
                        }
                        j = j + 1;
                    }
                    proof {
                        assert(psv.take(m as int) =~= psv);
                    }
                }
            },
            LoginFlow::Token => {
                proof {
                    assert(out.deep_view() =~= choices_of(fsv.take(i as int)) + Seq::<
                        ChoiceData,
                    >::empty());
                }
            },
            LoginFlow::ApplicationService => {
                proof {
                    assert(out.deep_view() =~= choices_of(fsv.take(i as int)) + Seq::<
                        ChoiceData,
                    >::empty());
                }
            },
            LoginFlow::Other => {
                proof {
                    assert(out.deep_view() =~= choices_of(fsv.take(i as int)) + Seq::<
                        ChoiceData,
                    >::empty());
                }
            },
        }
        i = i + 1;
    }
    proof {
        assert(fsv.take(n as int) =~= fsv);
    }
    if out.len() == 0 {
        Err(LoginError::NoCompatibleLoginMethod)
    } else {
        Ok(out)
    }
}

} // verus!
