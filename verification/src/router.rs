//! Backend routing: a configuration is checked once, in order, and its
//! model aliases become the routes that chat threads name.
use vstd::prelude::*;

use crate::error::{invalid_request, plain_error, GatewayError, GatewayErrorKind};
use crate::text::{concat3, concat5, is_blank, is_blank_seq, str_eq, trim, trim_seq};
use crate::types::{chat_capability_id, default_route_alias, AIGatewayConfig, BackendProfile, ModelTarget};

verus! {

/// One route: an alias and the backend and model it names.
pub struct AliasEntry {
    pub alias: String,
    pub target: ModelTarget,
}

/// An alias, its backend id and its model id.
pub type AliasView = (Seq<char>, Seq<char>, Seq<char>);

pub open spec fn alias_views(entries: Seq<AliasEntry>) -> Seq<AliasView> {
    entries.map_values(|e: AliasEntry| (e.alias@, e.target.backend_id@, e.target.model_id@))
}

/// The backend and model of the first route named `alias`.
pub open spec fn alias_lookup(t: Seq<AliasView>, alias: Seq<char>) -> Option<(Seq<char>, Seq<char>)>
    decreases t.len(),
{
    if t.len() == 0 {
        None
    } else if t[0].0 == alias {
        Some((t[0].1, t[0].2))
    } else {
        alias_lookup(t.drop_first(), alias)
    }
}

pub open spec fn has_alias(t: Seq<AliasView>, alias: Seq<char>) -> bool {
    alias_lookup(t, alias) is Some
}

/// The routes of a model's aliases, added to `table` in order; the first
/// blank or already taken alias is an error.
pub open spec fn scan_aliases(
    backend_id: Seq<char>,
    model_id: Seq<char>,
    aliases: Seq<String>,
    k: int,
    table: Seq<AliasView>,
) -> Result<Seq<AliasView>, Seq<char>>
    decreases aliases.len() - k,
{
    if k < 0 || k >= aliases.len() {
        Ok(table)
    } else {
        let t = trim_seq(aliases[k]@);
        if t.len() == 0 {
            Err("backend '"@ + backend_id + "' model '"@ + model_id + "' contains empty alias"@)
        } else if has_alias(table, t) {
            Err("duplicate alias '"@ + t + "' in ai_gateway.backends"@)
        } else {
            scan_aliases(backend_id, model_id, aliases, k + 1, table.push((t, backend_id, model_id)))
        }
    }
}

/// The models of one backend, from the `j`-th on: ids must be non-blank
/// and distinct, and their aliases are added to the routes.
pub open spec fn scan_models(
    b: BackendProfile,
    j: int,
    seen: Seq<Seq<char>>,
    table: Seq<AliasView>,
) -> Result<Seq<AliasView>, Seq<char>>
    decreases b.models@.len() - j,
{
    if j < 0 || j >= b.models@.len() {
        Ok(table)
    } else {
        let m = b.models@[j];
        if is_blank_seq(m.id@) {
            Err("backend '"@ + b.id@ + "' contains empty model id"@)
        } else if seen.contains(m.id@) {
            Err("backend '"@ + b.id@ + "' has duplicate model id '"@ + m.id@ + "'"@)
        } else {
            match scan_aliases(b.id@, m.id@, m.aliases@, 0, table) {
                Err(e) => Err(e),
                Ok(t2) => scan_models(b, j + 1, seen.push(m.id@), t2),
            }
        }
    }
}

/// The backends from the `i`-th on.
pub open spec fn scan_backends(
    bs: Seq<BackendProfile>,
    i: int,
    table: Seq<AliasView>,
    ids: Seq<Seq<char>>,
) -> Result<Seq<AliasView>, Seq<char>>
    decreases bs.len() - i,
{
    if i < 0 || i >= bs.len() {
        Ok(table)
    } else {
        let b = bs[i];
        if b.models@.len() == 0 {
            Err("backend '"@ + b.id@ + "' must define at least one model"@)
        } else {
            match scan_models(b, 0, Seq::empty(), table) {
                Err(e) => Err(e),
                Ok(t2) => if ids.contains(b.id@) {
                    Err("duplicate backend id '"@ + b.id@ + "' in ai_gateway.backends"@)
                } else {
                    scan_backends(bs, i + 1, t2, ids.push(b.id@))
                },
            }
        }
    }
}

/// What a configuration's backends give: the route table, or the message of
/// the first problem found.
pub open spec fn router_outcome(bs: Seq<BackendProfile>) -> Result<Seq<AliasView>, Seq<char>> {
    if bs.len() == 0 {
        Err("ai_gateway.backends must not be empty"@)
    } else {
        match scan_backends(bs, 0, Seq::empty(), Seq::empty()) {
            Err(e) => Err(e),
            Ok(t) => if has_alias(t, default_route_alias()) {
                Ok(t)
            } else {
                Err("ai_gateway.backends must define alias 'default' on some model"@)
            },
        }
    }
}

/// The position of the first backend with id `id`, from the `i`-th on.
pub open spec fn backend_index_from(bs: Seq<BackendProfile>, id: Seq<char>, i: int) -> Option<int>
    decreases bs.len() - i,
{
    if i < 0 || i >= bs.len() {
        None
    } else if bs[i].id@ == id {
        Some(i)
    } else {
        backend_index_from(bs, id, i + 1)
    }
}

pub open spec fn backend_index(bs: Seq<BackendProfile>, id: Seq<char>) -> Option<int> {
    backend_index_from(bs, id, 0)
}

pub open spec fn has_model(b: BackendProfile, model_id: Seq<char>) -> bool {
    exists|j: int| 0 <= j < b.models@.len() && #[trigger] b.models@[j].id@ == model_id
}

pub open spec fn ids_unique(bs: Seq<BackendProfile>) -> bool {
    forall|p: int, q: int| 0 <= p < q < bs.len() ==> bs[p].id@ != bs[q].id@
}

/// Route names are distinct and none is empty.
pub open spec fn routes_well_named(t: Seq<AliasView>) -> bool {
    &&& forall|p: int, q: int| 0 <= p < q < t.len() ==> t[p].0 != t[q].0
    &&& forall|p: int| 0 <= p < t.len() ==> (#[trigger] t[p]).0.len() > 0
}

/// Every route names a backend of the list and one of its models.
pub open spec fn routes_reach(t: Seq<AliasView>, bs: Seq<BackendProfile>) -> bool {
    forall|p: int| 0 <= p < t.len() ==> reaches(bs, #[trigger] t[p])
}

/// A route names a backend of the list and one of its models.
pub open spec fn reaches(bs: Seq<BackendProfile>, e: AliasView) -> bool {
    exists|k: int| 0 <= k < bs.len() && #[trigger] bs[k].id@ == e.1 && has_model(bs[k], e.2)
}

pub struct BackendRouter {
    backends: Vec<BackendProfile>,
    route_aliases: Vec<AliasEntry>,
}

pub struct SelectedBackend {
    pub backend_id: String,
    pub profile: BackendProfile,
    pub resolved_model: String,
}

#[derive(Debug)]
pub struct ChatRouteAlias {
    pub capability: String,
    pub alias: String,
}

#[derive(Debug)]
pub struct ChatRouteKey {
    pub capability: String,
    pub binding_id: String,
}

#[derive(Debug)]
pub enum ChatRouteRef {
    Alias(ChatRouteAlias),
    Key(ChatRouteKey),
}

impl ChatRouteAlias {
    /// The chat capability's default route.
    pub fn default_chat() -> (a: ChatRouteAlias)
        ensures
            a.capability@ == chat_capability_id(),
            a.alias@ == default_route_alias(),
    {
        ChatRouteAlias {
            capability: String::from_str("chat"),
            alias: String::from_str("default"),
        }
    }
}

/// Where a route reference leads: the backend id and model id, or the
/// message of the error.
pub open spec fn alias_outcome(
    t: Seq<AliasView>,
    capability: Seq<char>,
    alias: Seq<char>,
) -> Result<(Seq<char>, Seq<char>), Seq<char>> {
    if capability != chat_capability_id() {
        Err("unsupported capability '"@ + capability + "' in route alias; expected 'chat'"@)
    } else if trim_seq(alias).len() == 0 {
        Err("route alias cannot be empty"@)
    } else {
        match alias_lookup(t, trim_seq(alias)) {
            Some(target) => Ok(target),
            None => Err("unknown route alias '"@ + trim_seq(alias)
                + "'; expected one configured chat alias"@),
        }
    }
}

pub open spec fn key_outcome(
    t: Seq<AliasView>,
    capability: Seq<char>,
    binding_id: Seq<char>,
) -> Result<(Seq<char>, Seq<char>), Seq<char>> {
    if capability != chat_capability_id() {
        Err("unsupported capability '"@ + capability + "' in route key; expected 'chat'"@)
    } else if trim_seq(binding_id).len() == 0 {
        Err("route key binding_id cannot be empty"@)
    } else {
        match alias_lookup(t, trim_seq(binding_id)) {
            Some(target) => Ok(target),
            None => Err("unknown route key binding_id '"@ + trim_seq(binding_id)
                + "'; expected one configured chat binding selector"@),
        }
    }
}

/// Where a target leads: the index of its backend, or the error message.
pub open spec fn target_outcome(
    bs: Seq<BackendProfile>,
    backend_id: Seq<char>,
    model_id: Seq<char>,
) -> Result<int, Seq<char>> {
    match backend_index(bs, backend_id) {
        None => Err("selected backend '"@ + backend_id + "' does not exist"@),
        Some(k) => if has_model(bs[k], model_id) {
            Ok(k)
        } else {
            Err("selected model '"@ + model_id + "' does not exist on backend '"@ + backend_id
                + "'"@)
        },
    }
}

/// The whole selection: the backend index and model id, or the message.
pub open spec fn route_outcome(
    t: Seq<AliasView>,
    bs: Seq<BackendProfile>,
    route_ref: Option<ChatRouteRef>,
) -> Result<(int, Seq<char>), Seq<char>> {
    let target = match route_ref {
        Some(ChatRouteRef::Alias(a)) => alias_outcome(t, a.capability@, a.alias@),
        Some(ChatRouteRef::Key(k)) => key_outcome(t, k.capability@, k.binding_id@),
        None => alias_outcome(t, chat_capability_id(), default_route_alias()),
    };
    match target {
        Err(e) => Err(e),
        Ok((bid, mid)) => match target_outcome(bs, bid, mid) {
            Err(e) => Err(e),
            Ok(k) => Ok((k, mid)),
        },
    }
}

proof fn lemma_alias_lookup_push(t: Seq<AliasView>, e: AliasView, a: Seq<char>)
    ensures
        alias_lookup(t.push(e), a) == if alias_lookup(t, a) is Some {
            alias_lookup(t, a)
        } else if e.0 == a {
            Some((e.1, e.2))
        } else {
            None
        },
    decreases t.len(),
{
    if t.len() > 0 {
        assert(t.push(e).drop_first() =~= t.drop_first().push(e));
        assert(t.push(e)[0] == t[0]);
        lemma_alias_lookup_push(t.drop_first(), e, a);
    } else {
        assert(t.push(e).drop_first() =~= Seq::<AliasView>::empty());
        assert(t.push(e)[0] == e);
        assert(alias_lookup(Seq::<AliasView>::empty(), a) is None);
    }
}

proof fn lemma_alias_lookup_found(t: Seq<AliasView>, a: Seq<char>)
    ensures
        alias_lookup(t, a) is Some <==> exists|p: int| 0 <= p < t.len() && (#[trigger] t[p]).0 == a,
        alias_lookup(t, a) matches Some(v) ==> exists|p: int|
            0 <= p < t.len() && (#[trigger] t[p]).0 == a && v == (t[p].1, t[p].2),
    decreases t.len(),
{
    if t.len() > 0 {
        lemma_alias_lookup_found(t.drop_first(), a);
        if t[0].0 != a {
            assert forall|p: int| 0 <= p < t.len() && (#[trigger] t[p]).0 == a implies exists|
                q: int,
            | 0 <= q < t.drop_first().len() && (#[trigger] t.drop_first()[q]).0 == a by {
                assert(t.drop_first()[p - 1] == t[p]);
            }
            if alias_lookup(t, a) is Some {
                let v = alias_lookup(t, a)->0;
                let q = choose|q: int|
                    0 <= q < t.drop_first().len() && (#[trigger] t.drop_first()[q]).0 == a && v == (
                        t.drop_first()[q].1,
                        t.drop_first()[q].2,
                    );
                assert(t[q + 1] == t.drop_first()[q]);
            }
        }
    }
}

proof fn lemma_backend_index_first(bs: Seq<BackendProfile>, id: Seq<char>, i: int, k: int)
    requires
        ids_unique(bs),
        0 <= i <= k < bs.len(),
        bs[k].id@ == id,
    ensures
        backend_index_from(bs, id, i) == Some(k),
    decreases k - i,
{
    if i < k {
        lemma_backend_index_first(bs, id, i + 1, k);
    }
}

proof fn lemma_backend_index_found(bs: Seq<BackendProfile>, id: Seq<char>, i: int)
    requires
        0 <= i,
    ensures
        backend_index_from(bs, id, i) matches Some(k) ==> i <= k < bs.len() && bs[k].id@ == id,
        backend_index_from(bs, id, i) is None ==> forall|k: int|
            i <= k < bs.len() ==> bs[k].id@ != id,
    decreases bs.len() - i,
{
    if i < bs.len() {
        lemma_backend_index_found(bs, id, i + 1);
    }
}


/// Adds the routes of one model's aliases to `table`, in order.
#[verifier::loop_isolation(false)]
fn check_aliases(backend_id: &String, model_id: &String, aliases: &Vec<String>, table: &mut Vec<AliasEntry>) -> (r: Result<(), String>)
    requires
        routes_well_named(alias_views(old(table)@)),
    ensures
        match (r, scan_aliases(backend_id@, model_id@, aliases@, 0, alias_views(old(table)@))) {
            (Ok(()), Ok(t)) => alias_views(final(table)@) == t,
            (Err(e), Err(m)) => e@ == m,
            _ => false,
        },
        routes_well_named(alias_views(final(table)@)),
        alias_views(final(table)@).len() >= alias_views(old(table)@).len(),
        forall|x: int| 0 <= x < alias_views(old(table)@).len() ==> alias_views(final(table)@)[x] == alias_views(old(table)@)[x],
        forall|x: int| alias_views(old(table)@).len() <= x < alias_views(final(table)@).len() ==> (#[trigger] alias_views(final(table)@)[x]).1 == backend_id@ && alias_views(final(table)@)[x].2 == model_id@,
{
    let ghost start = alias_views(table@);
    let mut k: usize = 0;
    while k < aliases.len()
        invariant
            k <= aliases@.len(),
            scan_aliases(backend_id@, model_id@, aliases@, 0, start) == scan_aliases(
                backend_id@,
                model_id@,
                aliases@,
                k as int,
                alias_views(table@),
            ),
            routes_well_named(alias_views(table@)),
            alias_views(table@).len() >= start.len(),
            forall|x: int| 0 <= x < start.len() ==> alias_views(table@)[x] == start[x],
            forall|x: int| start.len() <= x < alias_views(table@).len() ==> (#[trigger] alias_views(table@)[x]).1 == backend_id@ && alias_views(table@)[x].2 == model_id@,
        decreases aliases@.len() - k,
    {
        let t = trim(aliases[k].as_str());
        if t.as_str().unicode_len() == 0 {
            return Err(concat5("backend '", backend_id.as_str(), "' model '", model_id.as_str(), "' contains empty alias"));
        }
        let ghost tv = alias_views(table@);
        let mut p: usize = 0;
        while p < table.len()
            invariant
                p <= table@.len(),
                tv == alias_views(table@),
                forall|x: int| 0 <= x < p ==> tv[x].0 != t@,
            decreases table@.len() - p,
        {
            if str_eq(table[p].alias.as_str(), t.as_str()) {
                proof {
                    assert(tv[p as int].0 == t@);
                    lemma_alias_lookup_found(tv, t@);
                }
                return Err(concat3("duplicate alias '", t.as_str(), "' in ai_gateway.backends"));
            }
            p = p + 1;
        }
        proof {
            lemma_alias_lookup_found(tv, t@);
        }
        let entry = AliasEntry {
            alias: t,
            target: ModelTarget { backend_id: backend_id.clone(), model_id: model_id.clone() },
        };
        table.push(entry);
        proof {
            let nv = alias_views(table@);
            assert(nv =~= tv.push((entry.alias@, backend_id@, model_id@)));
        }
        k = k + 1;
    }
    Ok(())
}

/// Checks the models of one backend and adds their routes to `table`.
#[verifier::loop_isolation(false)]
fn check_models(b: &BackendProfile, table: &mut Vec<AliasEntry>) -> (r: Result<(), String>)
    requires
        routes_well_named(alias_views(old(table)@)),
    ensures
        match (r, scan_models(*b, 0, Seq::empty(), alias_views(old(table)@))) {
            (Ok(()), Ok(t)) => alias_views(final(table)@) == t,
            (Err(e), Err(m)) => e@ == m,
            _ => false,
        },
        routes_well_named(alias_views(final(table)@)),
        alias_views(final(table)@).len() >= alias_views(old(table)@).len(),
        forall|x: int| 0 <= x < alias_views(old(table)@).len() ==> alias_views(final(table)@)[x] == alias_views(old(table)@)[x],
        forall|x: int| alias_views(old(table)@).len() <= x < alias_views(final(table)@).len() ==> (#[trigger] alias_views(final(table)@)[x]).1 == b.id@ && has_model(*b, alias_views(final(table)@)[x].2),
{
    let ghost start = alias_views(table@);
    let mut seen: Vec<String> = Vec::new();
    let mut j: usize = 0;
    assert(seen@.map_values(|s: String| s@) =~= Seq::<Seq<char>>::empty());
    while j < b.models.len()
        invariant
            j <= b.models@.len(),
            scan_models(*b, 0, Seq::empty(), start) == scan_models(
                *b,
                j as int,
                seen@.map_values(|s: String| s@),
                alias_views(table@),
            ),
            routes_well_named(alias_views(table@)),
            alias_views(table@).len() >= start.len(),
            forall|x: int| 0 <= x < start.len() ==> alias_views(table@)[x] == start[x],
            forall|x: int| start.len() <= x < alias_views(table@).len() ==> (#[trigger] alias_views(table@)[x]).1 == b.id@ && has_model(*b, alias_views(table@)[x].2),
        decreases b.models@.len() - j,
    {
        let m = &b.models[j];
        if is_blank(m.id.as_str()) {
            return Err(concat3("backend '", b.id.as_str(), "' contains empty model id"));
        }
        let mut q: usize = 0;
        while q < seen.len()
            invariant
                q <= seen@.len(),
                forall|p: int| 0 <= p < q ==> seen@[p]@ != m.id@,
            decreases seen@.len() - q,
        {
            if str_eq(seen[q].as_str(), m.id.as_str()) {
                assert(seen@.map_values(|s: String| s@)[q as int] == m.id@);
                return Err(concat5("backend '", b.id.as_str(), "' has duplicate model id '", m.id.as_str(), "'"));
            }
            q = q + 1;
        }
        assert(!seen@.map_values(|s: String| s@).contains(m.id@));
        let ghost before = alias_views(table@);
        match check_aliases(&b.id, &m.id, &m.aliases, table) {
            Err(e) => {
                return Err(e);
            },
            Ok(()) => {},
        }
        proof {
            assert(has_model(*b, m.id@)) by {
                assert(b.models@[j as int].id@ == m.id@);
            }
            let nv = alias_views(table@);
            assert forall|x: int| start.len() <= x < nv.len() implies (#[trigger] nv[x]).1 == b.id@ && has_model(*b, nv[x].2) by {
                if x < before.len() {
                    assert(nv[x] == before[x]);
                }
            }
        }
        let ghost seen_before = seen@.map_values(|s: String| s@);
        seen.push(m.id.clone());
        assert(seen@.map_values(|s: String| s@) =~= seen_before.push(m.id@));
        j = j + 1;
    }
    Ok(())
}

impl BackendRouter {
    /// The route table.
    pub closed spec fn routes(&self) -> Seq<AliasView> {
        alias_views(self.route_aliases@)
    }

    /// The backends, in configuration order.
    pub closed spec fn profiles(&self) -> Seq<BackendProfile> {
        self.backends@
    }

    /// Routes are unique, each reaches a backend and one of its models,
    /// backend ids are unique, and the default alias is a route.
    pub open spec fn wf(&self) -> bool {
        &&& routes_well_named(self.routes())
        &&& routes_reach(self.routes(), self.profiles())
        &&& ids_unique(self.profiles())
        &&& has_alias(self.routes(), default_route_alias())
    }

    /// Checks the configuration and builds the route table.
    #[verifier::loop_isolation(false)]
    pub fn new(config: &AIGatewayConfig) -> (r: Result<BackendRouter, GatewayError>)
        ensures
            match (r, router_outcome(config.backends@)) {
                (Ok(router), Ok(t)) => {
                    &&& router.routes() == t
                    &&& same_models_lists(router.profiles(), config.backends@)
                    &&& router.wf()
                },
                (Err(e), Err(m)) => plain_error(e, GatewayErrorKind::InvalidRequest, m),
                _ => false,
            },
    {
        let bs = &config.backends;
        if bs.len() == 0 {
            return Err(invalid_request("ai_gateway.backends must not be empty"));
        }
        let mut backends: Vec<BackendProfile> = Vec::new();
        let mut route_aliases: Vec<AliasEntry> = Vec::new();
        let mut i: usize = 0;
        assert(backends@.map_values(|b: BackendProfile| b.id@) =~= Seq::<Seq<char>>::empty());
        assert(alias_views(route_aliases@) =~= Seq::<AliasView>::empty());
        while i < bs.len()
            invariant
                i <= bs@.len(),
                bs@.len() > 0,
                bs == &config.backends,
                scan_backends(bs@, 0, Seq::empty(), Seq::empty()) == scan_backends(
                    bs@,
                    i as int,
                    alias_views(route_aliases@),
                    backends@.map_values(|b: BackendProfile| b.id@),
                ),
                backends@.len() == i,
                forall|k: int| 0 <= k < i ==> #[trigger] backends@[k].same_as(&bs@[k]),
                ids_unique(backends@),
                routes_well_named(alias_views(route_aliases@)),
                routes_reach(alias_views(route_aliases@), bs@),
            decreases bs@.len() - i,
        {
            let b = &bs[i];
            if b.models.len() == 0 {
                return Err(invalid_request(
                    concat3("backend '", b.id.as_str(), "' must define at least one model").as_str(),
                ));
            }
            let ghost table_before = alias_views(route_aliases@);
            match check_models(b, &mut route_aliases) {
                Err(m) => {
                    return Err(invalid_request(m.as_str()));
                },
                Ok(()) => {},
            }
            proof {
                let nv = alias_views(route_aliases@);
                assert forall|x: int| 0 <= x < nv.len() implies reaches(bs@, #[trigger] nv[x]) by {
                    if x < table_before.len() {
                        assert(nv[x] == table_before[x]);
                    } else {
                        assert(bs@[i as int].id@ == nv[x].1);
                    }
                }
            }
            let ghost ids_before = backends@.map_values(|x: BackendProfile| x.id@);
            let mut q: usize = 0;
            while q < backends.len()
                invariant
                    q <= backends@.len(),
                    ids_before == backends@.map_values(|x: BackendProfile| x.id@),
                    forall|p: int| 0 <= p < q ==> backends@[p].id@ != b.id@,
                decreases backends@.len() - q,
            {
                if str_eq(backends[q].id.as_str(), b.id.as_str()) {
                    assert(ids_before[q as int] == b.id@);
                    return Err(invalid_request(
                        concat3(
                            "duplicate backend id '",
                            b.id.as_str(),
                            "' in ai_gateway.backends",
                        ).as_str(),
                    ));
                }
                q = q + 1;
            }
            assert(!ids_before.contains(b.id@));
            backends.push(b.duplicate());
            assert(backends@.map_values(|x: BackendProfile| x.id@) =~= ids_before.push(b.id@));
            i = i + 1;
        }
        let ghost t = alias_views(route_aliases@);
        proof {
            lemma_routes_transfer(t, bs@, backends@);
            assert(scan_backends(
                bs@,
                i as int,
                alias_views(route_aliases@),
                backends@.map_values(|b: BackendProfile| b.id@),
            ) == Ok::<Seq<AliasView>, Seq<char>>(t));
            assert(scan_backends(bs@, 0, Seq::empty(), Seq::empty()) == Ok::<Seq<AliasView>, Seq<char>>(t));
        }
        let router = BackendRouter { backends, route_aliases };
        let mut p: usize = 0;
        while p < router.route_aliases.len()
            invariant
                p <= router.route_aliases@.len(),
                t == alias_views(router.route_aliases@),
                forall|x: int| 0 <= x < p ==> t[x].0 != default_route_alias(),
            decreases router.route_aliases@.len() - p,
        {
            if str_eq(router.route_aliases[p].alias.as_str(), "default") {
                proof {
                    assert(t[p as int].0 == default_route_alias());
                    lemma_alias_lookup_found(t, default_route_alias());
                }
                return Ok(router);
            }
            p = p + 1;
        }
        proof {
            lemma_alias_lookup_found(t, default_route_alias());
        }
        Err(invalid_request("ai_gateway.backends must define alias 'default' on some model"))
    }

    /// The backend that a route reference leads to.
    pub fn select_route_ref(&self, route_ref: Option<&ChatRouteRef>) -> (r: Result<
        SelectedBackend,
        GatewayError,
    >)
        requires
            self.wf(),
        ensures
            match (r, route_outcome(self.routes(), self.profiles(), opt_ref_view(route_ref))) {
                (Ok(sel), Ok((k, mid))) => {
                    &&& sel.backend_id@ == self.profiles()[k].id@
                    &&& sel.profile.same_as(&self.profiles()[k])
                    &&& sel.resolved_model@ == mid
                },
                (Err(e), Err(m)) => plain_error(e, GatewayErrorKind::InvalidRequest, m),
                _ => false,
            },
    {
        let target = match route_ref {
            Some(ChatRouteRef::Alias(alias)) => self.resolve_chat_alias(alias),
            Some(ChatRouteRef::Key(key)) => self.resolve_chat_key(key),
            None => self.resolve_chat_alias(&ChatRouteAlias::default_chat()),
        };
        match target {
            Err(e) => Err(e),
            Ok(target) => {
                proof {
                    lemma_backend_index_found(self.profiles(), target.backend_id@, 0);
                }
                self.selected_from_target(target)
            },
        }
    }

    #[verifier::loop_isolation(false)]
    fn selected_from_target(&self, target: ModelTarget) -> (r: Result<SelectedBackend, GatewayError>)
        ensures
            match (r, target_outcome(self.profiles(), target.backend_id@, target.model_id@)) {
                (Ok(sel), Ok(k)) => {
                    &&& sel.backend_id == target.backend_id
                    &&& sel.profile.same_as(&self.profiles()[k])
                    &&& sel.resolved_model == target.model_id
                },
                (Err(e), Err(m)) => plain_error(e, GatewayErrorKind::InvalidRequest, m),
                _ => false,
            },
    {
        let bs = &self.backends;
        let mut i: usize = 0;
        while i < bs.len()
            invariant
                i <= bs@.len(),
                bs == &self.backends,
                backend_index(bs@, target.backend_id@) == backend_index_from(
                    bs@,
                    target.backend_id@,
                    i as int,
                ),
            decreases bs@.len() - i,
        {
            if str_eq(bs[i].id.as_str(), target.backend_id.as_str()) {
                let profile = &bs[i];
                let mut j: usize = 0;
                while j < profile.models.len()
                    invariant
                        j <= profile.models@.len(),
                        forall|x: int| 0 <= x < j ==> profile.models@[x].id@ != target.model_id@,
                    decreases profile.models@.len() - j,
                {
                    if str_eq(profile.models[j].id.as_str(), target.model_id.as_str()) {
                        return Ok(
                            SelectedBackend {
                                backend_id: target.backend_id,
                                profile: profile.duplicate(),
                                resolved_model: target.model_id,
                            },
                        );
                    }
                    j = j + 1;
                }
                return Err(invalid_request(
                    concat5(
                        "selected model '",
                        target.model_id.as_str(),
                        "' does not exist on backend '",
                        target.backend_id.as_str(),
                        "'",
                    ).as_str(),
                ));
            }
            i = i + 1;
        }
        Err(invalid_request(
            concat3("selected backend '", target.backend_id.as_str(), "' does not exist").as_str(),
        ))
    }

    #[verifier::loop_isolation(false)]
    fn lookup_route(&self, name: &str) -> (r: Option<ModelTarget>)
        ensures
            match (r, alias_lookup(self.routes(), name@)) {
                (Some(t), Some((bid, mid))) => t.backend_id@ == bid && t.model_id@ == mid,
                (None, None) => true,
                _ => false,
            },
    {
        let ghost t = self.routes();
        let mut p: usize = 0;
        assert(t.subrange(0, t.len() as int) =~= t);
        while p < self.route_aliases.len()
            invariant
                p <= self.route_aliases@.len(),
                t == alias_views(self.route_aliases@),
                alias_lookup(t, name@) == alias_lookup(t.subrange(p as int, t.len() as int), name@),
            decreases self.route_aliases@.len() - p,
        {
            let ghost rest = t.subrange(p as int, t.len() as int);
            assert(rest.drop_first() =~= t.subrange(p + 1, t.len() as int));
            if str_eq(self.route_aliases[p].alias.as_str(), name) {
                return Some(self.route_aliases[p].target.duplicate());
            }
            p = p + 1;
        }
        None
    }

    fn resolve_chat_alias(&self, alias: &ChatRouteAlias) -> (r: Result<ModelTarget, GatewayError>)
        ensures
            match (r, alias_outcome(self.routes(), alias.capability@, alias.alias@)) {
                (Ok(t), Ok((bid, mid))) => t.backend_id@ == bid && t.model_id@ == mid,
                (Err(e), Err(m)) => plain_error(e, GatewayErrorKind::InvalidRequest, m),
                _ => false,
            },
    {
        if !str_eq(alias.capability.as_str(), "chat") {
            return Err(invalid_request(
                concat3(
                    "unsupported capability '",
                    alias.capability.as_str(),
                    "' in route alias; expected 'chat'",
                ).as_str(),
            ));
        }
        let trimmed = trim(alias.alias.as_str());
        if trimmed.as_str().unicode_len() == 0 {
            return Err(invalid_request("route alias cannot be empty"));
        }
        match self.lookup_route(trimmed.as_str()) {
            Some(t) => Ok(t),
            None => Err(invalid_request(
                concat3(
                    "unknown route alias '",
                    trimmed.as_str(),
                    "'; expected one configured chat alias",
                ).as_str(),
            )),
        }
    }

    fn resolve_chat_key(&self, key: &ChatRouteKey) -> (r: Result<ModelTarget, GatewayError>)
        ensures
            match (r, key_outcome(self.routes(), key.capability@, key.binding_id@)) {
                (Ok(t), Ok((bid, mid))) => t.backend_id@ == bid && t.model_id@ == mid,
                (Err(e), Err(m)) => plain_error(e, GatewayErrorKind::InvalidRequest, m),
                _ => false,
            },
    {
        if !str_eq(key.capability.as_str(), "chat") {
            return Err(invalid_request(
                concat3(
                    "unsupported capability '",
                    key.capability.as_str(),
                    "' in route key; expected 'chat'",
                ).as_str(),
            ));
        }
        let trimmed = trim(key.binding_id.as_str());
        if trimmed.as_str().unicode_len() == 0 {
            return Err(invalid_request("route key binding_id cannot be empty"));
        }
        match self.lookup_route(trimmed.as_str()) {
            Some(t) => Ok(t),
            None => Err(invalid_request(
                concat3(
                    "unknown route key binding_id '",
                    trimmed.as_str(),
                    "'; expected one configured chat binding selector",
                ).as_str(),
            )),
        }
    }
}

/// A route reference, by value.
pub open spec fn opt_ref_view(r: Option<&ChatRouteRef>) -> Option<ChatRouteRef> {
    match r {
        Some(x) => Some(*x),
        None => None,
    }
}

/// Two backend lists that agree backend by backend.
pub open spec fn same_models_lists(a: Seq<BackendProfile>, b: Seq<BackendProfile>) -> bool {
    a.len() == b.len() && forall|k: int| 0 <= k < a.len() ==> #[trigger] a[k].same_as(&b[k])
}

proof fn lemma_routes_transfer(t: Seq<AliasView>, bs: Seq<BackendProfile>, copies: Seq<
    BackendProfile,
>)
    requires
        routes_reach(t, bs),
        copies.len() == bs.len(),
        forall|k: int| 0 <= k < bs.len() ==> #[trigger] copies[k].same_as(&bs[k]),
    ensures
        routes_reach(t, copies),
{
    assert forall|p: int| 0 <= p < t.len() implies reaches(copies, #[trigger] t[p]) by {
        let e = t[p];
        assert(reaches(bs, e));
        let k = choose|k: int| 0 <= k < bs.len() && #[trigger] bs[k].id@ == e.1 && has_model(bs[k], e.2);
        assert(copies[k].same_as(&bs[k]));
        let j = choose|j: int| 0 <= j < bs[k].models@.len() && #[trigger] bs[k].models@[j].id@ == e.2;
        assert(copies[k].models@[j].same_as(&bs[k].models@[j]));
        assert(copies[k].models@[j].id@ == e.2);
        assert(has_model(copies[k], e.2));
        assert(copies[k].id@ == e.1);
    }
}

/// The route named by `p` resolves to its own backend and model.
proof fn lemma_route_target_resolves(router: &BackendRouter, p: int)
    requires
        router.wf(),
        0 <= p < router.routes().len(),
    ensures
        target_outcome(router.profiles(), router.routes()[p].1, router.routes()[p].2) matches Ok(k)
            && 0 <= k < router.profiles().len() && router.profiles()[k].id@ == router.routes()[p].1,
{
    let t = router.routes();
    let bs = router.profiles();
    assert(reaches(bs, t[p]));
    let k = choose|k: int| 0 <= k < bs.len() && #[trigger] bs[k].id@ == t[p].1 && has_model(bs[k], t[p].2);
    lemma_backend_index_first(bs, t[p].1, 0, k);
}

proof fn lemma_lookup_is_route(t: Seq<AliasView>, a: Seq<char>)
    requires
        routes_well_named(t),
        alias_lookup(t, a) is Some,
    ensures
        exists|p: int| 0 <= p < t.len() && (#[trigger] t[p]).0 == a && alias_lookup(t, a) == Some((t[p].1, t[p].2)),
{
    lemma_alias_lookup_found(t, a);
}

proof fn lemma_lookup_of_route(t: Seq<AliasView>, p: int)
    requires
        routes_well_named(t),
        0 <= p < t.len(),
    ensures
        alias_lookup(t, t[p].0) == Some((t[p].1, t[p].2)),
    decreases p,
{
    if p > 0 {
        assert(t[0].0 != t[p].0);
        let rest = t.drop_first();
        assert forall|x: int, y: int| 0 <= x < y < rest.len() implies rest[x].0 != rest[y].0 by {
            assert(rest[x] == t[x + 1]);
            assert(rest[y] == t[y + 1]);
        }
        assert(rest[p - 1] == t[p]);
        lemma_lookup_of_route(rest, p - 1);
    }
}

/// Law: a router that was built always resolves the default route, and the
/// chat's default selection (no route reference) succeeds.
pub proof fn lemma_default_route_resolves(router: &BackendRouter)
    requires
        router.wf(),
    ensures
        route_outcome(router.routes(), router.profiles(), None) is Ok,
{
    let t = router.routes();
    lemma_lookup_is_route(t, default_route_alias());
    let p = choose|p: int| 0 <= p < t.len() && (#[trigger] t[p]).0 == default_route_alias() && alias_lookup(t, default_route_alias()) == Some((t[p].1, t[p].2));
    lemma_route_target_resolves(router, p);
    assert(trim_seq(default_route_alias()) == default_route_alias()) by {
        reveal_strlit("default");
    }
}

/// Law: every configured route is selected, by alias, as exactly the
/// backend and model it was configured with, whatever whitespace surrounds
/// the alias.
pub proof fn lemma_configured_alias_selects_its_target(router: &BackendRouter, p: int, alias: ChatRouteAlias)
    requires
        router.wf(),
        0 <= p < router.routes().len(),
        alias.capability@ == chat_capability_id(),
        trim_seq(alias.alias@) == router.routes()[p].0,
    ensures
        route_outcome(router.routes(), router.profiles(), Some(ChatRouteRef::Alias(alias))) matches Ok((k, mid))
            && router.profiles()[k].id@ == router.routes()[p].1 && mid == router.routes()[p].2,
{
    let t = router.routes();
    lemma_lookup_of_route(t, p);
    lemma_route_target_resolves(router, p);
}

/// Law (`BackendRouter::select_route_ref`, which answers `route_outcome`):
/// on a built router, a route reference by alias and one by key with
/// the same capability and the same selector lead to the same place: both
/// to the same backend and model, or both to an error. Either succeeds
/// exactly when the capability is the chat capability and the trimmed
/// selector is a configured route, and then it leads to that route's backend
/// and model; any other capability is refused.
pub proof fn lemma_alias_and_key_refs_agree(router: &BackendRouter, a: ChatRouteAlias, k: ChatRouteKey)
    requires
        router.wf(),
        a.capability@ == k.capability@,
        a.alias@ == k.binding_id@,
    ensures
        ({
            let ra = route_outcome(router.routes(), router.profiles(), Some(ChatRouteRef::Alias(a)));
            let rk = route_outcome(router.routes(), router.profiles(), Some(ChatRouteRef::Key(k)));
            &&& (ra is Ok <==> rk is Ok)
            &&& (ra is Ok ==> ra == rk)
            &&& (a.capability@ != chat_capability_id() ==> ra is Err && rk is Err)
            &&& (ra is Ok <==> (a.capability@ == chat_capability_id() && exists|p: int|
                0 <= p < router.routes().len() && (#[trigger] router.routes()[p]).0 == trim_seq(a.alias@)))
        }),
        forall|p: int|
            0 <= p < router.routes().len() && (#[trigger] router.routes()[p]).0 == trim_seq(a.alias@)
                && a.capability@ == chat_capability_id() ==> (route_outcome(
                router.routes(),
                router.profiles(),
                Some(ChatRouteRef::Alias(a)),
            ) matches Ok((i, mid)) && router.profiles()[i].id@ == router.routes()[p].1 && mid
                == router.routes()[p].2),
{
    let t = router.routes();
    let s = trim_seq(a.alias@);
    lemma_alias_lookup_found(t, s);
    if alias_lookup(t, s) is Some {
        let p = choose|p: int| 0 <= p < t.len() && (#[trigger] t[p]).0 == s;
        lemma_lookup_of_route(t, p);
        lemma_route_target_resolves(router, p);
    }
    assert forall|p: int|
        0 <= p < t.len() && (#[trigger] t[p]).0 == s && a.capability@ == chat_capability_id()
        implies (route_outcome(t, router.profiles(), Some(ChatRouteRef::Alias(a))) matches Ok((i, mid))
            && router.profiles()[i].id@ == t[p].1 && mid == t[p].2) by {
        lemma_configured_alias_selects_its_target(router, p, a);
    }
}

/// The routes of a model's aliases from the `k`-th on: each trimmed alias
/// with the backend and model.
pub open spec fn alias_routes(backend_id: Seq<char>, model_id: Seq<char>, aliases: Seq<String>, k: int) -> Seq<AliasView> {
    Seq::new((aliases.len() - k) as nat, |x: int| (trim_seq(aliases[k + x]@), backend_id, model_id))
}

/// No two routes share a name.
pub open spec fn names_distinct(t: Seq<AliasView>) -> bool {
    forall|p: int, q: int| 0 <= p < q < t.len() ==> (#[trigger] t[p]).0 != (#[trigger] t[q]).0
}

/// Every route has a name.
pub open spec fn names_present(t: Seq<AliasView>) -> bool {
    forall|p: int| 0 <= p < t.len() ==> (#[trigger] t[p]).0.len() > 0
}

proof fn lemma_names_distinct_prefix(a: Seq<AliasView>, b: Seq<AliasView>)
    requires
        names_distinct(a + b),
    ensures
        names_distinct(a),
{
    assert forall|p: int, q: int| 0 <= p < q < a.len() implies (#[trigger] a[p]).0 != (#[trigger] a[q]).0 by {
        assert((a + b)[p] == a[p] && (a + b)[q] == a[q]);
    }
}

proof fn lemma_names_present_concat(a: Seq<AliasView>, b: Seq<AliasView>)
    ensures
        names_present(a + b) <==> (names_present(a) && names_present(b)),
{
    if names_present(a + b) {
        assert forall|p: int| 0 <= p < a.len() implies (#[trigger] a[p]).0.len() > 0 by {
            assert((a + b)[p] == a[p]);
        }
        assert forall|p: int| 0 <= p < b.len() implies (#[trigger] b[p]).0.len() > 0 by {
            assert((a + b)[a.len() + p] == b[p]);
        }
    }
    if names_present(a) && names_present(b) {
        assert forall|p: int| 0 <= p < (a + b).len() implies (#[trigger] (a + b)[p]).0.len() > 0 by {
            if p < a.len() {
                assert((a + b)[p] == a[p]);
            } else {
                assert((a + b)[p] == b[p - a.len()]);
            }
        }
    }
}

/// Scanning a model's aliases accepts exactly when each trimmed alias is
/// non-empty and no name repeats among the table and the new routes, and
/// then appends the new routes.
proof fn lemma_scan_aliases(
    backend_id: Seq<char>,
    model_id: Seq<char>,
    aliases: Seq<String>,
    k: int,
    table: Seq<AliasView>,
)
    requires
        0 <= k <= aliases.len(),
        names_distinct(table),
    ensures
        ({
            let rs = alias_routes(backend_id, model_id, aliases, k);
            let ok = names_present(rs) && names_distinct(table + rs);
            &&& (scan_aliases(backend_id, model_id, aliases, k, table) is Ok <==> ok)
            &&& ok ==> scan_aliases(backend_id, model_id, aliases, k, table) == Ok::<Seq<AliasView>, Seq<char>>(table + rs)
        }),
    decreases aliases.len() - k,
{
    let rs = alias_routes(backend_id, model_id, aliases, k);
    if k == aliases.len() {
        assert(rs =~= Seq::<AliasView>::empty());
        assert(table + rs =~= table);
    } else {
        let t = trim_seq(aliases[k]@);
        let e = (t, backend_id, model_id);
        let rest = alias_routes(backend_id, model_id, aliases, k + 1);
        assert(rs =~= seq![e] + rest);
        assert(table + rs =~= table.push(e) + rest);
        assert(rs[0] == e);
        lemma_alias_lookup_found(table, t);
        if t.len() == 0 {
            assert(!names_present(rs));
        } else if has_alias(table, t) {
            let p = choose|p: int| 0 <= p < table.len() && (#[trigger] table[p]).0 == t;
            assert((table + rs)[p] == table[p]);
            assert((table + rs)[table.len() as int] == e);
        } else {
            assert(names_distinct(table.push(e))) by {
                assert forall|p: int, q: int| 0 <= p < q < table.push(e).len() implies (
                #[trigger] table.push(e)[p]).0 != (#[trigger] table.push(e)[q]).0 by {
                    if q < table.len() {
                        assert(table.push(e)[p] == table[p] && table.push(e)[q] == table[q]);
                    } else {
                        assert(table.push(e)[p] == table[p]);
                    }
                }
            }
            lemma_scan_aliases(backend_id, model_id, aliases, k + 1, table.push(e));
            lemma_names_present_concat(seq![e], rest);
        }
    }
}

/// The routes of a backend's models from the `j`-th on, in order.
pub open spec fn model_routes(b: BackendProfile, j: int) -> Seq<AliasView>
    decreases b.models@.len() - j,
{
    if j < 0 || j >= b.models@.len() {
        Seq::empty()
    } else {
        alias_routes(b.id@, b.models@[j].id@, b.models@[j].aliases@, 0) + model_routes(b, j + 1)
    }
}

/// The model ids of a backend from the `j`-th on are non-blank, outside
/// `seen` and distinct.
pub open spec fn model_ids_ok(b: BackendProfile, j: int, seen: Seq<Seq<char>>) -> bool {
    forall|x: int|
        j <= x < b.models@.len() ==> {
            &&& !is_blank_seq((#[trigger] b.models@[x]).id@)
            &&& !seen.contains(b.models@[x].id@)
            &&& forall|y: int| j <= y < x ==> (#[trigger] b.models@[y]).id@ != b.models@[x].id@
        }
}

proof fn lemma_model_ids_step(b: BackendProfile, j: int, seen: Seq<Seq<char>>)
    requires
        0 <= j < b.models@.len(),
        !is_blank_seq(b.models@[j].id@),
        !seen.contains(b.models@[j].id@),
    ensures
        model_ids_ok(b, j, seen) <==> model_ids_ok(b, j + 1, seen.push(b.models@[j].id@)),
{
    let mid = b.models@[j].id@;
    let ms = b.models@;
    if model_ids_ok(b, j, seen) {
        assert forall|x: int| j + 1 <= x < ms.len() implies {
            &&& !is_blank_seq((#[trigger] ms[x]).id@)
            &&& !seen.push(mid).contains(ms[x].id@)
            &&& forall|y: int| j + 1 <= y < x ==> (#[trigger] ms[y]).id@ != ms[x].id@
        } by {
            assert(ms[j].id@ != ms[x].id@);
            if seen.push(mid).contains(ms[x].id@) {
                let q = choose|q: int| 0 <= q < seen.push(mid).len() && seen.push(mid)[q] == ms[x].id@;
                if q < seen.len() {
                    assert(seen[q] == ms[x].id@);
                    assert(seen.contains(ms[x].id@));
                }
            }
        }
    }
    if model_ids_ok(b, j + 1, seen.push(mid)) {
        assert forall|x: int| j <= x < ms.len() implies {
            &&& !is_blank_seq((#[trigger] ms[x]).id@)
            &&& !seen.contains(ms[x].id@)
            &&& forall|y: int| j <= y < x ==> (#[trigger] ms[y]).id@ != ms[x].id@
        } by {
            if x > j {
                assert(!seen.push(mid).contains(ms[x].id@));
                if seen.contains(ms[x].id@) {
                    let q = choose|q: int| 0 <= q < seen.len() && seen[q] == ms[x].id@;
                    assert(seen.push(mid)[q] == ms[x].id@);
                }
                assert(seen.push(mid)[seen.len() as int] == mid);
                assert forall|y: int| j <= y < x implies (#[trigger] ms[y]).id@ != ms[x].id@ by {
                    if y == j {
                        assert(seen.push(mid)[seen.len() as int] == mid);
                    }
                }
            }
        }
    }
}

/// Scanning a backend's models accepts exactly when their ids are non-blank,
/// outside `seen` and distinct, their trimmed aliases are non-empty, and no
/// name repeats among the table and the new routes; it then appends the new
/// routes.
proof fn lemma_scan_models(b: BackendProfile, j: int, seen: Seq<Seq<char>>, table: Seq<AliasView>)
    requires
        0 <= j <= b.models@.len(),
        names_distinct(table),
    ensures
        ({
            let rs = model_routes(b, j);
            let ok = model_ids_ok(b, j, seen) && names_present(rs) && names_distinct(table + rs);
            &&& (scan_models(b, j, seen, table) is Ok <==> ok)
            &&& ok ==> scan_models(b, j, seen, table) == Ok::<Seq<AliasView>, Seq<char>>(table + rs)
        }),
    decreases b.models@.len() - j,
{
    let rs = model_routes(b, j);
    if j == b.models@.len() {
        assert(rs =~= Seq::<AliasView>::empty());
        assert(table + rs =~= table);
    } else {
        let m = b.models@[j];
        let rm = alias_routes(b.id@, m.id@, m.aliases@, 0);
        let rest = model_routes(b, j + 1);
        assert(rs == rm + rest);
        assert(table + rs =~= (table + rm) + rest);
        lemma_names_present_concat(rm, rest);
        if is_blank_seq(m.id@) {
            assert(!model_ids_ok(b, j, seen));
        } else if seen.contains(m.id@) {
            assert(!model_ids_ok(b, j, seen));
        } else {
            lemma_scan_aliases(b.id@, m.id@, m.aliases@, 0, table);
            lemma_model_ids_step(b, j, seen);
            if names_present(rm) && names_distinct(table + rm) {
                lemma_scan_models(b, j + 1, seen.push(m.id@), table + rm);
            } else if names_distinct(table + rs) {
                lemma_names_distinct_prefix(table + rm, rest);
            }
        }
    }
}

/// The routes of the backends from the `i`-th on, in order.
pub open spec fn backend_routes(bs: Seq<BackendProfile>, i: int) -> Seq<AliasView>
    decreases bs.len() - i,
{
    if i < 0 || i >= bs.len() {
        Seq::empty()
    } else {
        model_routes(bs[i], 0) + backend_routes(bs, i + 1)
    }
}

/// The backends from the `i`-th on each define a model, have valid model
/// ids, and have ids outside `ids` and distinct.
pub open spec fn backends_ok(bs: Seq<BackendProfile>, i: int, ids: Seq<Seq<char>>) -> bool {
    forall|x: int|
        i <= x < bs.len() ==> {
            &&& (#[trigger] bs[x]).models@.len() > 0
            &&& model_ids_ok(bs[x], 0, Seq::empty())
            &&& !ids.contains(bs[x].id@)
            &&& forall|y: int| i <= y < x ==> (#[trigger] bs[y]).id@ != bs[x].id@
        }
}

proof fn lemma_backends_step(bs: Seq<BackendProfile>, i: int, ids: Seq<Seq<char>>)
    requires
        0 <= i < bs.len(),
        bs[i].models@.len() > 0,
        model_ids_ok(bs[i], 0, Seq::empty()),
        !ids.contains(bs[i].id@),
    ensures
        backends_ok(bs, i, ids) <==> backends_ok(bs, i + 1, ids.push(bs[i].id@)),
{
    let bid = bs[i].id@;
    if backends_ok(bs, i, ids) {
        assert forall|x: int| i + 1 <= x < bs.len() implies {
            &&& (#[trigger] bs[x]).models@.len() > 0
            &&& model_ids_ok(bs[x], 0, Seq::empty())
            &&& !ids.push(bid).contains(bs[x].id@)
            &&& forall|y: int| i + 1 <= y < x ==> (#[trigger] bs[y]).id@ != bs[x].id@
        } by {
            assert(bs[i].id@ != bs[x].id@);
            if ids.push(bid).contains(bs[x].id@) {
                let q = choose|q: int| 0 <= q < ids.push(bid).len() && ids.push(bid)[q] == bs[x].id@;
                if q < ids.len() {
                    assert(ids[q] == bs[x].id@);
                    assert(ids.contains(bs[x].id@));
                }
            }
        }
    }
    if backends_ok(bs, i + 1, ids.push(bid)) {
        assert forall|x: int| i <= x < bs.len() implies {
            &&& (#[trigger] bs[x]).models@.len() > 0
            &&& model_ids_ok(bs[x], 0, Seq::empty())
            &&& !ids.contains(bs[x].id@)
            &&& forall|y: int| i <= y < x ==> (#[trigger] bs[y]).id@ != bs[x].id@
        } by {
            if x > i {
                assert(!ids.push(bid).contains(bs[x].id@));
                if ids.contains(bs[x].id@) {
                    let q = choose|q: int| 0 <= q < ids.len() && ids[q] == bs[x].id@;
                    assert(ids.push(bid)[q] == bs[x].id@);
                }
                assert(ids.push(bid)[ids.len() as int] == bid);
            }
        }
    }
}

proof fn lemma_scan_backends(bs: Seq<BackendProfile>, i: int, table: Seq<AliasView>, ids: Seq<Seq<char>>)
    requires
        0 <= i <= bs.len(),
        names_distinct(table),
    ensures
        ({
            let rs = backend_routes(bs, i);
            let ok = backends_ok(bs, i, ids) && names_present(rs) && names_distinct(table + rs);
            &&& (scan_backends(bs, i, table, ids) is Ok <==> ok)
            &&& ok ==> scan_backends(bs, i, table, ids) == Ok::<Seq<AliasView>, Seq<char>>(table + rs)
        }),
    decreases bs.len() - i,
{
    let rs = backend_routes(bs, i);
    if i == bs.len() {
        assert(rs =~= Seq::<AliasView>::empty());
        assert(table + rs =~= table);
    } else {
        let b = bs[i];
        let rb = model_routes(b, 0);
        let rest = backend_routes(bs, i + 1);
        assert(rs == rb + rest);
        assert(table + rs =~= (table + rb) + rest);
        lemma_names_present_concat(rb, rest);
        if b.models@.len() == 0 {
            assert(!backends_ok(bs, i, ids));
        } else {
            lemma_scan_models(b, 0, Seq::empty(), table);
            if model_ids_ok(b, 0, Seq::empty()) && names_present(rb) && names_distinct(table + rb) {
                if ids.contains(b.id@) {
                    assert(!backends_ok(bs, i, ids));
                } else {
                    lemma_backends_step(bs, i, ids);
                    lemma_scan_backends(bs, i + 1, table + rb, ids.push(b.id@));
                }
            } else {
                if names_distinct(table + rs) {
                    lemma_names_distinct_prefix(table + rb, rest);
                }
                if !model_ids_ok(b, 0, Seq::empty()) {
                    assert(!backends_ok(bs, i, ids));
                }
            }
        }
    }
}

/// The routes of a configuration: each model's trimmed aliases with its
/// backend and model, backend by backend and model by model.
pub open spec fn all_routes(bs: Seq<BackendProfile>) -> Seq<AliasView> {
    backend_routes(bs, 0)
}

/// What a configuration must satisfy to be accepted: some backend; each
/// backend defines a model, and the backend ids are distinct; within a
/// backend the model ids are non-blank and distinct; every trimmed alias is
/// non-empty and no two are the same; and `default` is one of them.
pub open spec fn config_accepted(bs: Seq<BackendProfile>) -> bool {
    &&& bs.len() > 0
    &&& forall|x: int| 0 <= x < bs.len() ==> (#[trigger] bs[x]).models@.len() > 0
    &&& forall|x: int, y: int| 0 <= y < x < bs.len() ==> (#[trigger] bs[y]).id@ != (#[trigger] bs[x]).id@
    &&& forall|x: int, j: int|
        0 <= x < bs.len() && 0 <= j < bs[x].models@.len() ==> !is_blank_seq(
            (#[trigger] bs[x].models@[j]).id@,
        )
    &&& forall|x: int, j: int, k: int|
        0 <= x < bs.len() && 0 <= k < j < bs[x].models@.len() ==> (#[trigger] bs[x].models@[k]).id@
            != (#[trigger] bs[x].models@[j]).id@
    &&& names_present(all_routes(bs))
    &&& names_distinct(all_routes(bs))
    &&& exists|p: int| 0 <= p < all_routes(bs).len() && (#[trigger] all_routes(bs)[p]).0 == default_route_alias()
}

/// Law (`BackendRouter::new`, which answers `router_outcome`): a
/// configuration is accepted exactly when it satisfies `config_accepted`,
/// and its route table is then all its routes, in order.
pub proof fn lemma_router_accepts_exactly(bs: Seq<BackendProfile>)
    ensures
        router_outcome(bs) is Ok <==> config_accepted(bs),
        config_accepted(bs) ==> router_outcome(bs) == Ok::<Seq<AliasView>, Seq<char>>(all_routes(bs)),
{
    let empty: Seq<AliasView> = Seq::empty();
    lemma_scan_backends(bs, 0, empty, Seq::empty());
    assert(empty + all_routes(bs) =~= all_routes(bs));
    lemma_alias_lookup_found(all_routes(bs), default_route_alias());
    assert(backends_ok(bs, 0, Seq::empty()) <==> (
        (forall|x: int| 0 <= x < bs.len() ==> (#[trigger] bs[x]).models@.len() > 0)
        && (forall|x: int, y: int| 0 <= y < x < bs.len() ==> (#[trigger] bs[y]).id@ != (#[trigger] bs[x]).id@)
        && (forall|x: int| 0 <= x < bs.len() ==> model_ids_ok(#[trigger] bs[x], 0, Seq::empty()))
    ));
    assert((forall|x: int| 0 <= x < bs.len() ==> model_ids_ok(#[trigger] bs[x], 0, Seq::empty())) <==> (
        (forall|x: int, j: int|
            0 <= x < bs.len() && 0 <= j < bs[x].models@.len() ==> !is_blank_seq(
                (#[trigger] bs[x].models@[j]).id@,
            ))
        && (forall|x: int, j: int, k: int|
            0 <= x < bs.len() && 0 <= k < j < bs[x].models@.len() ==> (#[trigger] bs[x].models@[k]).id@
                != (#[trigger] bs[x].models@[j]).id@)
    )) by {
        if forall|x: int| 0 <= x < bs.len() ==> model_ids_ok(#[trigger] bs[x], 0, Seq::empty()) {
            assert forall|x: int, j: int|
                0 <= x < bs.len() && 0 <= j < bs[x].models@.len() implies !is_blank_seq(
                    (#[trigger] bs[x].models@[j]).id@,
                ) by {
                assert(model_ids_ok(bs[x], 0, Seq::empty()));
            }
            assert forall|x: int, j: int, k: int|
                0 <= x < bs.len() && 0 <= k < j < bs[x].models@.len() implies (#[trigger] bs[x].models@[k]).id@
                    != (#[trigger] bs[x].models@[j]).id@ by {
                assert(model_ids_ok(bs[x], 0, Seq::empty()));
            }
        }
    }
}

} // verus!
