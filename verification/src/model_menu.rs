//! The model picker shared by Settings and the composer: which models it
//! lists, what its trigger reads, which model a typed name picks, and when
//! its fade-out ends.
use crate::model::{lowercase, unicode_lowercase};
use crate::providers::{ProviderModel, ProviderStatus, ProvidersState};
use crate::text::{chars_of, contains, contains_seq, push_str, string_of, trim, trimmed, vec_eq};
use vstd::prelude::*;

verus! {

/// The providers, or none when they have not been read.
pub open spec fn provider_list(providers: Option<ProvidersState>) -> Seq<ProviderStatus> {
    match providers {
        Some(state) => state.providers@,
        None => Seq::empty(),
    }
}

/// Every (provider, model) position, providers in order and each
/// provider's models in order.
pub open spec fn model_pairs(ps: Seq<ProviderStatus>) -> Seq<(int, int)>
    decreases ps.len(),
{
    if ps.len() == 0 {
        Seq::empty()
    } else {
        model_pairs(ps.drop_last()) + Seq::new(
            ps.last().models@.len(),
            |k: int| ((ps.len() - 1) as int, k),
        )
    }
}

/// The first model with this ID: its name and its provider's name.
pub open spec fn labelled_in(ps: Seq<ProviderStatus>, id: Seq<char>) -> Option<(Seq<char>, Seq<char>)>
    decreases ps.len(),
{
    if ps.len() == 0 {
        None
    } else {
        match labelled_in(ps.drop_last(), id) {
            Some(found) => Some(found),
            None => match first_with_id(ps.last().models@, id) {
                Some(k) => Some((ps.last().models@[k].name@, ps.last().name@)),
                None => None,
            },
        }
    }
}

/// The first position in `ms` of a model with this ID.
pub open spec fn first_with_id(ms: Seq<ProviderModel>, id: Seq<char>) -> Option<int>
    decreases ms.len(),
{
    if ms.len() == 0 {
        None
    } else {
        match first_with_id(ms.drop_last(), id) {
            Some(k) => Some(k),
            None => if ms.last().id@ == id {
                Some(ms.len() - 1)
            } else {
                None
            },
        }
    }
}

/// What the picker's trigger reads: "model · provider" for the chosen
/// model, else "Choose a model".
pub open spec fn spec_label(providers: Option<ProvidersState>, current: Option<Seq<char>>) -> Seq<char> {
    match current {
        Some(id) => match labelled_in(provider_list(providers), id) {
            Some((model, provider)) => model + " · "@ + provider,
            None => "Choose a model"@,
        },
        None => "Choose a model"@,
    }
}

/// A model a typed (trimmed, lower-cased) needle picks: its provider is
/// connected and its name or ID, lower-cased, holds the needle.
pub open spec fn picks(p: ProviderStatus, m: ProviderModel, needle: Seq<char>) -> bool {
    p.connected && (contains_seq(unicode_lowercase(m.name@), needle) || contains_seq(
        unicode_lowercase(m.id@),
        needle,
    ))
}

/// The first model of `ms`, all offered by `p`, that the needle picks.
pub open spec fn first_pick(p: ProviderStatus, ms: Seq<ProviderModel>, needle: Seq<char>) -> Option<int>
    decreases ms.len(),
{
    if ms.len() == 0 {
        None
    } else {
        match first_pick(p, ms.drop_last(), needle) {
            Some(k) => Some(k),
            None => if picks(p, ms.last(), needle) {
                Some(ms.len() - 1)
            } else {
                None
            },
        }
    }
}

/// The ID of the first model, across providers in order, that the needle picks.
pub open spec fn pick_in(ps: Seq<ProviderStatus>, needle: Seq<char>) -> Option<Seq<char>>
    decreases ps.len(),
{
    if ps.len() == 0 {
        None
    } else {
        match pick_in(ps.drop_last(), needle) {
            Some(id) => Some(id),
            None => match first_pick(ps.last(), ps.last().models@, needle) {
                Some(k) => Some(ps.last().models@[k].id@),
                None => None,
            },
        }
    }
}

/// The first connected model whose name or ID holds the typed text.
pub open spec fn spec_find(providers: Option<ProvidersState>, needle: Seq<char>) -> Option<Seq<char>> {
    pick_in(provider_list(providers), unicode_lowercase(trim(needle)))
}

/// A model's shown name, or its ID.
pub open spec fn model_text(m: ProviderModel, by_name: bool) -> Seq<char> {
    if by_name {
        m.name@
    } else {
        m.id@
    }
}

/// A connected provider's model whose text, folded to lower case, holds
/// the needle at some position.
pub open spec fn shows(p: ProviderStatus, m: ProviderModel, text: Seq<char>, needle: Seq<char>, at: int) -> bool {
    &&& p.connected
    &&& crate::model::holds_at(unicode_lowercase(text), needle, at)
}

/// A needle a model's lower-cased name or ID holds is one it picks.
proof fn lemma_shown_is_picked(p: ProviderStatus, m: ProviderModel, needle: Seq<char>, text: Seq<char>, at: int)
    requires
        text == m.name@ || text == m.id@,
        shows(p, m, text, needle, at),
    ensures
        picks(p, m, needle),
{
    let t = unicode_lowercase(text);
    assert(t.subrange(at, at + needle.len()) == needle);
}

/// Once some model of `ms` is picked, the first pick exists.
proof fn lemma_first_pick_found(p: ProviderStatus, ms: Seq<ProviderModel>, needle: Seq<char>, k: int)
    requires
        0 <= k < ms.len(),
        picks(p, ms[k], needle),
    ensures
        first_pick(p, ms, needle) is Some,
    decreases ms.len(),
{
    if k < ms.len() - 1 {
        assert(ms.drop_last()[k] == ms[k]);
        lemma_first_pick_found(p, ms.drop_last(), needle, k);
    }
}

/// Once some provider of `ps` has a picked model, some ID is picked.
proof fn lemma_pick_in_found(ps: Seq<ProviderStatus>, needle: Seq<char>, i: int, k: int)
    requires
        0 <= i < ps.len(),
        0 <= k < ps[i].models@.len(),
        picks(ps[i], ps[i].models@[k], needle),
    ensures
        pick_in(ps, needle) is Some,
    decreases ps.len(),
{
    if i < ps.len() - 1 {
        assert(ps.drop_last()[i] == ps[i]);
        lemma_pick_in_found(ps.drop_last(), needle, i, k);
    } else {
        lemma_first_pick_found(ps[i], ps[i].models@, needle, k);
    }
}

/// Typing part of a model's shown name, or of its ID, finds a model: when a
/// connected provider offers a model whose name or ID, folded to lower
/// case, holds the trimmed and lower-cased text at any position, `find`
/// answers with a model rather than nothing.
pub proof fn law_typed_name_or_id_finds_a_model(
    providers: Option<ProvidersState>,
    typed: Seq<char>,
    i: int,
    k: int,
    by_name: bool,
    at: int,
)
    requires
        0 <= i < provider_list(providers).len(),
        0 <= k < provider_list(providers)[i].models@.len(),
        shows(
            provider_list(providers)[i],
            provider_list(providers)[i].models@[k],
            model_text(provider_list(providers)[i].models@[k], by_name),
            unicode_lowercase(trim(typed)),
            at,
        ),
    ensures
        spec_find(providers, typed) is Some,
{
    let ps = provider_list(providers);
    let m = ps[i].models@[k];
    lemma_shown_is_picked(ps[i], m, unicode_lowercase(trim(typed)), model_text(m, by_name), at);
    lemma_pick_in_found(ps, unicode_lowercase(trim(typed)), i, k);
}

/// What `find` answers is always the ID of a model that a connected
/// provider offers and whose name or ID, folded to lower case, holds the
/// trimmed and lower-cased text somewhere.
pub proof fn law_found_model_holds_the_text(ps: Seq<ProviderStatus>, needle: Seq<char>)
    requires
        pick_in(ps, needle) is Some,
    ensures
        exists|i: int, k: int, by_name: bool, at: int|
            0 <= i < ps.len() && 0 <= k < ps[i].models@.len() && ps[i].models@[k].id@ == pick_in(ps, needle)->0
                && #[trigger] shows(
                ps[i],
                ps[i].models@[k],
                model_text(ps[i].models@[k], by_name),
                needle,
                at,
            ),
    decreases ps.len(),
{
    let rest = ps.drop_last();
    if pick_in(rest, needle) is Some {
        law_found_model_holds_the_text(rest, needle);
        let (i, k, by_name, at) = choose|i: int, k: int, by_name: bool, at: int|
            0 <= i < rest.len() && 0 <= k < rest[i].models@.len() && rest[i].models@[k].id@ == pick_in(rest, needle)->0
                && #[trigger] shows(
                rest[i],
                rest[i].models@[k],
                model_text(rest[i].models@[k], by_name),
                needle,
                at,
            );
        assert(ps[i] == rest[i]);
    } else {
        let i = ps.len() - 1;
        let k = first_pick(ps[i], ps[i].models@, needle)->0;
        lemma_first_pick_picks(ps[i], ps[i].models@, needle);
        let m = ps[i].models@[k];
        if contains_seq(unicode_lowercase(m.name@), needle) {
            let at = choose|at: int|
                0 <= at <= unicode_lowercase(m.name@).len() - needle.len() && #[trigger] unicode_lowercase(
                    m.name@,
                ).subrange(at, at + needle.len()) == needle;
            assert(shows(ps[i], m, model_text(m, true), needle, at));
        } else {
            let at = choose|at: int|
                0 <= at <= unicode_lowercase(m.id@).len() - needle.len() && #[trigger] unicode_lowercase(
                    m.id@,
                ).subrange(at, at + needle.len()) == needle;
            assert(shows(ps[i], m, model_text(m, false), needle, at));
        }
    }
}

/// The first pick, when there is one, is a model of `ms` the needle picks.
proof fn lemma_first_pick_picks(p: ProviderStatus, ms: Seq<ProviderModel>, needle: Seq<char>)
    requires
        first_pick(p, ms, needle) is Some,
    ensures
        0 <= first_pick(p, ms, needle)->0 < ms.len(),
        picks(p, ms[first_pick(p, ms, needle)->0], needle),
    decreases ms.len(),
{
    if first_pick(p, ms.drop_last(), needle) is Some {
        lemma_first_pick_picks(p, ms.drop_last(), needle);
    }
}

/// Model `k` of provider `i` matches the needle: the provider is connected
/// and the model's name or ID, folded to lower case, holds the needle at
/// some position.
pub open spec fn matches_at(ps: Seq<ProviderStatus>, needle: Seq<char>, i: int, k: int) -> bool {
    &&& ps[i].connected
    &&& (exists|at: int| #[trigger] crate::model::holds_at(unicode_lowercase(ps[i].models@[k].name@), needle, at))
        || (exists|at: int| #[trigger] crate::model::holds_at(unicode_lowercase(ps[i].models@[k].id@), needle, at))
}

/// Matching is what picking a model means.
proof fn lemma_matches_picks(ps: Seq<ProviderStatus>, needle: Seq<char>, i: int, k: int)
    requires
        0 <= i < ps.len(),
        0 <= k < ps[i].models@.len(),
    ensures
        matches_at(ps, needle, i, k) <==> picks(ps[i], ps[i].models@[k], needle),
{
    let m = ps[i].models@[k];
    let n = unicode_lowercase(m.name@);
    let d = unicode_lowercase(m.id@);
    if exists|at: int| #[trigger] crate::model::holds_at(n, needle, at) {
        let at = choose|at: int| #[trigger] crate::model::holds_at(n, needle, at);
        assert(n.subrange(at, at + needle.len()) == needle);
    }
    if exists|at: int| #[trigger] crate::model::holds_at(d, needle, at) {
        let at = choose|at: int| #[trigger] crate::model::holds_at(d, needle, at);
        assert(d.subrange(at, at + needle.len()) == needle);
    }
    if contains_seq(n, needle) {
        let at = choose|at: int| 0 <= at <= n.len() - needle.len() && #[trigger] n.subrange(at, at + needle.len()) == needle;
        assert(crate::model::holds_at(n, needle, at));
    }
    if contains_seq(d, needle) {
        let at = choose|at: int| 0 <= at <= d.len() - needle.len() && #[trigger] d.subrange(at, at + needle.len()) == needle;
        assert(crate::model::holds_at(d, needle, at));
    }
}

/// The first pick of a provider's models is the first one picked.
proof fn lemma_first_pick_is_first(p: ProviderStatus, ms: Seq<ProviderModel>, needle: Seq<char>, k: int)
    requires
        0 <= k < ms.len(),
        picks(p, ms[k], needle),
        forall|j: int| 0 <= j < k ==> !picks(p, #[trigger] ms[j], needle),
    ensures
        first_pick(p, ms, needle) == Some(k),
    decreases ms.len(),
{
    if k < ms.len() - 1 {
        assert(ms.drop_last()[k] == ms[k]);
        assert forall|j: int| 0 <= j < k implies !picks(p, #[trigger] ms.drop_last()[j], needle) by {
            assert(ms.drop_last()[j] == ms[j]);
        }
        lemma_first_pick_is_first(p, ms.drop_last(), needle, k);
    } else {
        lemma_first_pick_none(p, ms.drop_last(), needle);
    }
}

/// No model of `ms` picked: no first pick.
proof fn lemma_first_pick_none(p: ProviderStatus, ms: Seq<ProviderModel>, needle: Seq<char>)
    requires
        forall|j: int| 0 <= j < ms.len() ==> !picks(p, #[trigger] ms[j], needle),
    ensures
        first_pick(p, ms, needle) is None,
    decreases ms.len(),
{
    if ms.len() > 0 {
        assert forall|j: int| 0 <= j < ms.len() - 1 implies !picks(p, #[trigger] ms.drop_last()[j], needle) by {
            assert(ms.drop_last()[j] == ms[j]);
        }
        lemma_first_pick_none(p, ms.drop_last(), needle);
        assert(!picks(p, ms[ms.len() - 1], needle));
    }
}

/// No model of the first `i` providers picked: nothing picked among them.
proof fn lemma_pick_in_none(ps: Seq<ProviderStatus>, needle: Seq<char>)
    requires
        forall|a: int, b: int| 0 <= a < ps.len() && 0 <= b < ps[a].models@.len() ==> !picks(ps[a], #[trigger] ps[a].models@[b], needle),
    ensures
        pick_in(ps, needle) is None,
    decreases ps.len(),
{
    if ps.len() > 0 {
        let rest = ps.drop_last();
        assert forall|a: int, b: int| 0 <= a < rest.len() && 0 <= b < rest[a].models@.len() implies !picks(
            rest[a],
            #[trigger] rest[a].models@[b],
            needle,
        ) by {
            assert(rest[a] == ps[a]);
        }
        lemma_pick_in_none(rest, needle);
        let last = ps[ps.len() - 1];
        assert forall|j: int| 0 <= j < last.models@.len() implies !picks(last, #[trigger] last.models@[j], needle) by {}
        lemma_first_pick_none(last, last.models@, needle);
    }
}

/// `find` answers with the first match in order: when model `k` of
/// provider `i` matches the typed text (its provider connected, its name or
/// ID holding the trimmed, lower-cased text) and no model before it, in
/// provider order and then model order, matches, `find` gives that model's
/// ID.
pub proof fn law_find_takes_the_first_match(ps: Seq<ProviderStatus>, needle: Seq<char>, i: int, k: int)
    requires
        0 <= i < ps.len(),
        0 <= k < ps[i].models@.len(),
        matches_at(ps, needle, i, k),
        forall|a: int, b: int|
            (0 <= a < i && 0 <= b < ps[a].models@.len()) || (a == i && 0 <= b < k) ==> !#[trigger] matches_at(
                ps,
                needle,
                a,
                b,
            ),
    ensures
        pick_in(ps, needle) == Some(ps[i].models@[k].id@),
    decreases ps.len(),
{
    lemma_matches_picks(ps, needle, i, k);
    if i < ps.len() - 1 {
        let rest = ps.drop_last();
        assert(rest[i] == ps[i]);
        assert forall|a: int, b: int|
            (0 <= a < i && 0 <= b < rest[a].models@.len()) || (a == i && 0 <= b < k) implies !#[trigger] matches_at(
            rest,
            needle,
            a,
            b,
        ) by {
            assert(rest[a] == ps[a]);
            assert(!matches_at(ps, needle, a, b));
        }
        law_find_takes_the_first_match(rest, needle, i, k);
    } else {
        let rest = ps.drop_last();
        assert forall|a: int, b: int| 0 <= a < rest.len() && 0 <= b < rest[a].models@.len() implies !picks(
            rest[a],
            #[trigger] rest[a].models@[b],
            needle,
        ) by {
            assert(rest[a] == ps[a]);
            assert(!matches_at(ps, needle, a, b));
            lemma_matches_picks(ps, needle, a, b);
        }
        lemma_pick_in_none(rest, needle);
        assert forall|j: int| 0 <= j < k implies !picks(ps[i], #[trigger] ps[i].models@[j], needle) by {
            assert(!matches_at(ps, needle, i, j));
            lemma_matches_picks(ps, needle, i, j);
        }
        lemma_first_pick_is_first(ps[i], ps[i].models@, needle, k);
    }
}

/// Every model the picker lists: (provider, model) positions in order.
pub fn models(providers: &Option<ProvidersState>) -> (r: Vec<(usize, usize)>)
    ensures
        r@.len() == model_pairs(provider_list(*providers)).len(),
        forall|k: int|
            0 <= k < r@.len() ==> (#[trigger] r@[k]).0 as int == model_pairs(
                provider_list(*providers),
            )[k].0 && r@[k].1 as int == model_pairs(provider_list(*providers))[k].1,
{
    let mut r: Vec<(usize, usize)> = Vec::new();
    let ps = match providers {
        Some(state) => &state.providers,
        None => {
            return r;
        },
    };
    let mut i: usize = 0;
    while i < ps.len()
        invariant
            i <= ps.len(),
            r@.len() == model_pairs(ps@.take(i as int)).len(),
            forall|k: int|
                0 <= k < r@.len() ==> (#[trigger] r@[k]).0 as int == model_pairs(ps@.take(i as int))[k].0
                    && r@[k].1 as int == model_pairs(ps@.take(i as int))[k].1,
        decreases ps.len() - i,
    {
        let ghost before = r@;
        let ghost done = model_pairs(ps@.take(i as int));
        let n = ps[i].models.len();
        let mut j: usize = 0;
        while j < n
            invariant
                j <= n == ps@[i as int].models@.len(),
                i < ps.len(),
                r@.len() == before.len() + j,
                before.len() == done.len(),
                forall|k: int| 0 <= k < before.len() ==> #[trigger] r@[k] == before[k],
                forall|k: int|
                    0 <= k < before.len() ==> (#[trigger] before[k]).0 as int == done[k].0
                        && before[k].1 as int == done[k].1,
                forall|k: int|
                    before.len() <= k < r@.len() ==> (#[trigger] r@[k]).0 == i && r@[k].1 == k
                        - before.len(),
            decreases n - j,
        {
            r.push((i, j));
            j += 1;
        }
        proof {
            assert(ps@.take(i + 1).drop_last() =~= ps@.take(i as int));
            assert(ps@.take(i + 1).last() == ps@[i as int]);
        }
        i += 1;
    }
    proof {
        assert(ps@.take(ps.len() as int) =~= ps@);
    }
    r
}

/// Whether two texts are the same.
fn same_text(a: &str, b: &str) -> (r: bool)
    ensures
        r == (a@ == b@),
{
    vec_eq(&chars_of(a), &chars_of(b))
}

/// The first model of `ms` with this ID.
fn find_id(ms: &Vec<ProviderModel>, id: &str) -> (r: Option<usize>)
    ensures
        match r {
            Some(k) => first_with_id(ms@, id@) == Some(k as int) && k < ms.len(),
            None => first_with_id(ms@, id@) is None,
        },
{
    let mut j: usize = 0;
    while j < ms.len()
        invariant
            j <= ms.len(),
            first_with_id(ms@.take(j as int), id@) is None,
        decreases ms.len() - j,
    {
        proof {
            assert(ms@.take(j + 1).drop_last() =~= ms@.take(j as int));
        }
        if same_text(ms[j].id.as_str(), id) {
            proof {
                lemma_first_with_id_take(ms@, id@, j as int);
            }
            return Some(j);
        }
        j += 1;
    }
    proof {
        assert(ms@.take(ms.len() as int) =~= ms@);
    }
    None
}

proof fn lemma_first_with_id_take(ms: Seq<ProviderModel>, id: Seq<char>, j: int)
    requires
        0 <= j < ms.len(),
        first_with_id(ms.take(j), id) is None,
        ms[j].id@ == id,
    ensures
        first_with_id(ms, id) == Some(j),
    decreases ms.len(),
{
    if j < ms.len() - 1 {
        assert(ms.drop_last().take(j) =~= ms.take(j));
        lemma_first_with_id_take(ms.drop_last(), id, j);
    } else {
        assert(ms.drop_last() =~= ms.take(j));
    }
}

/// What the picker's trigger reads for the chosen model.
pub fn label(providers: &Option<ProvidersState>, current: &Option<String>) -> (r: String)
    ensures
        r@ == spec_label(
            *providers,
            match current {
                Some(c) => Some(c@),
                None => None,
            },
        ),
{
    let choose = "Choose a model";
    let id = match current {
        Some(c) => c.as_str(),
        None => {
            return String::from_str(choose);
        },
    };
    let ps = match providers {
        Some(state) => &state.providers,
        None => {
            return String::from_str(choose);
        },
    };
    let mut i: usize = 0;
    while i < ps.len()
        invariant
            i <= ps.len(),
            ps@ == provider_list(*providers),
            current matches Some(c) && c@ == id@,
            labelled_in(ps@.take(i as int), id@) is None,
        decreases ps.len() - i,
    {
        proof {
            assert(ps@.take(i + 1).drop_last() =~= ps@.take(i as int));
            assert(ps@.take(i + 1).last() == ps@[i as int]);
        }
        match find_id(&ps[i].models, id) {
            Some(k) => {
                proof {
                    let t = ps@.take(i + 1);
                    assert(t.drop_last() =~= ps@.take(i as int));
                    assert(t.last().models@ == ps@[i as int].models@);
                    assert(first_with_id(t.last().models@, id@) == Some(k as int));
                    assert(labelled_in(t, id@) == Some((ps@[i as int].models@[k as int].name@, ps@[i as int].name@)));
                    lemma_labelled_prefix(ps@, id@, i + 1);
                }
                let mut v: Vec<char> = Vec::new();
                push_str(&mut v, ps[i].models[k].name.as_str());
                push_str(&mut v, " · ");
                push_str(&mut v, ps[i].name.as_str());
                return string_of(&v);
            },
            None => {},
        }
        i += 1;
    }
    proof {
        assert(ps@.take(ps.len() as int) =~= ps@);
    }
    String::from_str(choose)
}

proof fn lemma_labelled_prefix(ps: Seq<ProviderStatus>, id: Seq<char>, j: int)
    requires
        0 < j <= ps.len(),
        labelled_in(ps.take(j), id) is Some,
    ensures
        labelled_in(ps, id) == labelled_in(ps.take(j), id),
    decreases ps.len(),
{
    if j < ps.len() {
        assert(ps.drop_last().take(j) =~= ps.take(j));
        lemma_labelled_prefix(ps.drop_last(), id, j);
    } else {
        assert(ps.take(j) =~= ps);
    }
}

proof fn lemma_pick_prefix(ps: Seq<ProviderStatus>, needle: Seq<char>, j: int)
    requires
        0 < j <= ps.len(),
        pick_in(ps.take(j), needle) is Some,
    ensures
        pick_in(ps, needle) == pick_in(ps.take(j), needle),
    decreases ps.len(),
{
    if j < ps.len() {
        assert(ps.drop_last().take(j) =~= ps.take(j));
        lemma_pick_prefix(ps.drop_last(), needle, j);
    } else {
        assert(ps.take(j) =~= ps);
    }
}

/// Whether the needle picks this model of this provider.
fn picks_exec(p: &ProviderStatus, m: &ProviderModel, needle: &Vec<char>) -> (r: bool)
    ensures
        r == picks(*p, *m, needle@),
{
    if !p.connected {
        return false;
    }
    let name = chars_of(lowercase(m.name.as_str()).as_str());
    if contains(&name, needle) {
        return true;
    }
    let id = chars_of(lowercase(m.id.as_str()).as_str());
    contains(&id, needle)
}

/// The first model of `p` that the needle picks.
fn pick_model(p: &ProviderStatus, needle: &Vec<char>) -> (r: Option<usize>)
    ensures
        match r {
            Some(k) => first_pick(*p, p.models@, needle@) == Some(k as int) && k < p.models.len(),
            None => first_pick(*p, p.models@, needle@) is None,
        },
{
    let ms = &p.models;
    let mut j: usize = 0;
    while j < ms.len()
        invariant
            j <= ms.len(),
            ms@ == p.models@,
            first_pick(*p, ms@.take(j as int), needle@) is None,
        decreases ms.len() - j,
    {
        proof {
            assert(ms@.take(j + 1).drop_last() =~= ms@.take(j as int));
        }
        if picks_exec(p, &ms[j], needle) {
            proof {
                assert(picks(*p, ms@[j as int], needle@));
                lemma_first_pick_take(*p, ms@, needle@, j as int);
                assert(first_pick(*p, ms@, needle@) == Some(j as int));
            }
            return Some(j);
        }
        j += 1;
    }
    proof {
        assert(ms@.take(ms.len() as int) =~= ms@);
    }
    None
}

proof fn lemma_first_pick_take(p: ProviderStatus, ms: Seq<ProviderModel>, needle: Seq<char>, j: int)
    requires
        0 <= j < ms.len(),
        first_pick(p, ms.take(j), needle) is None,
        picks(p, ms[j], needle),
    ensures
        first_pick(p, ms, needle) == Some(j),
    decreases ms.len(),
{
    if j < ms.len() - 1 {
        assert(ms.drop_last().take(j) =~= ms.take(j));
        lemma_first_pick_take(p, ms.drop_last(), needle, j);
    } else {
        assert(ms.drop_last() =~= ms.take(j));
    }
}

/// The first connected model whose name or ID contains the text, ignoring
/// case and the spaces around it.
pub fn find(providers: &Option<ProvidersState>, needle: &str) -> (r: Option<String>)
    ensures
        match r {
            Some(id) => spec_find(*providers, needle@) == Some(id@),
            None => spec_find(*providers, needle@) is None,
        },
{
    let t = string_of(&trimmed(&chars_of(needle)));
    let n = chars_of(lowercase(t.as_str()).as_str());
    let ps = match providers {
        Some(state) => &state.providers,
        None => {
            return None;
        },
    };
    let mut i: usize = 0;
    while i < ps.len()
        invariant
            i <= ps.len(),
            ps@ == provider_list(*providers),
            n@ == unicode_lowercase(trim(needle@)),
            pick_in(ps@.take(i as int), n@) is None,
        decreases ps.len() - i,
    {
        proof {
            assert(ps@.take(i + 1).drop_last() =~= ps@.take(i as int));
            assert(ps@.take(i + 1).last() == ps@[i as int]);
        }
        match pick_model(&ps[i], &n) {
            Some(k) => {
                proof {
                    lemma_pick_prefix(ps@, n@, i + 1);
                }
                return Some(ps[i].models[k].id.clone());
            },
            None => {},
        }
        i += 1;
    }
    proof {
        assert(ps@.take(ps.len() as int) =~= ps@);
    }
    None
}

// ----- Opening and closing ------------------------------------------------------

/// Whether the picker is open, fading out, and which opening or closing
/// is the latest.
#[derive(Clone, Copy, Debug, PartialEq, Eq, Structural, Default)]
pub struct ModelMenu {
    pub open: bool,
    pub closing: bool,
    pub generation: u64,
}

/// Closing: the menu starts fading, and a timer is set for this generation.
pub open spec fn spec_close(m: ModelMenu) -> ModelMenu {
    if !m.open {
        m
    } else {
        ModelMenu { open: false, closing: true, generation: (m.generation + 1) as u64 }
    }
}

/// Toggling: close an open menu, open a closed one.
pub open spec fn spec_toggle(m: ModelMenu) -> ModelMenu {
    if m.open {
        spec_close(m)
    } else {
        ModelMenu { open: true, closing: false, generation: (m.generation + 1) as u64 }
    }
}

/// A fade timer ended: only the latest closing stops being drawn.
pub open spec fn spec_faded(m: ModelMenu, generation: u64) -> ModelMenu {
    if m.generation == generation {
        ModelMenu { closing: false, ..m }
    } else {
        m
    }
}

impl ModelMenu {
    /// Close the menu. Gives back the generation the fade timer is for,
    /// when the menu was open.
    pub fn close(&mut self) -> (r: Option<u64>)
        requires
            old(self).generation < u64::MAX,
        ensures
            *final(self) == spec_close(*old(self)),
            r == (if old(self).open {
                Some(final(self).generation)
            } else {
                None
            }),
    {
        if !self.open {
            return None;
        }
        self.open = false;
        self.closing = true;
        self.generation += 1;
        Some(self.generation)
    }

    /// Open a closed menu, or close an open one. Gives back the generation
    /// of a fade timer to set, if the menu closed.
    pub fn toggle(&mut self) -> (r: Option<u64>)
        requires
            old(self).generation < u64::MAX,
        ensures
            *final(self) == spec_toggle(*old(self)),
            r == (if old(self).open {
                Some(final(self).generation)
            } else {
                None
            }),
    {
        if self.open {
            self.close()
        } else {
            self.generation += 1;
            self.open = true;
            self.closing = false;
            None
        }
    }

    /// A fade timer for `generation` ended.
    pub fn faded(&mut self, generation: u64)
        ensures
            *final(self) == spec_faded(*old(self), generation),
    {
        if self.generation == generation {
            self.closing = false;
        }
    }
}

/// A fade that ends after the menu was opened again does not hide it: only
/// the latest closing's timer stops the fade.
pub proof fn law_stale_fade_is_ignored(m: ModelMenu)
    requires
        m.open,
        m.generation < u64::MAX - 1,
    ensures
        spec_faded(spec_toggle(spec_close(m)), spec_close(m).generation) == spec_toggle(spec_close(m)),
        spec_toggle(spec_close(m)).open,
        spec_faded(spec_close(m), spec_close(m).generation).closing == false,
{
}

} // verus!
