//! Which feature each container of the SFC model holds: every component
//! of the drawing sheet, a composite figure, an attribute attachment or a
//! composite curve comes from its own position among the typed features.

use vstd::prelude::*;
use crate::model::{SfcModel, TypedFeature, TypedFeatureInstance};

verus! {

/// What holds the typed feature at a position: `(0, 0)` the sheet,
/// `(1, d)` composite figure `d`, `(2, a)` attribute attachment `a`,
/// `(3, c)` composite curve `c`, `(4, 0)` the components waiting for the
/// next container, `(-1, 0)` nothing.
pub open spec fn waiting() -> (int, int) {
    (4, 0)
}

pub open spec fn held_by_nothing() -> (int, int) {
    (-1, 0)
}

/// `ids` are the ids of the typed features at `pos`, held by `code`, in
/// increasing position order.
pub open spec fn list_ok(
    typed: Seq<TypedFeatureInstance>,
    own: Seq<(int, int)>,
    ids: Seq<i64>,
    pos: Seq<int>,
    code: (int, int),
) -> bool {
    &&& pos.len() == ids.len()
    &&& forall|j: int|
        0 <= j < pos.len() ==> 0 <= #[trigger] pos[j] < own.len() && pos[j] < typed.len()
            && typed[pos[j]].id == ids[j] && own[pos[j]] == code
    &&& forall|j: int, l: int| 0 <= j < l < pos.len() ==> #[trigger] pos[j] < #[trigger] pos[l]
}

/// Every list of a family of containers of kind `kind` is held by its own code.
pub open spec fn family_ok(
    typed: Seq<TypedFeatureInstance>,
    own: Seq<(int, int)>,
    lists: Seq<Seq<i64>>,
    poss: Seq<Seq<int>>,
    kind: int,
) -> bool {
    &&& lists.len() == poss.len()
    &&& forall|d: int| 0 <= d < lists.len() ==> list_ok(typed, own, #[trigger] lists[d], poss[d], (kind, d))
}

/// Relabels every position held by `from` as held by `to`.
pub open spec fn relabel(own: Seq<(int, int)>, from: (int, int), to: (int, int)) -> Seq<(int, int)> {
    Seq::new(own.len(), |p: int| if own[p] == from { to } else { own[p] })
}

pub proof fn lemma_list_relabel(
    typed: Seq<TypedFeatureInstance>,
    own: Seq<(int, int)>,
    ids: Seq<i64>,
    pos: Seq<int>,
    code: (int, int),
    from: (int, int),
    to: (int, int),
)
    requires
        list_ok(typed, own, ids, pos, code),
    ensures
        list_ok(typed, relabel(own, from, to), ids, pos, if code == from { to } else { code }),
{
    assert forall|j: int| 0 <= j < pos.len() implies relabel(own, from, to)[#[trigger] pos[j]] == (
    if code == from {
        to
    } else {
        code
    }) by {
        assert(own[pos[j]] == code);
    }
}

pub proof fn lemma_family_relabel(
    typed: Seq<TypedFeatureInstance>,
    own: Seq<(int, int)>,
    lists: Seq<Seq<i64>>,
    poss: Seq<Seq<int>>,
    kind: int,
    from: (int, int),
    to: (int, int),
)
    requires
        family_ok(typed, own, lists, poss, kind),
        from.0 != kind,
    ensures
        family_ok(typed, relabel(own, from, to), lists, poss, kind),
{
    assert forall|d: int| 0 <= d < lists.len() implies list_ok(
        typed,
        relabel(own, from, to),
        #[trigger] lists[d],
        poss[d],
        (kind, d),
    ) by {
        lemma_list_relabel(typed, own, lists[d], poss[d], (kind, d), from, to);
    }
}

pub proof fn lemma_list_grow(
    typed: Seq<TypedFeatureInstance>,
    own: Seq<(int, int)>,
    ids: Seq<i64>,
    pos: Seq<int>,
    code: (int, int),
    x: (int, int),
)
    requires
        list_ok(typed, own, ids, pos, code),
    ensures
        list_ok(typed, own.push(x), ids, pos, code),
{
    assert forall|j: int| 0 <= j < pos.len() implies own.push(x)[#[trigger] pos[j]] == code by {
        assert(own[pos[j]] == code);
    }
}

pub proof fn lemma_family_grow(
    typed: Seq<TypedFeatureInstance>,
    own: Seq<(int, int)>,
    lists: Seq<Seq<i64>>,
    poss: Seq<Seq<int>>,
    kind: int,
    x: (int, int),
)
    requires
        family_ok(typed, own, lists, poss, kind),
    ensures
        family_ok(typed, own.push(x), lists, poss, kind),
{
    assert forall|d: int| 0 <= d < lists.len() implies list_ok(
        typed,
        own.push(x),
        #[trigger] lists[d],
        poss[d],
        (kind, d),
    ) by {
        lemma_list_grow(typed, own, lists[d], poss[d], (kind, d), x);
    }
}

/// The waiting list gains the feature at the newest position.
pub proof fn lemma_wait(
    typed: Seq<TypedFeatureInstance>,
    own: Seq<(int, int)>,
    ids: Seq<i64>,
    pos: Seq<int>,
)
    requires
        list_ok(typed, own, ids, pos, waiting()),
        own.len() < typed.len(),
    ensures
        list_ok(
            typed,
            own.push(waiting()),
            ids.push(typed[own.len() as int].id),
            pos.push(own.len() as int),
            waiting(),
        ),
{
    let n = own.len() as int;
    let own2 = own.push(waiting());
    let pos2 = pos.push(n);
    assert forall|j: int| 0 <= j < pos2.len() implies 0 <= #[trigger] pos2[j] < own2.len()
        && pos2[j] < typed.len() && typed[pos2[j]].id == ids.push(typed[n].id)[j] && own2[pos2[j]]
        == waiting() by {
        if j < pos.len() {
            assert(pos2[j] == pos[j]);
            assert(own[pos[j]] == waiting());
        }
    }
    assert forall|j: int, l: int| 0 <= j < l < pos2.len() implies #[trigger] pos2[j] < #[trigger] pos2[l] by {
        if l < pos.len() {
            assert(pos2[j] == pos[j] && pos2[l] == pos[l]);
        } else {
            assert(pos2[j] == pos[j]);
            assert(pos[j] < own.len());
        }
    }
}

/// A family gains a new last container.
pub proof fn lemma_family_push(
    typed: Seq<TypedFeatureInstance>,
    own: Seq<(int, int)>,
    lists: Seq<Seq<i64>>,
    poss: Seq<Seq<int>>,
    kind: int,
    ids: Seq<i64>,
    pos: Seq<int>,
)
    requires
        family_ok(typed, own, lists, poss, kind),
        list_ok(typed, own, ids, pos, (kind, lists.len() as int)),
    ensures
        family_ok(typed, own, lists.push(ids), poss.push(pos), kind),
{
    assert forall|d: int| 0 <= d < lists.push(ids).len() implies list_ok(
        typed,
        own,
        #[trigger] lists.push(ids)[d],
        poss.push(pos)[d],
        (kind, d),
    ) by {
        if d < lists.len() {
            assert(lists.push(ids)[d] == lists[d]);
            assert(poss.push(pos)[d] == poss[d]);
        }
    }
}

/// Component lists of the model, family by family.
pub open spec fn sfig_lists(m: SfcModel) -> Seq<Seq<i64>> {
    Seq::new(m.sfig_definitions@.len(), |d: int| m.sfig_definitions@[d].component_ids@)
}

pub open spec fn attachment_lists(m: SfcModel) -> Seq<Seq<i64>> {
    Seq::new(m.attribute_attachments@.len(), |a: int| m.attribute_attachments@[a].component_ids@)
}

pub open spec fn curve_lists(m: SfcModel) -> Seq<Seq<i64>> {
    Seq::new(
        m.composite_curve_definitions@.len(),
        |c: int| m.composite_curve_definitions@[c].component_ids@,
    )
}

/// Positions behind every container of a model and behind the waiting list.
pub struct Placing {
    pub own: Seq<(int, int)>,
    pub sheet: Seq<int>,
    pub sfigs: Seq<Seq<int>>,
    pub attachments: Seq<Seq<int>>,
    pub curves: Seq<Seq<int>>,
    pub waiting: Seq<int>,
}

/// `c` names a container of `m`.
pub open spec fn code_ok(m: SfcModel, c: (int, int)) -> bool {
    ||| c == (0int, 0int) && m.sheet is Some
    ||| c.0 == 1 && 0 <= c.1 < sfig_lists(m).len()
    ||| c.0 == 2 && 0 <= c.1 < attachment_lists(m).len()
    ||| c.0 == 3 && 0 <= c.1 < curve_lists(m).len()
}

/// The positions behind the container named `c`.
pub open spec fn positions_of_code(g: Placing, c: (int, int)) -> Seq<int> {
    if c.0 == 0 {
        g.sheet
    } else if c.0 == 1 {
        g.sfigs[c.1]
    } else if c.0 == 2 {
        g.attachments[c.1]
    } else {
        g.curves[c.1]
    }
}

/// Every position is held by nothing, waits, or is listed by the container
/// that holds it.
pub open spec fn placing_complete(m: SfcModel, g: Placing) -> bool {
    forall|k: int|
        0 <= k < g.own.len() ==> {
            let c = #[trigger] g.own[k];
            ||| c == held_by_nothing()
            ||| c == waiting() && g.waiting.contains(k)
            ||| code_ok(m, c) && positions_of_code(g, c).contains(k)
        }
}

/// `g` accounts for every container of `m` and the waiting ids `buffer`.
pub open spec fn placing_ok(
    typed: Seq<TypedFeatureInstance>,
    m: SfcModel,
    buffer: Seq<i64>,
    g: Placing,
) -> bool {
    &&& list_ok(typed, g.own, buffer, g.waiting, waiting())
    &&& (m.sheet matches Some(s) ==> list_ok(typed, g.own, s.component_ids@, g.sheet, (0, 0)))
    &&& family_ok(typed, g.own, sfig_lists(m), g.sfigs, 1)
    &&& family_ok(typed, g.own, attachment_lists(m), g.attachments, 2)
    &&& family_ok(typed, g.own, curve_lists(m), g.curves, 3)
    &&& placing_complete(m, g)
}

/// The number of containers of a model.
pub open spec fn container_count(m: SfcModel) -> int {
    (if m.sheet is Some { 1int } else { 0int }) + m.sfig_definitions@.len()
        + m.attribute_attachments@.len() + m.composite_curve_definitions@.len()
}

/// The components of container `a`: the sheet first (if any), then the
/// composite figures, the attribute attachments and the composite curves.
pub open spec fn container_at(m: SfcModel, a: int) -> Seq<i64> {
    let s = if m.sheet is Some { 1int } else { 0int };
    let nd = m.sfig_definitions@.len() as int;
    let na = m.attribute_attachments@.len() as int;
    if a < s {
        m.sheet.unwrap().component_ids@
    } else if a < s + nd {
        m.sfig_definitions@[a - s].component_ids@
    } else if a < s + nd + na {
        m.attribute_attachments@[a - s - nd].component_ids@
    } else {
        m.composite_curve_definitions@[a - s - nd - na].component_ids@
    }
}

pub open spec fn code_at(m: SfcModel, a: int) -> (int, int) {
    let s = if m.sheet is Some { 1int } else { 0int };
    let nd = m.sfig_definitions@.len() as int;
    let na = m.attribute_attachments@.len() as int;
    if a < s {
        (0, 0)
    } else if a < s + nd {
        (1, a - s)
    } else if a < s + nd + na {
        (2, a - s - nd)
    } else {
        (3, a - s - nd - na)
    }
}

pub open spec fn positions_at(m: SfcModel, g: Placing, a: int) -> Seq<int> {
    let s = if m.sheet is Some { 1int } else { 0int };
    let nd = m.sfig_definitions@.len() as int;
    let na = m.attribute_attachments@.len() as int;
    if a < s {
        g.sheet
    } else if a < s + nd {
        g.sfigs[a - s]
    } else if a < s + nd + na {
        g.attachments[a - s - nd]
    } else {
        g.curves[a - s - nd - na]
    }
}

/// No two typed features share an entity id.
pub open spec fn distinct_ids(typed: Seq<TypedFeatureInstance>) -> bool {
    forall|k1: int, k2: int|
        0 <= k1 < k2 < typed.len() ==> (#[trigger] typed[k1]).id != (#[trigger] typed[k2]).id
}

/// No entity id occurs twice among the components of all containers.
pub open spec fn components_unique(m: SfcModel) -> bool {
    forall|a: int, b: int, j: int, l: int|
        0 <= a < container_count(m) && 0 <= b < container_count(m) && 0 <= j < container_at(m, a).len()
            && 0 <= l < container_at(m, b).len() && #[trigger] container_at(m, a)[j]
            == #[trigger] container_at(m, b)[l] ==> a == b && j == l
}

/// Each container lists its components at the positions that `g` gives it.
proof fn lemma_containers_listed(typed: Seq<TypedFeatureInstance>, m: SfcModel, buffer: Seq<i64>, g: Placing)
    requires
        placing_ok(typed, m, buffer, g),
    ensures
        forall|a: int|
            0 <= a < container_count(m) ==> list_ok(
                typed,
                g.own,
                #[trigger] container_at(m, a),
                positions_at(m, g, a),
                code_at(m, a),
            ),
{
    assert forall|a: int| 0 <= a < container_count(m) implies list_ok(
        typed,
        g.own,
        #[trigger] container_at(m, a),
        positions_at(m, g, a),
        code_at(m, a),
    ) by {
        let s = if m.sheet is Some { 1int } else { 0int };
        let nd = m.sfig_definitions@.len() as int;
        let na = m.attribute_attachments@.len() as int;
        if a < s {
        } else if a < s + nd {
            assert(sfig_lists(m)[a - s] == m.sfig_definitions@[a - s].component_ids@);
        } else if a < s + nd + na {
            assert(attachment_lists(m)[a - s - nd] == m.attribute_attachments@[a - s - nd].component_ids@);
        } else {
            assert(curve_lists(m)[a - s - nd - na] == m.composite_curve_definitions@[a - s - nd
                - na].component_ids@);
        }
    }
}

/// With distinct entity ids, a feature is a component of at most one
/// container, and at most once.
pub proof fn lemma_components_unique(typed: Seq<TypedFeatureInstance>, m: SfcModel, buffer: Seq<i64>, g: Placing)
    requires
        placing_ok(typed, m, buffer, g),
        distinct_ids(typed),
    ensures
        components_unique(m),
{
    lemma_containers_listed(typed, m, buffer, g);
    assert forall|a: int, b: int, j: int, l: int|
        0 <= a < container_count(m) && 0 <= b < container_count(m) && 0 <= j < container_at(m, a).len()
            && 0 <= l < container_at(m, b).len() && #[trigger] container_at(m, a)[j]
            == #[trigger] container_at(m, b)[l] implies a == b && j == l by {
        let pa = positions_at(m, g, a);
        let pb = positions_at(m, g, b);
        assert(list_ok(typed, g.own, container_at(m, a), pa, code_at(m, a)));
        assert(list_ok(typed, g.own, container_at(m, b), pb, code_at(m, b)));
        let p = pa[j];
        let q = pb[l];
        assert(typed[p].id == container_at(m, a)[j]);
        assert(typed[q].id == container_at(m, b)[l]);
        if p < q {
            assert(typed[p].id != typed[q].id);
        } else if q < p {
            assert(typed[q].id != typed[p].id);
        }
        assert(p == q);
        assert(g.own[p] == code_at(m, a));
        assert(g.own[q] == code_at(m, b));
        assert(code_at(m, a) == code_at(m, b));
        assert(a == b);
        if j < l {
            assert(pa[j] < pa[l]);
        } else if l < j {
            assert(pa[l] < pa[j]);
        }
    }
}

/// `id` is a component of some container of `m`.
pub open spec fn in_container(m: SfcModel, id: i64) -> bool {
    exists|a: int, j: int|
        0 <= a < container_count(m) && 0 <= j < container_at(m, a).len() && #[trigger] container_at(
            m,
            a,
        )[j] == id
}

/// The index among all containers of the container named `c`.
pub open spec fn index_of_code(m: SfcModel, c: (int, int)) -> int {
    let s = if m.sheet is Some { 1int } else { 0int };
    let nd = m.sfig_definitions@.len() as int;
    let na = m.attribute_attachments@.len() as int;
    if c.0 == 0 {
        0
    } else if c.0 == 1 {
        s + c.1
    } else if c.0 == 2 {
        s + nd + c.1
    } else {
        s + nd + na + c.1
    }
}

/// With nothing waiting and distinct ids, a feature is a component of some
/// container exactly when `g` gives its position to one.
pub proof fn lemma_membership(typed: Seq<TypedFeatureInstance>, m: SfcModel, g: Placing)
    requires
        placing_ok(typed, m, Seq::empty(), g),
        distinct_ids(typed),
        g.own.len() == typed.len(),
    ensures
        forall|k: int|
            0 <= k < typed.len() ==> (in_container(m, #[trigger] typed[k].id) <==> g.own[k]
                != held_by_nothing()),
{
    lemma_containers_listed(typed, m, Seq::empty(), g);
    assert forall|k: int| 0 <= k < typed.len() implies (in_container(m, #[trigger] typed[k].id)
        <==> g.own[k] != held_by_nothing()) by {
        let id = typed[k].id;
        let c = g.own[k];
        if c != held_by_nothing() {
            assert(!g.waiting.contains(k));
            let a = index_of_code(m, c);
            assert(code_at(m, a) == c);
            assert(positions_at(m, g, a) == positions_of_code(g, c));
            let w = choose|w: int| 0 <= w < positions_of_code(g, c).len() && positions_of_code(g, c)[w] == k;
            assert(list_ok(typed, g.own, container_at(m, a), positions_at(m, g, a), code_at(m, a)));
            assert(container_at(m, a)[w] == id);
        }
        if in_container(m, id) {
            let (a, j) = choose|a: int, j: int|
                0 <= a < container_count(m) && 0 <= j < container_at(m, a).len() && #[trigger] container_at(
                    m,
                    a,
                )[j] == id;
            assert(list_ok(typed, g.own, container_at(m, a), positions_at(m, g, a), code_at(m, a)));
            let p = positions_at(m, g, a)[j];
            assert(typed[p].id == id);
            if p < k {
                assert(typed[p].id != typed[k].id);
            } else if k < p {
                assert(typed[k].id != typed[p].id);
            }
            assert(g.own[p] == code_at(m, a));
        }
    }
}

/// A drawing sheet comes before position `k`.
pub open spec fn sheet_before(typed: Seq<TypedFeatureInstance>, k: int) -> bool {
    exists|p: int| 0 <= p < k && (#[trigger] typed[p]).feature is DrawingSheet
}

/// A feature that becomes a component of the next container: one that must
/// come before the drawing sheet and is not itself a composite figure or a
/// composite curve.
pub open spec fn joins_container(f: TypedFeature) -> bool {
    f.spec_requires_pre_sheet_order() && !(f is SfigOrg) && !(f is CompositeCurve)
}

/// The same containers, with the same components.
pub open spec fn same_components(m: SfcModel, m2: SfcModel) -> bool {
    &&& (m2.sheet is Some <==> m.sheet is Some)
    &&& (m.sheet matches Some(s) ==> m2.sheet.unwrap().component_ids@ == s.component_ids@)
    &&& sfig_lists(m2) == sfig_lists(m)
    &&& attachment_lists(m2) == attachment_lists(m)
    &&& curve_lists(m2) == curve_lists(m)
}

pub proof fn lemma_step_same(typed: Seq<TypedFeatureInstance>, m: SfcModel, m2: SfcModel, buf: Seq<i64>, g: Placing)
    requires
        placing_ok(typed, m, buf, g),
        same_components(m, m2),
    ensures
        placing_ok(typed, m2, buf, g),
{
}

/// The waiting components are dropped.
pub proof fn lemma_step_clear(typed: Seq<TypedFeatureInstance>, m: SfcModel, buf: Seq<i64>, g: Placing) -> (g2: Placing)
    requires
        placing_ok(typed, m, buf, g),
    ensures
        placing_ok(typed, m, Seq::empty(), g2),
        g2.own.len() == g.own.len(),
{
    let to = held_by_nothing();
    let g2 = Placing {
        own: relabel(g.own, waiting(), to),
        sheet: g.sheet,
        sfigs: g.sfigs,
        attachments: g.attachments,
        curves: g.curves,
        waiting: Seq::empty(),
    };
    if m.sheet is Some {
        lemma_list_relabel(typed, g.own, m.sheet.unwrap().component_ids@, g.sheet, (0, 0), waiting(), to);
    }
    lemma_family_relabel(typed, g.own, sfig_lists(m), g.sfigs, 1, waiting(), to);
    lemma_family_relabel(typed, g.own, attachment_lists(m), g.attachments, 2, waiting(), to);
    lemma_family_relabel(typed, g.own, curve_lists(m), g.curves, 3, waiting(), to);
    g2
}

/// The waiting components become those of a new container of code `to`,
/// which no position holds yet.
proof fn lemma_take_common(typed: Seq<TypedFeatureInstance>, m: SfcModel, buf: Seq<i64>, g: Placing, to: (int, int)) -> (g2: Placing)
    requires
        placing_ok(typed, m, buf, g),
        0 <= to.0 <= 3,
        to.0 == 0 ==> m.sheet is None,
        to.0 == 1 ==> to.1 == sfig_lists(m).len(),
        to.0 == 2 ==> to.1 == attachment_lists(m).len(),
        to.0 == 3 ==> to.1 == curve_lists(m).len(),
    ensures
        g2.own == relabel(g.own, waiting(), to),
        g2.sheet == (if to.0 == 0 { g.waiting } else { g.sheet }),
        g2.sfigs == (if to.0 == 1 { g.sfigs.push(g.waiting) } else { g.sfigs }),
        g2.attachments == (if to.0 == 2 { g.attachments.push(g.waiting) } else { g.attachments }),
        g2.curves == (if to.0 == 3 { g.curves.push(g.waiting) } else { g.curves }),
        g2.waiting == Seq::<int>::empty(),
        list_ok(typed, g2.own, buf, g.waiting, to),
        m.sheet matches Some(s) ==> list_ok(typed, g2.own, s.component_ids@, g.sheet, (0, 0)),
        family_ok(typed, g2.own, sfig_lists(m), g.sfigs, 1),
        family_ok(typed, g2.own, attachment_lists(m), g.attachments, 2),
        family_ok(typed, g2.own, curve_lists(m), g.curves, 3),
{
    let own2 = relabel(g.own, waiting(), to);
    lemma_list_relabel(typed, g.own, buf, g.waiting, waiting(), waiting(), to);
    if m.sheet is Some {
        lemma_list_relabel(typed, g.own, m.sheet.unwrap().component_ids@, g.sheet, (0, 0), waiting(), to);
    }
    lemma_family_relabel(typed, g.own, sfig_lists(m), g.sfigs, 1, waiting(), to);
    lemma_family_relabel(typed, g.own, attachment_lists(m), g.attachments, 2, waiting(), to);
    lemma_family_relabel(typed, g.own, curve_lists(m), g.curves, 3, waiting(), to);
    Placing {
        own: own2,
        sheet: if to.0 == 0 { g.waiting } else { g.sheet },
        sfigs: if to.0 == 1 { g.sfigs.push(g.waiting) } else { g.sfigs },
        attachments: if to.0 == 2 { g.attachments.push(g.waiting) } else { g.attachments },
        curves: if to.0 == 3 { g.curves.push(g.waiting) } else { g.curves },
        waiting: Seq::empty(),
    }
}

/// The waiting components become a new container: the sheet (kind 0), a
/// composite figure (1), an attribute attachment (2) or a composite curve (3).
pub proof fn lemma_step_take(
    typed: Seq<TypedFeatureInstance>,
    m: SfcModel,
    buf: Seq<i64>,
    g: Placing,
    m2: SfcModel,
    kind: int,
) -> (g2: Placing)
    requires
        placing_ok(typed, m, buf, g),
        0 <= kind <= 3,
        kind == 0 ==> m.sheet is None && (m2.sheet matches Some(s) && s.component_ids@ == buf),
        kind != 0 ==> (m2.sheet is Some <==> m.sheet is Some) && (m.sheet matches Some(s)
            ==> m2.sheet.unwrap().component_ids@ == s.component_ids@),
        sfig_lists(m2) == (if kind == 1 { sfig_lists(m).push(buf) } else { sfig_lists(m) }),
        attachment_lists(m2) == (if kind == 2 { attachment_lists(m).push(buf) } else { attachment_lists(m) }),
        curve_lists(m2) == (if kind == 3 { curve_lists(m).push(buf) } else { curve_lists(m) }),
    ensures
        placing_ok(typed, m2, Seq::empty(), g2),
        g2.own.len() == g.own.len(),
        forall|k: int|
            0 <= k < g.own.len() ==> (#[trigger] g2.own[k] == held_by_nothing() <==> g.own[k]
                == held_by_nothing()),
{
    let to = if kind == 0 {
        (0int, 0int)
    } else if kind == 1 {
        (1, sfig_lists(m).len() as int)
    } else if kind == 2 {
        (2, attachment_lists(m).len() as int)
    } else {
        (3, curve_lists(m).len() as int)
    };
    let g2 = lemma_take_common(typed, m, buf, g, to);
    if kind == 1 {
        lemma_family_push(typed, g2.own, sfig_lists(m), g.sfigs, 1, buf, g.waiting);
    } else if kind == 2 {
        lemma_family_push(typed, g2.own, attachment_lists(m), g.attachments, 2, buf, g.waiting);
    } else if kind == 3 {
        lemma_family_push(typed, g2.own, curve_lists(m), g.curves, 3, buf, g.waiting);
    }
    g2
}

/// One more position: its feature is waiting (`pushed`) or held by nothing.
pub proof fn lemma_step_advance(typed: Seq<TypedFeatureInstance>, m: SfcModel, buf: Seq<i64>, g: Placing, pushed: bool) -> (g2: Placing)
    requires
        placing_ok(typed, m, buf, g),
        g.own.len() < typed.len(),
    ensures
        placing_ok(typed, m, if pushed { buf.push(typed[g.own.len() as int].id) } else { buf }, g2),
        g2.own.len() == g.own.len() + 1,
        forall|k: int| 0 <= k < g.own.len() ==> #[trigger] g2.own[k] == g.own[k],
        g2.own[g.own.len() as int] == (if pushed { waiting() } else { held_by_nothing() }),
{
    let x = if pushed { waiting() } else { held_by_nothing() };
    let g2 = Placing {
        own: g.own.push(x),
        sheet: g.sheet,
        sfigs: g.sfigs,
        attachments: g.attachments,
        curves: g.curves,
        waiting: if pushed { g.waiting.push(g.own.len() as int) } else { g.waiting },
    };
    if pushed {
        lemma_wait(typed, g.own, buf, g.waiting);
    } else {
        lemma_list_grow(typed, g.own, buf, g.waiting, waiting(), x);
    }
    if m.sheet is Some {
        lemma_list_grow(typed, g.own, m.sheet.unwrap().component_ids@, g.sheet, (0, 0), x);
    }
    lemma_family_grow(typed, g.own, sfig_lists(m), g.sfigs, 1, x);
    lemma_family_grow(typed, g.own, attachment_lists(m), g.attachments, 2, x);
    lemma_family_grow(typed, g.own, curve_lists(m), g.curves, 3, x);
    assert forall|k: int| 0 <= k < g2.own.len() implies {
        let c = #[trigger] g2.own[k];
        ||| c == held_by_nothing()
        ||| c == waiting() && g2.waiting.contains(k)
        ||| code_ok(m, c) && positions_of_code(g2, c).contains(k)
    } by {
        if k < g.own.len() {
            assert(g2.own[k] == g.own[k]);
            if g.own[k] == waiting() && g.waiting.contains(k) {
                let w = choose|w: int| 0 <= w < g.waiting.len() && g.waiting[w] == k;
                assert(g2.waiting[w] == k);
            }
        } else if pushed {
            assert(g2.waiting[g.waiting.len() as int] == k);
        }
    }
    g2
}

} // verus!
