use vstd::prelude::*;

use crate::doc::{doc_v_wf, ConfigDoc, DocValueV};
use crate::error::OrchError;

verus! {

// ---------------------------------------------------------------------------
// Profile items and the profile set.
//
// A profile is a named source of proxy configuration.  `Remote` and `Local`
// profiles carry a configuration body and may be selected as the base;
// `Script` and `Merge` profiles are transformations applied after the base
// through the processing chain.
// ---------------------------------------------------------------------------

/// The kind of a profile item.
#[derive(Debug, Clone, Copy, PartialEq, Eq, Structural)]
pub enum ProfileKind {
    Remote,
    Local,
    Script,
    Merge,
}

/// How a remote profile is fetched.
#[derive(Debug, Clone, PartialEq, Eq)]
pub struct FetchOptions {
    pub update_interval: Option<u64>,
    pub user_agent: Option<String>,
    pub with_proxy: Option<bool>,
}

/// The mathematical value of fetch options.
pub struct FetchOptionsV {
    pub update_interval: Option<u64>,
    pub user_agent: Option<Seq<char>>,
    pub with_proxy: Option<bool>,
}

impl View for FetchOptions {
    type V = FetchOptionsV;

    open spec fn view(&self) -> FetchOptionsV {
        FetchOptionsV {
            update_interval: self.update_interval,
            user_agent: match self.user_agent {
                Some(u) => Some(u@),
                None => None,
            },
            with_proxy: self.with_proxy,
        }
    }
}

/// One proxy configuration source.
#[derive(Debug, Clone, PartialEq, Eq)]
pub struct ProfileItem {
    /// Unique, stable over the item's lifetime.
    pub id: String,
    pub kind: ProfileKind,
    pub name: String,
    /// Present exactly for `Remote` items.
    pub source_url: Option<String>,
    /// Name of the materialized config file kept by the application.
    pub file_reference: String,
    /// The materialized configuration body.
    pub body: ConfigDoc,
    pub fetch: FetchOptions,
    pub update_time: u64,
}

/// The mathematical value of a profile item.
pub struct ProfileItemV {
    pub id: Seq<char>,
    pub kind: ProfileKind,
    pub name: Seq<char>,
    pub source_url: Option<Seq<char>>,
    pub file_reference: Seq<char>,
    pub body: Seq<(Seq<char>, DocValueV)>,
    pub fetch: FetchOptionsV,
    pub update_time: u64,
}

impl View for ProfileItem {
    type V = ProfileItemV;

    open spec fn view(&self) -> ProfileItemV {
        ProfileItemV {
            id: self.id@,
            kind: self.kind,
            name: self.name@,
            source_url: match self.source_url {
                Some(u) => Some(u@),
                None => None,
            },
            file_reference: self.file_reference@,
            body: self.body@,
            fetch: self.fetch@,
            update_time: self.update_time,
        }
    }
}

pub(crate) fn clone_opt_string(o: &Option<String>) -> (r: Option<String>)
    ensures
        r == *o,
{
    match o {
        Some(s) => Some(s.clone()),
        None => None,
    }
}

impl ProfileItem {
    /// An equal copy of this item.
    pub fn duplicate(&self) -> (r: ProfileItem)
        ensures
            r@ == self@,
    {
        ProfileItem {
            id: self.id.clone(),
            kind: self.kind,
            name: self.name.clone(),
            source_url: clone_opt_string(&self.source_url),
            file_reference: self.file_reference.clone(),
            body: self.body.duplicate(),
            fetch: FetchOptions {
                update_interval: self.fetch.update_interval,
                user_agent: clone_opt_string(&self.fetch.user_agent),
                with_proxy: self.fetch.with_proxy,
            },
            update_time: self.update_time,
        }
    }
}

/// The aggregate: the ordered items, the current selection, and the
/// processing chain.
#[derive(Debug, Clone, PartialEq, Eq)]
pub struct ProfileSet {
    pub items: Vec<ProfileItem>,
    pub current: Option<String>,
    pub chain: Vec<String>,
}

/// The mathematical value of a profile set.
pub struct ProfileSetV {
    pub items: Seq<ProfileItemV>,
    pub current: Option<Seq<char>>,
    pub chain: Seq<Seq<char>>,
}

pub open spec fn items_view(s: Seq<ProfileItem>) -> Seq<ProfileItemV> {
    s.map_values(|it: ProfileItem| it@)
}

pub open spec fn chain_view(s: Seq<String>) -> Seq<Seq<char>> {
    s.map_values(|id: String| id@)
}

impl View for ProfileSet {
    type V = ProfileSetV;

    open spec fn view(&self) -> ProfileSetV {
        ProfileSetV {
            items: items_view(self.items@),
            current: match self.current {
                Some(c) => Some(c@),
                None => None,
            },
            chain: chain_view(self.chain@),
        }
    }
}

// ---------------------------------------------------------------------------
// Specification helpers.
// ---------------------------------------------------------------------------

pub open spec fn has_item(items: Seq<ProfileItemV>, id: Seq<char>) -> bool {
    exists|i: int| 0 <= i < items.len() && (#[trigger] items[i]).id == id
}

pub open spec fn item_at(items: Seq<ProfileItemV>, id: Seq<char>) -> int {
    choose|i: int| 0 <= i < items.len() && (#[trigger] items[i]).id == id
}

pub open spec fn item_of(items: Seq<ProfileItemV>, id: Seq<char>) -> ProfileItemV {
    items[item_at(items, id)]
}

pub open spec fn unique_ids(items: Seq<ProfileItemV>) -> bool {
    forall|i: int, j: int|
        0 <= i < j < items.len() ==> (#[trigger] items[i]).id != (#[trigger] items[j]).id
}

/// A base profile: one that may be selected as current.
pub open spec fn selectable(k: ProfileKind) -> bool {
    k is Remote || k is Local
}

/// A transformation profile: one that may stand in the chain.
pub open spec fn chainable(k: ProfileKind) -> bool {
    k is Script || k is Merge
}

/// A source URL is required for remote items and absent for all others, and
/// the materialized body is a well-formed document.
pub open spec fn valid_item(it: ProfileItemV) -> bool {
    &&& (it.kind is Remote <==> it.source_url is Some)
    &&& doc_v_wf(it.body)
}

/// Well-formedness of the whole set.
pub open spec fn set_wf(s: ProfileSetV) -> bool {
    &&& unique_ids(s.items)
    &&& forall|i: int| 0 <= i < s.items.len() ==> valid_item(#[trigger] s.items[i])
    &&& match s.current {
        Some(c) => has_item(s.items, c) && selectable(item_of(s.items, c).kind),
        None => true,
    }
    &&& forall|i: int|
        0 <= i < s.chain.len() ==> has_item(s.items, #[trigger] s.chain[i]) && chainable(
            item_of(s.items, s.chain[i]).kind,
        )
}

/// The chain with every occurrence of `id` removed, order kept.
pub open spec fn chain_without(chain: Seq<Seq<char>>, id: Seq<char>) -> Seq<Seq<char>>
    decreases chain.len(),
{
    if chain.len() == 0 {
        Seq::empty()
    } else {
        let rest = chain_without(chain.drop_first(), id);
        if chain[0] == id {
            rest
        } else {
            seq![chain[0]] + rest
        }
    }
}

pub proof fn lemma_chain_without_contains(chain: Seq<Seq<char>>, id: Seq<char>, x: Seq<char>)
    ensures
        chain_without(chain, id).contains(x) <==> (chain.contains(x) && x != id),
    decreases chain.len(),
{
    if chain.len() > 0 {
        lemma_chain_without_contains(chain.drop_first(), id, x);
        assert(chain.contains(x) <==> (chain[0] == x || chain.drop_first().contains(x))) by {
            if chain.contains(x) {
                let i = choose|i: int| 0 <= i < chain.len() && chain[i] == x;
                if i > 0 {
                    assert(chain.drop_first()[i - 1] == x);
                }
            }
            if chain.drop_first().contains(x) {
                let i = choose|i: int|
                    0 <= i < chain.drop_first().len() && chain.drop_first()[i] == x;
                assert(chain[i + 1] == x);
            }
        }
        if chain[0] != id {
            let rest = chain_without(chain.drop_first(), id);
            assert(chain_without(chain, id) == seq![chain[0]] + rest);
            assert((seq![chain[0]] + rest).contains(x) <==> (chain[0] == x || rest.contains(x)))
                by {
                if (seq![chain[0]] + rest).contains(x) {
                    let i = choose|i: int|
                        0 <= i < (seq![chain[0]] + rest).len() && (seq![chain[0]] + rest)[i] == x;
                    if i > 0 {
                        assert(rest[i - 1] == x);
                    } else {
                        assert((seq![chain[0]] + rest)[0] == chain[0]);
                    }
                }
                if chain[0] == x {
                    assert((seq![chain[0]] + rest)[0] == x);
                }
                if rest.contains(x) {
                    let i = choose|i: int| 0 <= i < rest.len() && rest[i] == x;
                    assert((seq![chain[0]] + rest)[i + 1] == x);
                }
            }
        }
    }
}

pub proof fn lemma_chain_without_absent(chain: Seq<Seq<char>>, id: Seq<char>)
    requires
        !chain.contains(id),
    ensures
        chain_without(chain, id) == chain,
    decreases chain.len(),
{
    if chain.len() > 0 {
        assert(chain[0] != id);
        assert(!chain.drop_first().contains(id)) by {
            if chain.drop_first().contains(id) {
                let i = choose|i: int|
                    0 <= i < chain.drop_first().len() && chain.drop_first()[i] == id;
                assert(chain[i + 1] == id);
            }
        }
        lemma_chain_without_absent(chain.drop_first(), id);
        assert(chain_without(chain, id) =~= chain);
    } else {
        assert(chain_without(chain, id) =~= chain);
    }
}

// ---------------------------------------------------------------------------
// Lemmas about the item sequence.
// ---------------------------------------------------------------------------

pub proof fn lemma_items_push(items: Seq<ProfileItemV>, it: ProfileItemV)
    requires
        unique_ids(items),
        !has_item(items, it.id),
    ensures
        unique_ids(items.push(it)),
        has_item(items.push(it), it.id),
        item_of(items.push(it), it.id) == it,
        forall|id: Seq<char>|
            #[trigger] has_item(items, id) ==> has_item(items.push(it), id) && item_of(
                items.push(it),
                id,
            ) == item_of(items, id),
        forall|id: Seq<char>|
            #[trigger] has_item(items.push(it), id) ==> id == it.id || has_item(items, id),
{
    let p = items.push(it);
    assert forall|i: int, j: int| 0 <= i < j < p.len() implies (#[trigger] p[i]).id != (
    #[trigger] p[j]).id by {
        if j < items.len() {
            assert(items[i].id != items[j].id);
        } else {
            assert(p[j] == it);
            assert(p[i] == items[i]);
            assert(!(items[i].id == it.id));
        }
    }
    assert(p[items.len() as int] == it);
    assert(has_item(p, it.id));
    let a = item_at(p, it.id);
    assert(0 <= a < p.len() && p[a].id == it.id);
    if a < items.len() {
        assert(items[a] == p[a]);
        assert(has_item(items, it.id));
        assert(false);
    }
    assert forall|id: Seq<char>| #[trigger] has_item(items, id) implies has_item(p, id) && item_of(
        p,
        id,
    ) == item_of(items, id) by {
        let b = item_at(items, id);
        assert(0 <= b < items.len() && items[b].id == id);
        assert(p[b].id == id);
        assert(has_item(p, id));
        let c = item_at(p, id);
        assert(0 <= c < p.len() && p[c].id == id);
        if c == items.len() {
            assert(p[c] == it);
            assert(has_item(items, it.id));
            assert(false);
        }
        assert(p[c] == items[c]);
        if c != b {
            assert(items[c].id == items[b].id);
            assert(false);
        }
    }
    assert forall|id: Seq<char>| #[trigger] has_item(p, id) implies id == it.id || has_item(
        items,
        id,
    ) by {
        let c = item_at(p, id);
        if c < items.len() {
            assert(items[c] == p[c]);
        } else {
            assert(p[c] == it);
        }
    }
}

pub proof fn lemma_items_update(items: Seq<ProfileItemV>, j: int, it: ProfileItemV)
    requires
        unique_ids(items),
        0 <= j < items.len(),
        items[j].id == it.id,
    ensures
        unique_ids(items.update(j, it)),
        forall|id: Seq<char>|
            #[trigger] has_item(items.update(j, it), id) <==> has_item(items, id),
        has_item(items, it.id),
        item_of(items.update(j, it), it.id) == it,
        forall|id: Seq<char>|
            #[trigger] has_item(items, id) && id != it.id ==> item_of(items.update(j, it), id)
                == item_of(items, id),
{
    let u = items.update(j, it);
    assert forall|i: int, k: int| 0 <= i < k < u.len() implies (#[trigger] u[i]).id != (
    #[trigger] u[k]).id by {
        assert(items[i].id != items[k].id);
        assert(u[i].id == items[i].id);
        assert(u[k].id == items[k].id);
    }
    assert forall|i: int| 0 <= i < u.len() implies (#[trigger] u[i]).id == items[i].id by {}
    assert forall|id: Seq<char>| #[trigger] has_item(u, id) <==> has_item(items, id) by {
        if has_item(u, id) {
            let c = item_at(u, id);
            assert(items[c].id == id);
        }
        if has_item(items, id) {
            let c = item_at(items, id);
            assert(u[c].id == id);
        }
    }
    assert(items[j].id == it.id);
    assert(has_item(items, it.id));
    let a = item_at(u, it.id);
    assert(u[a].id == it.id);
    if a != j {
        assert(items[a].id == items[j].id);
        assert(false);
    }
    assert forall|id: Seq<char>| #[trigger] has_item(items, id) && id != it.id implies item_of(
        u,
        id,
    ) == item_of(items, id) by {
        let b = item_at(items, id);
        assert(u[b].id == id);
        let c = item_at(u, id);
        assert(u[c].id == id);
        if c == j {
            assert(u[j] == it);
            assert(false);
        }
        assert(u[c] == items[c]);
        if c != b {
            assert(items[c].id == items[b].id);
            assert(false);
        }
    }
}

pub proof fn lemma_items_remove(items: Seq<ProfileItemV>, j: int)
    requires
        unique_ids(items),
        0 <= j < items.len(),
    ensures
        unique_ids(items.remove(j)),
        !has_item(items.remove(j), items[j].id),
        forall|id: Seq<char>|
            #[trigger] has_item(items.remove(j), id) ==> has_item(items, id) && id != items[j].id,
        forall|id: Seq<char>|
            #[trigger] has_item(items, id) && id != items[j].id ==> has_item(items.remove(j), id)
                && item_of(items.remove(j), id) == item_of(items, id),
{
    let r = items.remove(j);
    assert forall|i: int| 0 <= i < r.len() implies #[trigger] r[i] == items[(
    if i < j {
        i
    } else {
        i + 1
    })] by {}
    assert forall|i: int, k: int| 0 <= i < k < r.len() implies (#[trigger] r[i]).id != (
    #[trigger] r[k]).id by {
        let oi: int = if i < j { i } else { i + 1 };
        let ok: int = if k < j { k } else { k + 1 };
        assert(items[oi].id != items[ok].id);
    }
    if has_item(r, items[j].id) {
        let c = item_at(r, items[j].id);
        let oc: int = if c < j {
            c
        } else {
            c + 1
        };
        assert(items[oc].id == items[j].id);
        assert(oc != j);
        assert(false);
    }
    assert forall|id: Seq<char>| #[trigger] has_item(r, id) implies has_item(items, id) && id
        != items[j].id by {
        let c = item_at(r, id);
        let oc: int = if c < j { c } else { c + 1 };
        assert(items[oc].id == id);
        assert(oc != j ==> items[oc].id != items[j].id || oc == j);
        if id == items[j].id {
            assert(items[oc].id == items[j].id);
            assert(false);
        }
    }
    assert forall|id: Seq<char>| #[trigger] has_item(items, id) && id != items[j].id implies
        has_item(r, id) && item_of(r, id) == item_of(items, id) by {
        let b = item_at(items, id);
        assert(items[b].id == id);
        assert(b != j);
        let nb: int = if b < j { b } else { b - 1 };
        assert(r[nb] == items[b]);
        assert(has_item(r, id));
        let c = item_at(r, id);
        let oc: int = if c < j { c } else { c + 1 };
        assert(items[oc].id == id);
        if oc != b {
            assert(items[oc].id == items[b].id);
            assert(false);
        }
    }
}

// ---------------------------------------------------------------------------
// Relational operation specifications.
//
// Each mutating operation of the store establishes one of these predicates
// between the value before and the value after the call; the laws at the end
// of this module are stated over the same predicates.
// ---------------------------------------------------------------------------

pub open spec fn append_ok(pre: ProfileSetV, post: ProfileSetV, it: ProfileItemV) -> bool {
    &&& !has_item(pre.items, it.id)
    &&& valid_item(it)
    &&& post.items == pre.items.push(it)
    &&& post.current == pre.current
    &&& post.chain == pre.chain
}

pub open spec fn select_ok(pre: ProfileSetV, post: ProfileSetV, id: Seq<char>) -> bool {
    &&& has_item(pre.items, id)
    &&& selectable(item_of(pre.items, id).kind)
    &&& post.items == pre.items
    &&& post.current == Some(id)
    &&& post.chain == pre.chain
}

pub open spec fn delete_ok(
    pre: ProfileSetV,
    post: ProfileSetV,
    id: Seq<char>,
    changed: bool,
) -> bool {
    &&& has_item(pre.items, id)
    &&& post.items == pre.items.remove(item_at(pre.items, id))
    &&& post.chain == chain_without(pre.chain, id)
    &&& changed == (pre.current == Some(id))
    &&& post.current == if pre.current == Some(id) {
        Option::<Seq<char>>::None
    } else {
        pre.current
    }
}

pub open spec fn update_ok(
    pre: ProfileSetV,
    post: ProfileSetV,
    id: Seq<char>,
    it: ProfileItemV,
) -> bool {
    &&& has_item(pre.items, id)
    &&& it.id == id
    &&& it.kind == item_of(pre.items, id).kind
    &&& valid_item(it)
    &&& post.items == pre.items.update(item_at(pre.items, id), it)
    &&& post.current == pre.current
    &&& post.chain == pre.chain
}

/// An id that may stand in the chain.
pub open spec fn chain_id_ok(items: Seq<ProfileItemV>, id: Seq<char>) -> bool {
    has_item(items, id) && chainable(item_of(items, id).kind)
}

/// `i` is the first position of `ids` that cannot stand in the chain.
pub open spec fn chain_first_bad(items: Seq<ProfileItemV>, ids: Seq<Seq<char>>, i: int) -> bool {
    &&& 0 <= i < ids.len()
    &&& forall|j: int| 0 <= j < i ==> chain_id_ok(items, #[trigger] ids[j])
    &&& !chain_id_ok(items, ids[i])
}

pub open spec fn set_chain_ok(pre: ProfileSetV, post: ProfileSetV, ids: Seq<Seq<char>>) -> bool {
    &&& forall|i: int| 0 <= i < ids.len() ==> chain_id_ok(pre.items, #[trigger] ids[i])
    &&& post.items == pre.items
    &&& post.current == pre.current
    &&& post.chain == ids
}

// ---------------------------------------------------------------------------
// Executable operations.
// ---------------------------------------------------------------------------

/// Whether an item satisfies the shape required by its kind.
pub fn item_is_valid(item: &ProfileItem) -> (r: bool)
    ensures
        r == valid_item(item@),
{
    let url_ok = match (&item.kind, &item.source_url) {
        (ProfileKind::Remote, Some(_)) => true,
        (ProfileKind::Remote, None) => false,
        (_, Some(_)) => false,
        (_, None) => true,
    };
    url_ok && item.body.is_wf()
}

impl ProfileSet {
    pub open spec fn wf(&self) -> bool {
        set_wf(self@)
    }

    /// The empty store: no items, no selection, no chain.
    pub fn new() -> (r: ProfileSet)
        ensures
            r.wf(),
            r@.items == Seq::<ProfileItemV>::empty(),
            r@.current is None,
            r@.chain == Seq::<Seq<char>>::empty(),
    {
        let r = ProfileSet { items: Vec::new(), current: None, chain: Vec::new() };
        proof {
            assert(r@.items =~= Seq::<ProfileItemV>::empty());
            assert(r@.chain =~= Seq::<Seq<char>>::empty());
        }
        r
    }

    /// Index of the item with this id, if any.
    fn find(&self, id: &String) -> (r: Option<usize>)
        ensures
            match r {
                Some(j) => j < self.items@.len() && self@.items[j as int].id == id@,
                None => !has_item(self@.items, id@),
            },
    {
        let mut i: usize = 0;
        while i < self.items.len()
            invariant
                i <= self.items.len(),
                forall|j: int| 0 <= j < i ==> (#[trigger] self.items@[j]).id@ != id@,
            decreases self.items.len() - i,
        {
            if self.items[i].id.eq(id) {
                proof {
                    assert(self@.items[i as int] == self.items@[i as int]@);
                }
                return Some(i);
            }
            i = i + 1;
        }
        proof {
            if has_item(self@.items, id@) {
                let c = item_at(self@.items, id@);
                assert(self@.items[c] == self.items@[c]@);
                assert(false);
            }
        }
        None
    }

    /// The item with this id, if any.
    pub fn get_item(&self, id: &String) -> (r: Option<&ProfileItem>)
        requires
            self.wf(),
        ensures
            match r {
                Some(it) => has_item(self@.items, id@) && it@ == item_of(self@.items, id@),
                None => !has_item(self@.items, id@),
            },
    {
        match self.find(id) {
            Some(j) => {
                proof {
                    let c = item_at(self@.items, id@);
                    assert(self@.items[c].id == id@);
                    if c != j as int {
                        assert(false);
                    }
                }
                Some(&self.items[j])
            },
            None => None,
        }
    }

    /// The id of the current base profile, if one is selected.
    pub fn get_current(&self) -> (r: Option<String>)
        ensures
            r == self.current,
    {
        match &self.current {
            Some(c) => Some(c.clone()),
            None => None,
        }
    }

    /// Insert a new item at the end of the list.  Fails with a validation
    /// error when the id collides with a stored item or the fields required
    /// by the item's kind are missing; the store is then unchanged.
    pub fn append(&mut self, item: ProfileItem) -> (r: Result<(), OrchError>)
        requires
            old(self).wf(),
        ensures
            final(self).wf(),
            match r {
                Ok(()) => append_ok(old(self)@, final(self)@, item@),
                Err(e) => {
                    &&& final(self)@ == old(self)@
                    &&& e is Validation
                    &&& (has_item(old(self)@.items, item@.id) || !valid_item(item@))
                },
            },
    {
        if !item_is_valid(&item) {
            return Err(OrchError::Validation("missing fields required by the item's kind".to_owned()));
        }
        match self.find(&item.id) {
            Some(_) => Err(OrchError::Validation("profile id already exists".to_owned())),
            None => {
                proof {
                    lemma_items_push(self@.items, item@);
                }
                let ghost pre = self@;
                self.items.push(item);
                proof {
                    assert forall|i: int| 0 <= i < self.items@.len() implies #[trigger] self@.items[i]
                        == pre.items.push(item@)[i] by {
                        assert(self@.items[i] == self.items@[i]@);
                    }
                    assert(self@.items =~= pre.items.push(item@));
                    assert forall|i: int| 0 <= i < self@.chain.len() implies has_item(
                        self@.items,
                        #[trigger] self@.chain[i],
                    ) && chainable(item_of(self@.items, self@.chain[i]).kind) by {
                        assert(has_item(pre.items, pre.chain[i]));
                    }
                    match self@.current {
                        Some(c) => {
                            assert(has_item(pre.items, c));
                        },
                        None => {},
                    }
                }
                Ok(())
            },
        }
    }

    /// Make `id` the current base profile.  Fails with `NotFound` when the
    /// id is unknown and with a validation error when the item is not of a
    /// selectable kind; the store is then unchanged.
    pub fn select_current(&mut self, id: &String) -> (r: Result<(), OrchError>)
        requires
            old(self).wf(),
        ensures
            final(self).wf(),
            match r {
                Ok(()) => select_ok(old(self)@, final(self)@, id@),
                Err(e) => {
                    &&& final(self)@ == old(self)@
                    &&& (e is NotFound ==> !has_item(old(self)@.items, id@) && e->NotFound_0@
                        == id@)
                    &&& (e is Validation ==> has_item(old(self)@.items, id@) && !selectable(
                        item_of(old(self)@.items, id@).kind,
                    ))
                    &&& (e is NotFound || e is Validation)
                },
            },
    {
        match self.find(id) {
            None => Err(OrchError::NotFound(id.clone())),
            Some(j) => {
                proof {
                    let c = item_at(self@.items, id@);
                    assert(self@.items[c].id == id@);
                    if c != j as int {
                        assert(false);
                    }
                }
                let k = self.items[j].kind;
                proof {
                    assert(self@.items[j as int] == self.items@[j as int]@);
                    assert(item_of(self@.items, id@).kind == k);
                }
                if k == ProfileKind::Remote || k == ProfileKind::Local {
                    self.current = Some(id.clone());
                    Ok(())
                } else {
                    Err(OrchError::Validation("profile kind is not selectable".to_owned()))
                }
            },
        }
    }

    /// Replace the stored item under `id`.  The id and kind of an item are
    /// immutable: a patch that would change either is rejected.
    pub fn update(&mut self, id: &String, item: ProfileItem) -> (r: Result<(), OrchError>)
        requires
            old(self).wf(),
        ensures
            final(self).wf(),
            match r {
                Ok(()) => update_ok(old(self)@, final(self)@, id@, item@),
                Err(e) => {
                    &&& final(self)@ == old(self)@
                    &&& (e is NotFound ==> !has_item(old(self)@.items, id@) && e->NotFound_0@
                        == id@)
                    &&& (e is Validation ==> has_item(old(self)@.items, id@) && (item@.id != id@
                        || item@.kind != item_of(old(self)@.items, id@).kind || !valid_item(
                        item@,
                    )))
                    &&& (e is NotFound || e is Validation)
                },
            },
    {
        match self.find(id) {
            None => Err(OrchError::NotFound(id.clone())),
            Some(j) => {
                proof {
                    let c = item_at(self@.items, id@);
                    assert(self@.items[c].id == id@);
                    if c != j as int {
                        assert(false);
                    }
                    assert(self@.items[j as int] == self.items@[j as int]@);
                }
                if !item.id.eq(id) {
                    return Err(OrchError::Validation("the id of an item cannot change".to_owned()));
                }
                if !(self.items[j].kind == item.kind) {
                    return Err(OrchError::Validation("the kind of an item cannot change".to_owned()));
                }
                if !item_is_valid(&item) {
                    return Err(OrchError::Validation("missing fields required by the item's kind".to_owned()));
                }
                proof {
                    lemma_items_update(self@.items, j as int, item@);
                }
                let ghost pre = self@;
                self.items[j] = item;
                proof {
                    assert forall|i: int| 0 <= i < self.items@.len() implies #[trigger] self@.items[i]
                        == pre.items.update(j as int, item@)[i] by {
                        assert(self@.items[i] == self.items@[i]@);
                    }
                    assert(self@.items =~= pre.items.update(j as int, item@));
                    assert forall|i: int| 0 <= i < self@.chain.len() implies has_item(
                        self@.items,
                        #[trigger] self@.chain[i],
                    ) && chainable(item_of(self@.items, self@.chain[i]).kind) by {
                        assert(has_item(pre.items, pre.chain[i]));
                        if pre.chain[i] != item@.id {
                        } else {
                            assert(item_of(pre.items, item@.id).kind == item@.kind);
                        }
                    }
                    match self@.current {
                        Some(c) => {
                            assert(has_item(pre.items, c));
                            if c == item@.id {
                                assert(item_of(pre.items, item@.id).kind == item@.kind);
                            }
                        },
                        None => {},
                    }
                }
                Ok(())
            },
        }
    }

    /// Remove the item under `id` together with its chain references; clear
    /// the selection when it pointed at the removed item.  Returns whether
    /// the selection changed, so the caller knows to re-activate.
    pub fn delete(&mut self, id: &String) -> (r: Result<bool, OrchError>)
        requires
            old(self).wf(),
        ensures
            final(self).wf(),
            match r {
                Ok(changed) => delete_ok(old(self)@, final(self)@, id@, changed),
                Err(e) => {
                    &&& final(self)@ == old(self)@
                    &&& e is NotFound
                    &&& e->NotFound_0@ == id@
                    &&& !has_item(old(self)@.items, id@)
                },
            },
    {
        match self.find(id) {
            None => Err(OrchError::NotFound(id.clone())),
            Some(j) => {
                proof {
                    let c = item_at(self@.items, id@);
                    assert(self@.items[c].id == id@);
                    if c != j as int {
                        assert(false);
                    }
                    lemma_items_remove(self@.items, j as int);
                }
                let ghost pre = self@;
                self.items.remove(j);
                proof {
                    assert forall|i: int| 0 <= i < self.items@.len() implies #[trigger] self@.items[i]
                        == pre.items.remove(j as int)[i] by {
                        assert(self@.items[i] == self.items@[i]@);
                    }
                    assert(self@.items =~= pre.items.remove(j as int));
                }
                let mut kept: Vec<String> = Vec::new();
                let mut i: usize = 0;
                proof {
                    assert(chain_view(self.chain@.take(0)) =~= Seq::<Seq<char>>::empty());
                    assert(chain_without(chain_view(self.chain@.take(0)), id@) =~= Seq::<
                        Seq<char>,
                    >::empty());
                    assert(chain_view(kept@) =~= Seq::<Seq<char>>::empty());
                }
                while i < self.chain.len()
                    invariant
                        i <= self.chain.len(),
                        chain_view(kept@) == chain_without(
                            chain_view(self.chain@.take(i as int)),
                            id@,
                        ),
                    decreases self.chain.len() - i,
                {
                    let ghost prefix = chain_view(self.chain@.take(i as int));
                    let ghost e = self.chain@[i as int]@;
                    let keep = !self.chain[i].eq(id);
                    let ghost prek = chain_view(kept@);
                    if keep {
                        let c = self.chain[i].clone();
                        kept.push(c);
                        proof {
                            assert(chain_view(kept@) =~= prek.push(e));
                        }
                    }
                    proof {
                        assert(chain_view(self.chain@.take(i + 1)) =~= prefix.push(e));
                        lemma_chain_without_push(prefix, e, id@);
                        if keep {
                            assert(chain_without(prefix.push(e), id@) =~= chain_without(
                                prefix,
                                id@,
                            ).push(e));
                        }
                    }
                    i = i + 1;
                }
                proof {
                    assert(self.chain@.take(self.chain@.len() as int) =~= self.chain@);
                }
                self.chain = kept;
                let changed = match &self.current {
                    Some(c) => c.eq(id),
                    None => false,
                };
                if changed {
                    self.current = None;
                }
                proof {
                    assert forall|x: int| 0 <= x < self@.chain.len() implies has_item(
                        self@.items,
                        #[trigger] self@.chain[x],
                    ) && chainable(item_of(self@.items, self@.chain[x]).kind) by {
                        let cx = self@.chain[x];
                        assert(chain_without(pre.chain, id@).contains(cx));
                        lemma_chain_without_contains(pre.chain, id@, cx);
                        let w = choose|w: int| 0 <= w < pre.chain.len() && pre.chain[w] == cx;
                        assert(has_item(pre.items, cx) && chainable(item_of(pre.items, cx).kind));
                        assert(cx != id@);
                    }
                    match self@.current {
                        Some(c) => {
                            assert(has_item(pre.items, c));
                            assert(c != id@);
                        },
                        None => {},
                    }
                }
                Ok(changed)
            },
        }
    }

    /// Replace the chain atomically.  Every id must name a stored item of a
    /// chainable kind; otherwise the chain is left as it was and the first
    /// offending id decides the error.
    pub fn set_chain(&mut self, ids: Vec<String>) -> (r: Result<(), OrchError>)
        requires
            old(self).wf(),
        ensures
            final(self).wf(),
            match r {
                Ok(()) => set_chain_ok(old(self)@, final(self)@, chain_view(ids@)),
                Err(e) => {
                    &&& final(self)@ == old(self)@
                    &&& exists|i: int|
                        #[trigger] chain_first_bad(old(self)@.items, chain_view(ids@), i) && (
                        if !has_item(old(self)@.items, chain_view(ids@)[i]) {
                            e is NotFound && e->NotFound_0@ == chain_view(ids@)[i]
                        } else {
                            e is Validation
                        })
                },
            },
    {
        let ghost ids_v = chain_view(ids@);
        let mut i: usize = 0;
        while i < ids.len()
            invariant
                old(self) == self,
                i <= ids.len(),
                ids_v == chain_view(ids@),
                old(self).wf(),
                forall|j: int| 0 <= j < i ==> chain_id_ok(self@.items, #[trigger] ids_v[j]),
            decreases ids.len() - i,
        {
            proof {
                assert(ids_v[i as int] == ids@[i as int]@);
            }
            match self.find(&ids[i]) {
                None => {
                    proof {
                        assert(chain_first_bad(self@.items, ids_v, i as int));
                    }
                    return Err(OrchError::NotFound(ids[i].clone()));
                },
                Some(j) => {
                    proof {
                        let c = item_at(self@.items, ids_v[i as int]);
                        assert(self@.items[c].id == ids_v[i as int]);
                        if c != j as int {
                            assert(false);
                        }
                        assert(self@.items[j as int] == self.items@[j as int]@);
                    }
                    let k = self.items[j].kind;
                    if !(k == ProfileKind::Script || k == ProfileKind::Merge) {
                        proof {
                            assert(chain_first_bad(self@.items, ids_v, i as int));
                        }
                        return Err(OrchError::Validation("profile kind cannot stand in the chain".to_owned()));
                    }
                },
            }
            i = i + 1;
        }
        self.chain = ids;
        Ok(())
    }

    /// An equal copy of the whole store, handed to the shell for display.
    pub fn snapshot(&self) -> (r: ProfileSet)
        ensures
            r@ == self@,
    {
        let mut items: Vec<ProfileItem> = Vec::new();
        let mut i: usize = 0;
        while i < self.items.len()
            invariant
                i <= self.items.len(),
                items@.len() == i,
                forall|j: int| 0 <= j < i ==> (#[trigger] items@[j])@ == self.items@[j]@,
            decreases self.items.len() - i,
        {
            items.push(self.items[i].duplicate());
            i = i + 1;
        }
        let mut chain: Vec<String> = Vec::new();
        let mut k: usize = 0;
        while k < self.chain.len()
            invariant
                k <= self.chain.len(),
                chain@.len() == k,
                forall|j: int| 0 <= j < k ==> (#[trigger] chain@[j])@ == self.chain@[j]@,
            decreases self.chain.len() - k,
        {
            chain.push(self.chain[k].clone());
            k = k + 1;
        }
        let r = ProfileSet { items, chain, current: clone_opt_string(&self.current) };
        proof {
            assert forall|j: int| 0 <= j < r@.items.len() implies #[trigger] r@.items[j]
                == self@.items[j] by {
                assert(r@.items[j] == r.items@[j]@);
                assert(self@.items[j] == self.items@[j]@);
            }
            assert(r@.items =~= self@.items);
            assert forall|j: int| 0 <= j < r@.chain.len() implies #[trigger] r@.chain[j]
                == self@.chain[j] by {
                assert(r@.chain[j] == r.chain@[j]@);
                assert(self@.chain[j] == self.chain@[j]@);
            }
            assert(r@.chain =~= self@.chain);
        }
        r
    }

    /// Replace the in-memory state with a freshly loaded snapshot of the
    /// durable store.
    pub fn sync(&mut self, snapshot: ProfileSet)
        requires
            snapshot.wf(),
        ensures
            final(self)@ == snapshot@,
            final(self).wf(),
    {
        *self = snapshot;
    }
}

pub proof fn lemma_chain_without_push(s: Seq<Seq<char>>, e: Seq<char>, id: Seq<char>)
    ensures
        e == id ==> chain_without(s.push(e), id) == chain_without(s, id),
        e != id ==> chain_without(s.push(e), id) == chain_without(s, id).push(e),
    decreases s.len(),
{
    if s.len() == 0 {
        assert(s.push(e).drop_first() =~= s);
        assert(s.push(e)[0] == e);
        if e != id {
            assert(chain_without(s.push(e), id) =~= chain_without(s, id).push(e));
        }
    } else {
        assert(s.push(e).drop_first() =~= s.drop_first().push(e));
        assert(s.push(e)[0] == s[0]);
        lemma_chain_without_push(s.drop_first(), e, id);
        if e != id {
            if s[0] == id {
                assert(chain_without(s.push(e), id) == chain_without(s.drop_first().push(e), id));
            } else {
                assert(chain_without(s.push(e), id) =~= chain_without(s, id).push(e));
            }
        }
    }
}

impl FetchOptions {
    /// Overlay `other` over `one`: every set field of `other` wins.  Used to
    /// combine an item's stored fetch options with per-call overrides before
    /// a remote profile is fetched again.
    pub fn merge_over(one: Option<FetchOptions>, other: Option<FetchOptions>) -> (r: Option<
        FetchOptions,
    >)
        ensures
            match (one, other) {
                (Some(a), Some(b)) => r matches Some(m) && m@.update_interval == (
                if b@.update_interval is Some {
                    b@.update_interval
                } else {
                    a@.update_interval
                }) && m@.user_agent == (if b@.user_agent is Some {
                    b@.user_agent
                } else {
                    a@.user_agent
                }) && m@.with_proxy == (if b@.with_proxy is Some {
                    b@.with_proxy
                } else {
                    a@.with_proxy
                }),
                (Some(a), None) => r matches Some(m) && m@ == a@,
                (None, Some(b)) => r matches Some(m) && m@ == b@,
                (None, None) => r is None,
            },
    {
        match (one, other) {
            (Some(a), Some(b)) => Some(
                FetchOptions {
                    update_interval: if b.update_interval.is_some() {
                        b.update_interval
                    } else {
                        a.update_interval
                    },
                    user_agent: if b.user_agent.is_some() {
                        b.user_agent
                    } else {
                        a.user_agent
                    },
                    with_proxy: if b.with_proxy.is_some() {
                        b.with_proxy
                    } else {
                        a.with_proxy
                    },
                },
            ),
            (Some(a), None) => Some(a),
            (None, Some(b)) => Some(b),
            (None, None) => None,
        }
    }
}

impl ProfileSet {
    /// What a re-fetch of the remote profile `id` needs: its URL and stored
    /// fetch options, copied out so no lock is held during the network call.
    /// Only remote profiles can be fetched again.
    pub fn prepare_remote_update(&self, id: &String) -> (r: Result<
        (String, FetchOptions),
        OrchError,
    >)
        requires
            self.wf(),
        ensures
            match r {
                Ok(p) => {
                    &&& has_item(self@.items, id@)
                    &&& item_of(self@.items, id@).kind is Remote
                    &&& Some(p.0@) == item_of(self@.items, id@).source_url
                    &&& p.1@ == item_of(self@.items, id@).fetch
                },
                Err(e) => {
                    &&& (e is NotFound ==> !has_item(self@.items, id@) && e->NotFound_0@ == id@)
                    &&& (e is Validation ==> has_item(self@.items, id@) && !(item_of(
                        self@.items,
                        id@,
                    ).kind is Remote))
                    &&& (e is NotFound || e is Validation)
                },
            },
    {
        match self.get_item(id) {
            None => Err(OrchError::NotFound(id.clone())),
            Some(item) => {
                if !(item.kind == ProfileKind::Remote) {
                    return Err(OrchError::Validation("only a remote profile can be fetched again".to_owned()));
                }
                match &item.source_url {
                    Some(url) => Ok(
                        (
                            url.clone(),
                            FetchOptions {
                                update_interval: item.fetch.update_interval,
                                user_agent: clone_opt_string(&item.fetch.user_agent),
                                with_proxy: item.fetch.with_proxy,
                            },
                        ),
                    ),
                    None => {
                        proof {
                            assert(valid_item(item@));
                            assert(false);
                        }
                        Err(OrchError::Validation("the remote profile has no URL".to_owned()))
                    },
                }
            },
        }
    }

    /// Whether a mutation of the profile `id` must be followed by a
    /// re-activation: exactly when it is the current selection.
    pub fn needs_reactivation(&self, id: &String) -> (r: bool)
        ensures
            r == (self@.current == Some(id@)),
    {
        match &self.current {
            Some(c) => c.eq(id),
            None => false,
        }
    }
}

// ---------------------------------------------------------------------------
// Laws of the profile store.
// ---------------------------------------------------------------------------

/// Selecting a profile and then reading the selection yields that profile's
/// id.  (A failed selection leaves the store unchanged by the contract of
/// `select_current` itself.)
pub proof fn lemma_select_then_get(pre: ProfileSetV, post: ProfileSetV, id: Seq<char>)
    requires
        select_ok(pre, post, id),
    ensures
        post.current == Some(id),
{
}

/// Deleting the selected profile clears the selection; deleting a profile
/// referenced in the chain removes it from the chain; deleting an unrelated
/// profile touches neither.
pub proof fn lemma_delete_cascades(
    pre: ProfileSetV,
    post: ProfileSetV,
    id: Seq<char>,
    changed: bool,
)
    requires
        delete_ok(pre, post, id, changed),
    ensures
        pre.current == Some(id) ==> post.current is None,
        !post.chain.contains(id),
        pre.current != Some(id) ==> post.current == pre.current,
        !pre.chain.contains(id) ==> post.chain == pre.chain,
{
    lemma_chain_without_contains(pre.chain, id, id);
    if !pre.chain.contains(id) {
        lemma_chain_without_absent(pre.chain, id);
    }
}

/// An append and a delete on disjoint ids commute: both orders succeed under
/// the same conditions and lead to the same store, which reflects both
/// operations — no lost update.
pub proof fn lemma_append_delete_commute(
    s0: ProfileSetV,
    s1a: ProfileSetV,
    s2a: ProfileSetV,
    s1b: ProfileSetV,
    s2b: ProfileSetV,
    it: ProfileItemV,
    id: Seq<char>,
    ca: bool,
    cb: bool,
)
    requires
        set_wf(s0),
        it.id != id,
        // order one: append `it`, then delete `id`
        append_ok(s0, s1a, it),
        delete_ok(s1a, s2a, id, ca),
        // order two: delete `id`, then append `it`
        delete_ok(s0, s1b, id, cb),
        append_ok(s1b, s2b, it),
    ensures
        s2a.items == s2b.items,
        s2a.current == s2b.current,
        s2a.chain == s2b.chain,
        ca == cb,
        has_item(s2a.items, it.id),
        !has_item(s2a.items, id),
{
    lemma_items_push(s0.items, it);
    let b = item_at(s0.items, id);
    assert(0 <= b < s0.items.len() && s0.items[b].id == id);
    let p = s0.items.push(it);
    let ba = item_at(p, id);
    assert(0 <= ba < p.len() && p[ba].id == id);
    if ba == s0.items.len() {
        assert(p[ba] == it);
        assert(false);
    }
    assert(p[ba] == s0.items[ba]);
    if ba != b {
        assert(s0.items[ba].id == s0.items[b].id);
        assert(false);
    }
    lemma_items_remove(s0.items, b);
    assert(s1b.items == s0.items.remove(b));
    assert(s2a.items =~= s2b.items) by {
        assert forall|x: int| 0 <= x < s2a.items.len() implies s2a.items[x] == s2b.items[x] by {
            assert(s2a.items[x] == p.remove(b)[x]);
            assert(s2b.items[x] == s0.items.remove(b).push(it)[x]);
            if x < b {
                assert(p.remove(b)[x] == p[x]);
            } else {
                assert(p.remove(b)[x] == p[x + 1]);
            }
        }
    }
    lemma_items_remove(p, b);
    assert(has_item(p, it.id));
    assert(!has_item(s2a.items, id)) by {
        assert(p[b].id == id);
        assert(s2a.items == p.remove(b));
    }
    assert(has_item(s2a.items, it.id)) by {
        assert(p[b].id == id);
        assert(has_item(p, it.id) && it.id != p[b].id);
    }
}

} // verus!
