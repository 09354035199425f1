use vstd::prelude::*;

verus! {

// ---------------------------------------------------------------------------
// Configuration documents.
//
// A configuration document is a mapping at top level: an ordered list of
// uniquely-keyed entries.  An entry holds either a scalar or a nested section
// of uniquely-keyed scalar settings.  Documents are what activation resolves
// and what is pushed to the sidecar; the surrounding application converts
// them from and to its serialized form.
// ---------------------------------------------------------------------------

/// A scalar setting value.
#[derive(Debug, Clone, PartialEq, Eq)]
pub enum Scalar {
    Null,
    Bool(bool),
    Int(i64),
    Text(String),
}

/// The mathematical value of a scalar.
pub enum ScalarV {
    Null,
    Bool(bool),
    Int(int),
    Text(Seq<char>),
}

/// A top-level value: a scalar leaf or a nested section of scalars.
#[derive(Debug, Clone, PartialEq, Eq)]
pub enum DocValue {
    Leaf(Scalar),
    Section(Vec<(String, Scalar)>),
}

/// The mathematical value of a top-level value.
pub enum DocValueV {
    Leaf(ScalarV),
    Section(Seq<(Seq<char>, ScalarV)>),
}

/// A configuration document: a mapping at top level.
#[derive(Debug, Clone, PartialEq, Eq)]
pub struct ConfigDoc {
    pub entries: Vec<(String, DocValue)>,
}

impl View for Scalar {
    type V = ScalarV;

    open spec fn view(&self) -> ScalarV {
        match self {
            Scalar::Null => ScalarV::Null,
            Scalar::Bool(b) => ScalarV::Bool(*b),
            Scalar::Int(i) => ScalarV::Int(*i as int),
            Scalar::Text(s) => ScalarV::Text(s@),
        }
    }
}

/// The mathematical value of a section's entry list.
pub open spec fn section_view(entries: Seq<(String, Scalar)>) -> Seq<(Seq<char>, ScalarV)> {
    entries.map_values(|p: (String, Scalar)| (p.0@, p.1@))
}

impl View for DocValue {
    type V = DocValueV;

    open spec fn view(&self) -> DocValueV {
        match self {
            DocValue::Leaf(s) => DocValueV::Leaf(s@),
            DocValue::Section(v) => DocValueV::Section(section_view(v@)),
        }
    }
}

/// The mathematical value of a document's entry list.
pub open spec fn doc_view(entries: Seq<(String, DocValue)>) -> Seq<(Seq<char>, DocValueV)> {
    entries.map_values(|p: (String, DocValue)| (p.0@, p.1@))
}

impl View for ConfigDoc {
    type V = Seq<(Seq<char>, DocValueV)>;

    open spec fn view(&self) -> Seq<(Seq<char>, DocValueV)> {
        doc_view(self.entries@)
    }
}

// ---------------------------------------------------------------------------
// Association lists: keys, lookup, upsert.
// ---------------------------------------------------------------------------

/// No two entries share a key.
pub open spec fn unique_keys<V>(s: Seq<(Seq<char>, V)>) -> bool {
    forall|i: int, j: int| 0 <= i < j < s.len() ==> #[trigger] s[i].0 != #[trigger] s[j].0
}

/// Some entry has this key.
pub open spec fn has_key<V>(s: Seq<(Seq<char>, V)>, k: Seq<char>) -> bool {
    exists|i: int| 0 <= i < s.len() && #[trigger] s[i].0 == k
}

/// An index of an entry with this key.
pub open spec fn key_at<V>(s: Seq<(Seq<char>, V)>, k: Seq<char>) -> int {
    choose|i: int| 0 <= i < s.len() && #[trigger] s[i].0 == k
}

/// The value stored under this key, if any.
pub open spec fn find_key<V>(s: Seq<(Seq<char>, V)>, k: Seq<char>) -> Option<V> {
    if has_key(s, k) {
        Some(s[key_at(s, k)].1)
    } else {
        None
    }
}

/// Replace the value under `k`, or append a new entry if `k` is absent.
pub open spec fn upsert<V>(s: Seq<(Seq<char>, V)>, k: Seq<char>, v: V) -> Seq<(Seq<char>, V)> {
    if has_key(s, k) {
        s.update(key_at(s, k), (k, v))
    } else {
        s.push((k, v))
    }
}

pub proof fn lemma_upsert_unique<V>(s: Seq<(Seq<char>, V)>, k: Seq<char>, v: V)
    requires
        unique_keys(s),
    ensures
        unique_keys(upsert(s, k, v)),
{
    if has_key(s, k) {
        let r = s.update(key_at(s, k), (k, v));
        assert forall|i: int, j: int| 0 <= i < j < r.len() implies #[trigger] r[i].0
            != #[trigger] r[j].0 by {
            assert(s[i].0 != s[j].0);
        }
    } else {
        let r = s.push((k, v));
        assert forall|i: int, j: int| 0 <= i < j < r.len() implies #[trigger] r[i].0
            != #[trigger] r[j].0 by {
            if j < s.len() {
                assert(s[i].0 != s[j].0);
            } else {
                assert(r[j].0 == k);
                assert(!(s[i].0 == k));
            }
        }
    }
}

// ---------------------------------------------------------------------------
// Deep merge.
//
// Merging a patch into a base processes the patch's entries left to right.
// An entry whose key is new is appended; one whose key exists replaces the
// stored value, except that a section merging into a section merges key-wise.
// ---------------------------------------------------------------------------

/// Merge one association list into another, later entries replacing earlier
/// values key-wise.  This is the section-level merge.
pub open spec fn merge_assoc<V>(
    b: Seq<(Seq<char>, V)>,
    p: Seq<(Seq<char>, V)>,
) -> Seq<(Seq<char>, V)>
    decreases p.len(),
{
    if p.len() == 0 {
        b
    } else {
        merge_assoc(upsert(b, p[0].0, p[0].1), p.drop_first())
    }
}

/// The value an entry of the patch leaves in the merged document.
pub open spec fn merged_value(b: Option<DocValueV>, p: DocValueV) -> DocValueV {
    if b is Some && b->0 is Section && p is Section {
        DocValueV::Section(merge_assoc(b->0->Section_0, p->Section_0))
    } else {
        p
    }
}

/// One step of the document merge: fold the entry `e` into `b`.
pub open spec fn doc_step(
    b: Seq<(Seq<char>, DocValueV)>,
    e: (Seq<char>, DocValueV),
) -> Seq<(Seq<char>, DocValueV)> {
    upsert(b, e.0, merged_value(find_key(b, e.0), e.1))
}

/// Deep merge of the patch `p` into the base `b`.
pub open spec fn merge_docs(
    b: Seq<(Seq<char>, DocValueV)>,
    p: Seq<(Seq<char>, DocValueV)>,
) -> Seq<(Seq<char>, DocValueV)>
    decreases p.len(),
{
    if p.len() == 0 {
        b
    } else {
        merge_docs(doc_step(b, p[0]), p.drop_first())
    }
}

pub proof fn lemma_merge_assoc_unique<V>(b: Seq<(Seq<char>, V)>, p: Seq<(Seq<char>, V)>)
    requires
        unique_keys(b),
    ensures
        unique_keys(merge_assoc(b, p)),
    decreases p.len(),
{
    if p.len() > 0 {
        lemma_upsert_unique(b, p[0].0, p[0].1);
        lemma_merge_assoc_unique(upsert(b, p[0].0, p[0].1), p.drop_first());
    }
}

pub proof fn lemma_merge_assoc_push<V>(
    b: Seq<(Seq<char>, V)>,
    p: Seq<(Seq<char>, V)>,
    e: (Seq<char>, V),
)
    ensures
        merge_assoc(b, p.push(e)) == upsert(merge_assoc(b, p), e.0, e.1),
    decreases p.len(),
{
    if p.len() == 0 {
        assert(p.push(e).drop_first() =~= p);
        assert(merge_assoc(b, p.push(e)) == merge_assoc(upsert(b, e.0, e.1), p));
    } else {
        assert(p.push(e).drop_first() =~= p.drop_first().push(e));
        lemma_merge_assoc_push(upsert(b, p[0].0, p[0].1), p.drop_first(), e);
    }
}

pub proof fn lemma_merge_docs_push(
    b: Seq<(Seq<char>, DocValueV)>,
    p: Seq<(Seq<char>, DocValueV)>,
    e: (Seq<char>, DocValueV),
)
    ensures
        merge_docs(b, p.push(e)) == doc_step(merge_docs(b, p), e),
    decreases p.len(),
{
    if p.len() == 0 {
        assert(p.push(e).drop_first() =~= p);
        assert(merge_docs(b, p.push(e)) == merge_docs(doc_step(b, e), p));
    } else {
        assert(p.push(e).drop_first() =~= p.drop_first().push(e));
        lemma_merge_docs_push(doc_step(b, p[0]), p.drop_first(), e);
    }
}

// ---------------------------------------------------------------------------
// Well-formedness.
// ---------------------------------------------------------------------------

/// A document value is well formed when its keys are unique and every
/// section's keys are unique too.
pub open spec fn doc_v_wf(d: Seq<(Seq<char>, DocValueV)>) -> bool {
    &&& unique_keys(d)
    &&& forall|i: int|
        0 <= i < d.len() && #[trigger] d[i].1 is Section ==> unique_keys(d[i].1->Section_0)
}

pub proof fn lemma_doc_step_wf(b: Seq<(Seq<char>, DocValueV)>, e: (Seq<char>, DocValueV))
    requires
        doc_v_wf(b),
        e.1 is Section ==> unique_keys(e.1->Section_0),
    ensures
        doc_v_wf(doc_step(b, e)),
{
    lemma_upsert_unique(b, e.0, merged_value(find_key(b, e.0), e.1));
    let mv = merged_value(find_key(b, e.0), e.1);
    if mv is Section {
        if find_key(b, e.0) is Some && find_key(b, e.0)->0 is Section && e.1 is Section {
            let ka = key_at(b, e.0);
            assert(0 <= ka < b.len() && b[ka].0 == e.0);
            assert(unique_keys(b[ka].1->Section_0));
            lemma_merge_assoc_unique(find_key(b, e.0)->0->Section_0, e.1->Section_0);
        }
    }
    let r = doc_step(b, e);
    assert forall|i: int|
        0 <= i < r.len() && #[trigger] r[i].1 is Section implies unique_keys(
        r[i].1->Section_0,
    ) by {
        if has_key(b, e.0) {
            if i != key_at(b, e.0) {
                assert(r[i] == b[i]);
            }
        } else {
            if i < b.len() {
                assert(r[i] == b[i]);
            }
        }
    }
}

// ---------------------------------------------------------------------------
// Executable operations.
// ---------------------------------------------------------------------------

fn clone_scalar(s: &Scalar) -> (r: Scalar)
    ensures
        r@ == s@,
{
    match s {
        Scalar::Null => Scalar::Null,
        Scalar::Bool(b) => Scalar::Bool(*b),
        Scalar::Int(i) => Scalar::Int(*i),
        Scalar::Text(t) => Scalar::Text(t.clone()),
    }
}

fn clone_section(v: &Vec<(String, Scalar)>) -> (r: Vec<(String, Scalar)>)
    ensures
        section_view(r@) == section_view(v@),
{
    let mut r: Vec<(String, Scalar)> = Vec::new();
    let mut i: usize = 0;
    while i < v.len()
        invariant
            i <= v.len(),
            r@.len() == i,
            forall|j: int|
                0 <= j < i ==> (#[trigger] r@[j]).0@ == v@[j].0@ && r@[j].1@ == v@[j].1@,
        decreases v.len() - i,
    {
        let e = &v[i];
        r.push((e.0.clone(), clone_scalar(&e.1)));
        i = i + 1;
    }
    proof {
        assert forall|j: int| 0 <= j < v@.len() implies #[trigger] section_view(r@)[j]
            == section_view(v@)[j] by {
            assert(section_view(r@)[j] == (r@[j].0@, r@[j].1@));
            assert(section_view(v@)[j] == (v@[j].0@, v@[j].1@));
        }
        assert(section_view(r@) =~= section_view(v@));
    }
    r
}

fn clone_value(v: &DocValue) -> (r: DocValue)
    ensures
        r@ == v@,
{
    match v {
        DocValue::Leaf(s) => DocValue::Leaf(clone_scalar(s)),
        DocValue::Section(entries) => DocValue::Section(clone_section(entries)),
    }
}

fn scalar_eq(a: &Scalar, b: &Scalar) -> (r: bool)
    ensures
        r == (a@ == b@),
{
    match (a, b) {
        (Scalar::Null, Scalar::Null) => true,
        (Scalar::Bool(x), Scalar::Bool(y)) => *x == *y,
        (Scalar::Int(x), Scalar::Int(y)) => *x == *y,
        (Scalar::Text(x), Scalar::Text(y)) => x.eq(y),
        _ => false,
    }
}

fn section_eq(a: &Vec<(String, Scalar)>, b: &Vec<(String, Scalar)>) -> (r: bool)
    ensures
        r == (section_view(a@) == section_view(b@)),
{
    if a.len() != b.len() {
        proof {
            assert(section_view(a@).len() != section_view(b@).len());
        }
        return false;
    }
    let mut i: usize = 0;
    while i < a.len()
        invariant
            i <= a.len(),
            a@.len() == b@.len(),
            forall|j: int| 0 <= j < i ==> #[trigger] section_view(a@)[j] == section_view(b@)[j],
        decreases a.len() - i,
    {
        let x = &a[i];
        let y = &b[i];
        if !x.0.eq(&y.0) || !scalar_eq(&x.1, &y.1) {
            proof {
                assert(section_view(a@)[i as int] != section_view(b@)[i as int]);
            }
            return false;
        }
        i = i + 1;
    }
    proof {
        assert(section_view(a@) =~= section_view(b@));
    }
    true
}

fn value_eq(a: &DocValue, b: &DocValue) -> (r: bool)
    ensures
        r == (a@ == b@),
{
    match (a, b) {
        (DocValue::Leaf(x), DocValue::Leaf(y)) => scalar_eq(x, y),
        (DocValue::Section(x), DocValue::Section(y)) => section_eq(x, y),
        _ => false,
    }
}

/// First index holding this key at the top level, if any.
fn find_doc_entry(v: &Vec<(String, DocValue)>, k: &String) -> (r: Option<usize>)
    ensures
        match r {
            Some(j) => j < v@.len() && doc_view(v@)[j as int].0 == k@,
            None => !has_key(doc_view(v@), k@),
        },
{
    let mut i: usize = 0;
    while i < v.len()
        invariant
            i <= v.len(),
            forall|j: int| 0 <= j < i ==> #[trigger] doc_view(v@)[j].0 != k@,
        decreases v.len() - i,
    {
        if v[i].0.eq(k) {
            return Some(i);
        }
        i = i + 1;
    }
    None
}

/// First index holding this key in a section, if any.
fn find_section_entry(v: &Vec<(String, Scalar)>, k: &String) -> (r: Option<usize>)
    ensures
        match r {
            Some(j) => j < v@.len() && section_view(v@)[j as int].0 == k@,
            None => !has_key(section_view(v@), k@),
        },
{
    let mut i: usize = 0;
    while i < v.len()
        invariant
            i <= v.len(),
            forall|j: int| 0 <= j < i ==> #[trigger] section_view(v@)[j].0 != k@,
        decreases v.len() - i,
    {
        if v[i].0.eq(k) {
            return Some(i);
        }
        i = i + 1;
    }
    None
}

/// Merge a section patch into a base section, later values replacing earlier
/// ones key-wise.
fn merge_section(b: &Vec<(String, Scalar)>, p: &Vec<(String, Scalar)>) -> (r: Vec<
    (String, Scalar),
>)
    requires
        unique_keys(section_view(b@)),
    ensures
        section_view(r@) == merge_assoc(section_view(b@), section_view(p@)),
        unique_keys(section_view(r@)),
{
    let mut r = clone_section(b);
    let mut i: usize = 0;
    proof {
        assert(section_view(p@).take(0) =~= Seq::<(Seq<char>, ScalarV)>::empty());
        assert(merge_assoc(section_view(b@), section_view(p@).take(0)) == section_view(b@));
    }
    while i < p.len()
        invariant
            i <= p.len(),
            section_view(r@) == merge_assoc(section_view(b@), section_view(p@).take(i as int)),
            unique_keys(section_view(r@)),
        decreases p.len() - i,
    {
        let ghost pre = section_view(r@);
        let ghost e = section_view(p@)[i as int];
        let entry = &p[i];
        proof {
            assert(e == (entry.0@, entry.1@));
        }
        match find_section_entry(&r, &entry.0) {
            Some(j) => {
                proof {
                    let ka = key_at(pre, e.0);
                    assert(pre[j as int].0 == e.0);
                    assert(0 <= ka < pre.len() && pre[ka].0 == e.0);
                    assert(ka == j as int);
                }
                r[j] = (entry.0.clone(), clone_scalar(&entry.1));
                proof {
                    assert(section_view(r@) =~= pre.update(key_at(pre, e.0), (e.0, e.1)));
                }
            },
            None => {
                r.push((entry.0.clone(), clone_scalar(&entry.1)));
                proof {
                    assert(section_view(r@) =~= pre.push((e.0, e.1)));
                }
            },
        }
        proof {
            lemma_upsert_unique(pre, e.0, e.1);
            assert(section_view(p@).take(i + 1).drop_last() =~= section_view(p@).take(i as int));
            assert(section_view(p@).take(i + 1) =~= section_view(p@).take(i as int).push(e));
            lemma_merge_assoc_push(section_view(b@), section_view(p@).take(i as int), e);
        }
        i = i + 1;
    }
    proof {
        assert(section_view(p@).take(p@.len() as int) =~= section_view(p@));
    }
    r
}

impl ConfigDoc {
    /// The empty mapping; also the fixed minimal default configuration used
    /// when no profile is selected.
    pub fn empty() -> (r: ConfigDoc)
        ensures
            r@ == Seq::<(Seq<char>, DocValueV)>::empty(),
            doc_v_wf(r@),
    {
        let r = ConfigDoc { entries: Vec::new() };
        proof {
            assert(r@ =~= Seq::<(Seq<char>, DocValueV)>::empty());
        }
        r
    }

    /// An equal copy of this document.
    pub fn duplicate(&self) -> (r: ConfigDoc)
        ensures
            r@ == self@,
    {
        let mut entries: Vec<(String, DocValue)> = Vec::new();
        let mut i: usize = 0;
        while i < self.entries.len()
            invariant
                i <= self.entries.len(),
                entries@.len() == i,
                forall|j: int|
                    0 <= j < i ==> (#[trigger] entries@[j]).0@ == self.entries@[j].0@
                        && entries@[j].1@ == self.entries@[j].1@,
            decreases self.entries.len() - i,
        {
            let e = &self.entries[i];
            entries.push((e.0.clone(), clone_value(&e.1)));
            i = i + 1;
        }
        proof {
            assert forall|j: int| 0 <= j < self.entries@.len() implies #[trigger] doc_view(
                entries@,
            )[j] == doc_view(self.entries@)[j] by {
                assert(doc_view(entries@)[j] == (entries@[j].0@, entries@[j].1@));
                assert(doc_view(self.entries@)[j] == (self.entries@[j].0@, self.entries@[j].1@));
            }
            assert(doc_view(entries@) =~= doc_view(self.entries@));
        }
        ConfigDoc { entries }
    }

    /// Whether the two documents hold the same content.
    pub fn same_content(&self, other: &ConfigDoc) -> (r: bool)
        ensures
            r == (self@ == other@),
    {
        if self.entries.len() != other.entries.len() {
            proof {
                assert(self@.len() != other@.len());
            }
            return false;
        }
        let mut i: usize = 0;
        while i < self.entries.len()
            invariant
                i <= self.entries.len(),
                self.entries@.len() == other.entries@.len(),
                forall|j: int| 0 <= j < i ==> #[trigger] self@[j] == other@[j],
            decreases self.entries.len() - i,
        {
            let x = &self.entries[i];
            let y = &other.entries[i];
            if !x.0.eq(&y.0) || !value_eq(&x.1, &y.1) {
                proof {
                    assert(self@[i as int] != other@[i as int]);
                }
                return false;
            }
            i = i + 1;
        }
        proof {
            assert(self@ =~= other@);
        }
        true
    }

    /// Whether the document is well formed: unique keys at the top level and
    /// inside every section.
    pub fn is_wf(&self) -> (r: bool)
        ensures
            r == doc_v_wf(self@),
    {
        let mut i: usize = 0;
        proof {
            assert forall|a: int| 0 <= a < self@.len() implies #[trigger] self@[a] == (
                self.entries@[a].0@,
                self.entries@[a].1@,
            ) by {}
        }
        while i < self.entries.len()
            invariant
                i <= self.entries.len(),
                self@.len() == self.entries@.len(),
                forall|a: int|
                    0 <= a < self@.len() ==> #[trigger] self@[a] == (
                        self.entries@[a].0@,
                        self.entries@[a].1@,
                    ),
                forall|a: int, b: int|
                    0 <= a < b < i ==> (#[trigger] self.entries@[a]).0@ != (
                    #[trigger] self.entries@[b]).0@,
                forall|a: int|
                    0 <= a < i && (#[trigger] self.entries@[a]).1@ is Section ==> unique_keys(
                        self.entries@[a].1@->Section_0,
                    ),
            decreases self.entries.len() - i,
        {
            let e = &self.entries[i];
            let mut j: usize = 0;
            while j < i
                invariant
                    j <= i,
                    i < self.entries.len(),
                    e == self.entries@[i as int],
                    forall|a: int|
                        0 <= a < j ==> (#[trigger] self.entries@[a]).0@ != self.entries@[i as int].0@,
                decreases i - j,
            {
                if self.entries[j].0.eq(&e.0) {
                    proof {
                        assert(self@[j as int].0 == self@[i as int].0);
                        assert(!unique_keys(self@));
                    }
                    return false;
                }
                j = j + 1;
            }
            match &e.1 {
                DocValue::Leaf(_) => {},
                DocValue::Section(sec) => {
                    if !section_is_wf(sec) {
                        proof {
                            assert(self@[i as int].1 is Section);
                            assert(self@[i as int].1->Section_0 == section_view(sec@));
                        }
                        return false;
                    }
                },
            }
            i = i + 1;
        }
        proof {
            assert forall|a: int, b: int| 0 <= a < b < self@.len() implies #[trigger] self@[a].0
                != #[trigger] self@[b].0 by {
                assert(self.entries@[a].0@ != self.entries@[b].0@);
            }
            assert forall|a: int|
                0 <= a < self@.len() && #[trigger] self@[a].1 is Section implies unique_keys(
                self@[a].1->Section_0,
            ) by {
                assert(self.entries@[a].1@ is Section);
            }
        }
        true
    }

    /// Deep merge: the patch's entries folded into this document left to
    /// right, sections merging key-wise and every other collision replacing
    /// the stored value.
    pub fn merged(&self, patch: &ConfigDoc) -> (r: ConfigDoc)
        requires
            doc_v_wf(self@),
            doc_v_wf(patch@),
        ensures
            r@ == merge_docs(self@, patch@),
            doc_v_wf(r@),
    {
        let mut r = self.duplicate();
        let mut i: usize = 0;
        proof {
            assert(patch@.take(0) =~= Seq::<(Seq<char>, DocValueV)>::empty());
        }
        while i < patch.entries.len()
            invariant
                i <= patch.entries.len(),
                doc_v_wf(patch@),
                patch@.len() == patch.entries@.len(),
                r@ == merge_docs(self@, patch@.take(i as int)),
                doc_v_wf(r@),
            decreases patch.entries.len() - i,
        {
            let ghost pre = r@;
            let ghost e = patch@[i as int];
            let entry = &patch.entries[i];
            proof {
                assert(e == (entry.0@, entry.1@));
                assert(e.1 is Section ==> unique_keys(e.1->Section_0));
            }
            match find_doc_entry(&r.entries, &entry.0) {
                Some(j) => {
                    proof {
                        let ka = key_at(pre, e.0);
                        assert(pre[j as int].0 == e.0);
                        assert(0 <= ka < pre.len() && pre[ka].0 == e.0);
                        assert(ka == j as int);
                        assert(find_key(pre, e.0) == Some(pre[j as int].1));
                    }
                    let newv: DocValue = match (&r.entries[j].1, &entry.1) {
                        (DocValue::Section(bs), DocValue::Section(ps)) => {
                            proof {
                                assert(pre[j as int].1 is Section);
                            }
                            DocValue::Section(merge_section(bs, ps))
                        },
                        _ => clone_value(&entry.1),
                    };
                    proof {
                        assert(newv@ == merged_value(find_key(pre, e.0), e.1));
                    }
                    r.entries[j] = (entry.0.clone(), newv);
                    proof {
                        assert(r@ =~= pre.update(key_at(pre, e.0), (e.0, merged_value(find_key(pre, e.0), e.1))));
                        assert(r@ == doc_step(pre, e));
                    }
                },
                None => {
                    proof {
                        assert(find_key(pre, e.0) is None);
                        assert(merged_value(find_key(pre, e.0), e.1) == e.1);
                    }
                    r.entries.push((entry.0.clone(), clone_value(&entry.1)));
                    proof {
                        assert(r@ =~= pre.push((e.0, e.1)));
                        assert(r@ == doc_step(pre, e));
                    }
                },
            }
            proof {
                lemma_doc_step_wf(pre, e);
                assert(patch@.take(i + 1).drop_last() =~= patch@.take(i as int));
                assert(patch@.take(i + 1) =~= patch@.take(i as int).push(e));
                lemma_merge_docs_push(self@, patch@.take(i as int), e);
            }
            i = i + 1;
        }
        proof {
            assert(patch@.take(patch@.len() as int) =~= patch@);
        }
        r
    }
}

/// Whether a section's keys are unique.
fn section_is_wf(v: &Vec<(String, Scalar)>) -> (r: bool)
    ensures
        r == unique_keys(section_view(v@)),
{
    let mut i: usize = 0;
    while i < v.len()
        invariant
            i <= v.len(),
            forall|a: int, b: int|
                0 <= a < b < i ==> (#[trigger] v@[a]).0@ != (#[trigger] v@[b]).0@,
        decreases v.len() - i,
    {
        let mut j: usize = 0;
        while j < i
            invariant
                j <= i,
                i < v.len(),
                forall|a: int| 0 <= a < j ==> (#[trigger] v@[a]).0@ != v@[i as int].0@,
            decreases i - j,
        {
            if v[j].0.eq(&v[i].0) {
                proof {
                    assert(section_view(v@)[j as int].0 == section_view(v@)[i as int].0);
                    assert(!unique_keys(section_view(v@)));
                }
                return false;
            }
            j = j + 1;
        }
        i = i + 1;
    }
    proof {
        assert forall|a: int, b: int| 0 <= a < b < section_view(v@).len() implies #[trigger]
        section_view(v@)[a].0 != #[trigger] section_view(v@)[b].0 by {
            assert(section_view(v@)[a].0 == v@[a].0@);
            assert(section_view(v@)[b].0 == v@[b].0@);
        }
    }
    true
}

} // verus!
