//! The catalog of examples: each name with the one example that bears it.
use vstd::prelude::*;
use crate::models::example::{ExampleFile, ExampleFileView};
use crate::text::{copy_opt, texts, to_chars};

verus! {

/// The order of texts: character by character, a prefix before what it is a
/// prefix of.
pub open spec fn text_lt(a: Seq<char>, b: Seq<char>) -> bool
    decreases a.len(),
{
    if b.len() == 0 {
        false
    } else if a.len() == 0 {
        true
    } else if a[0] != b[0] {
        (a[0] as int) < (b[0] as int)
    } else {
        text_lt(a.skip(1), b.skip(1))
    }
}

/// No text comes before itself.
pub proof fn lemma_text_lt_irreflexive(a: Seq<char>)
    ensures
        !text_lt(a, a),
    decreases a.len(),
{
    if a.len() > 0 {
        lemma_text_lt_irreflexive(a.skip(1));
    }
}

/// What comes before a text comes before all that comes after it.
pub proof fn lemma_text_lt_transitive(a: Seq<char>, b: Seq<char>, c: Seq<char>)
    requires
        text_lt(a, b),
        text_lt(b, c),
    ensures
        text_lt(a, c),
    decreases a.len(),
{
    if a.len() > 0 && a[0] == b[0] && b[0] == c[0] {
        lemma_text_lt_transitive(a.skip(1), b.skip(1), c.skip(1));
    }
}

/// Of two different texts, one comes before the other.
pub proof fn lemma_text_lt_total(a: Seq<char>, b: Seq<char>)
    ensures
        text_lt(a, b) || a == b || text_lt(b, a),
    decreases a.len(),
{
    if a.len() == 0 && b.len() == 0 {
        assert(a =~= b);
    } else if a.len() == 0 {
        assert(text_lt(a, b));
    } else if b.len() == 0 {
        assert(text_lt(b, a));
    } else if a[0] == b[0] {
        lemma_text_lt_total(a.skip(1), b.skip(1));
        if a.skip(1) == b.skip(1) {
            assert(a =~= seq![a[0]] + a.skip(1));
            assert(b =~= seq![b[0]] + b.skip(1));
        } else if text_lt(a.skip(1), b.skip(1)) {
            assert(text_lt(a, b));
        } else {
            assert(text_lt(b, a));
        }
    } else {
        assert(a[0] as int != b[0] as int);
        if (a[0] as int) < (b[0] as int) {
            assert(text_lt(a, b));
        } else {
            assert(text_lt(b, a));
        }
    }
}

/// Where one text stands relative to another.
#[derive(Clone, Copy, Debug, PartialEq, Eq, Structural)]
pub enum Rank {
    /// It comes before the other.
    Before,
    /// The two are the same text.
    Same,
    /// It comes after the other.
    After,
}

proof fn lemma_text_lt_skip(a: Seq<char>, b: Seq<char>, n: int)
    requires
        0 <= n <= a.len(),
        n <= b.len(),
        a.take(n) == b.take(n),
    ensures
        text_lt(a, b) == text_lt(a.skip(n), b.skip(n)),
    decreases n,
{
    if n > 0 {
        assert(a[0] == a.take(n)[0]);
        assert(b[0] == b.take(n)[0]);
        assert(a.skip(1).take(n - 1) =~= a.take(n).skip(1));
        assert(b.skip(1).take(n - 1) =~= b.take(n).skip(1));
        lemma_text_lt_skip(a.skip(1), b.skip(1), n - 1);
        assert(a.skip(1).skip(n - 1) =~= a.skip(n));
        assert(b.skip(1).skip(n - 1) =~= b.skip(n));
    } else {
        assert(a.skip(0) =~= a);
        assert(b.skip(0) =~= b);
    }
}

/// Tells where `a` stands relative to `b`.
pub fn rank(a: &str, b: &str) -> (r: Rank)
    ensures
        r == Rank::Before <==> text_lt(a@, b@),
        r == Rank::Same <==> a@ == b@,
        r == Rank::After <==> text_lt(b@, a@),
{
    let x = to_chars(a);
    let y = to_chars(b);
    let mut i: usize = 0;
    while i < x.len() && i < y.len() && x[i] == y[i]
        invariant
            i <= x.len(),
            i <= y.len(),
            x@.take(i as int) == y@.take(i as int),
        decreases x.len() - i,
    {
        i += 1;
        assert(x@.take(i as int) =~= x@.take(i - 1).push(x@[i - 1]));
        assert(y@.take(i as int) =~= y@.take(i - 1).push(y@[i - 1]));
    }
    proof {
        lemma_text_lt_skip(x@, y@, i as int);
        lemma_text_lt_skip(y@, x@, i as int);
        lemma_text_lt_irreflexive(x@);
        lemma_text_lt_total(x@, y@);
        if text_lt(x@, y@) && text_lt(y@, x@) {
            lemma_text_lt_transitive(x@, y@, x@);
        }
    }
    if i == x.len() && i == y.len() {
        proof {
            assert(x@.take(i as int) =~= x@);
            assert(y@.take(i as int) =~= y@);
        }
        Rank::Same
    } else if i == x.len() {
        Rank::Before
    } else if i == y.len() {
        Rank::After
    } else if x[i] < y[i] {
        Rank::Before
    } else {
        Rank::After
    }
}

/// Each text comes before the texts behind it.
pub open spec fn ascending(list: Seq<Seq<char>>) -> bool {
    forall|i: int, j: int| 0 <= i < j < list.len() ==> text_lt(list[i], list[j])
}

/// The list holds the names of the catalog, each once, in ascending order.
pub open spec fn lists(m: Map<Seq<char>, ExampleFileView>, list: Seq<Seq<char>>) -> bool {
    ascending(list) && forall|k: Seq<char>| m.dom().contains(k) <==> list.contains(k)
}

/// The names of the catalog in ascending order.
pub open spec fn names_in_order(m: Map<Seq<char>, ExampleFileView>) -> Seq<Seq<char>> {
    choose|list: Seq<Seq<char>>| lists(m, list)
}

/// Two ascending lists of the same texts are the same list.
pub proof fn lemma_ascending_unique(a: Seq<Seq<char>>, b: Seq<Seq<char>>)
    requires
        ascending(a),
        ascending(b),
        forall|k: Seq<char>| a.contains(k) <==> b.contains(k),
    ensures
        a == b,
    decreases a.len(),
{
    if a.len() == 0 {
        if b.len() > 0 {
            assert(b.contains(b[0]));
        }
        assert(a =~= b);
    } else if b.len() == 0 {
        assert(a.contains(a[0]));
    } else {
        assert(a.contains(a[0]));
        assert(b.contains(b[0]));
        let i = choose|i: int| 0 <= i < b.len() && b[i] == a[0];
        let j = choose|j: int| 0 <= j < a.len() && a[j] == b[0];
        lemma_text_lt_irreflexive(a[0]);
        if i > 0 && j > 0 {
            lemma_text_lt_transitive(a[0], a[j], b[i]);
        }
        assert(a[0] == b[0]);
        let x = a.skip(1);
        let y = b.skip(1);
        assert forall|k: Seq<char>| x.contains(k) <==> y.contains(k) by {
            if x.contains(k) {
                let n = choose|n: int| 0 <= n < x.len() && x[n] == k;
                assert(a[n + 1] == k);
                assert(a.contains(k));
                let m = choose|m: int| 0 <= m < b.len() && b[m] == k;
                lemma_text_lt_irreflexive(k);
                assert(text_lt(a[0], a[n + 1]));
                assert(m > 0);
                assert(y[m - 1] == k);
            }
            if y.contains(k) {
                let n = choose|n: int| 0 <= n < y.len() && y[n] == k;
                assert(b[n + 1] == k);
                assert(b.contains(k));
                let m = choose|m: int| 0 <= m < a.len() && a[m] == k;
                lemma_text_lt_irreflexive(k);
                assert(text_lt(b[0], b[n + 1]));
                assert(m > 0);
                assert(x[m - 1] == k);
            }
        }
        assert forall|p: int, q: int| 0 <= p < q < x.len() implies text_lt(x[p], x[q]) by {
            assert(x[p] == a[p + 1] && x[q] == a[q + 1]);
        }
        assert forall|p: int, q: int| 0 <= p < q < y.len() implies text_lt(y[p], y[q]) by {
            assert(y[p] == b[p + 1] && y[q] == b[q + 1]);
        }
        lemma_ascending_unique(x, y);
        assert(a =~= seq![a[0]] + x);
        assert(b =~= seq![b[0]] + y);
    }
}

/// Each entry's name comes before the names of the entries behind it.
pub closed spec fn names_ascend(s: Seq<ExampleFile>) -> bool {
    forall|i: int, j: int| 0 <= i < j < s.len() ==> text_lt(s[i].name@, s[j].name@)
}

/// The map from each name to the entry that bears it.
pub closed spec fn as_map(s: Seq<ExampleFile>) -> Map<Seq<char>, ExampleFileView>
    decreases s.len(),
{
    if s.len() == 0 {
        Map::empty()
    } else {
        as_map(s.drop_last()).insert(s.last().name@, s.last()@)
    }
}

proof fn lemma_as_map(s: Seq<ExampleFile>)
    requires
        names_ascend(s),
    ensures
        forall|k: Seq<char>|
            as_map(s).dom().contains(k) <==> exists|i: int|
                0 <= i < s.len() && #[trigger] s[i].name@ == k,
        forall|i: int|
            0 <= i < s.len() ==> as_map(s).dom().contains(#[trigger] s[i].name@) && as_map(
                s,
            )[s[i].name@] == s[i]@,
        as_map(s).dom().finite(),
        as_map(s).dom().len() == s.len(),
    decreases s.len(),
{
    if s.len() > 0 {
        let t = s.drop_last();
        lemma_as_map(t);
        assert forall|k: Seq<char>|
            as_map(s).dom().contains(k) <==> exists|i: int|
                0 <= i < s.len() && #[trigger] s[i].name@ == k by {
            if as_map(s).dom().contains(k) {
                if k == s.last().name@ {
                    assert(s[s.len() - 1].name@ == k);
                } else {
                    let i = choose|i: int| 0 <= i < t.len() && #[trigger] t[i].name@ == k;
                    assert(s[i].name@ == k);
                }
            }
            if exists|i: int| 0 <= i < s.len() && #[trigger] s[i].name@ == k {
                let i = choose|i: int| 0 <= i < s.len() && #[trigger] s[i].name@ == k;
                if i < t.len() {
                    assert(t[i].name@ == k);
                }
            }
        }
        assert forall|i: int| 0 <= i < s.len() implies as_map(s).dom().contains(
            #[trigger] s[i].name@,
        ) && as_map(s)[s[i].name@] == s[i]@ by {
            if i < t.len() {
                assert(t[i] == s[i]);
                lemma_text_lt_irreflexive(s[i].name@);
                assert(text_lt(s[i].name@, s[s.len() - 1].name@));
            }
        }
        if as_map(t).dom().contains(s.last().name@) {
            let i = choose|i: int| 0 <= i < t.len() && #[trigger] t[i].name@ == s.last().name@;
            lemma_text_lt_irreflexive(s[i].name@);
            assert(text_lt(s[i].name@, s[s.len() - 1].name@));
        }
    }
}

proof fn lemma_replace(s: Seq<ExampleFile>, at: int, file: ExampleFile)
    requires
        names_ascend(s),
        0 <= at < s.len(),
        s[at].name@ == file.name@,
    ensures
        names_ascend(s.update(at, file)),
        as_map(s.update(at, file)) == as_map(s).insert(file.name@, file@),
{
    let t = s.update(at, file);
    assert forall|i: int, j: int| 0 <= i < j < t.len() implies text_lt(t[i].name@, t[j].name@) by {
        assert(t[i].name@ == s[i].name@);
        assert(t[j].name@ == s[j].name@);
    }
    lemma_as_map(s);
    lemma_as_map(t);
    let a = as_map(t);
    let b = as_map(s).insert(file.name@, file@);
    assert forall|k: Seq<char>| a.dom().contains(k) <==> b.dom().contains(k) by {
        if a.dom().contains(k) {
            let i = choose|i: int| 0 <= i < t.len() && #[trigger] t[i].name@ == k;
            assert(s[i].name@ == k);
        }
        if b.dom().contains(k) && k != file.name@ {
            let i = choose|i: int| 0 <= i < s.len() && #[trigger] s[i].name@ == k;
            assert(t[i].name@ == k);
        }
        if k == file.name@ {
            assert(t[at].name@ == k);
        }
    }
    assert forall|k: Seq<char>| a.dom().contains(k) implies a[k] == b[k] by {
        let i = choose|i: int| 0 <= i < t.len() && #[trigger] t[i].name@ == k;
        assert(a[t[i].name@] == t[i]@);
        if i != at {
            assert(s[i].name@ == k);
            assert(as_map(s)[s[i].name@] == s[i]@);
            lemma_text_lt_irreflexive(k);
            if i < at {
                assert(text_lt(s[i].name@, s[at].name@));
            } else {
                assert(text_lt(s[at].name@, s[i].name@));
            }
        }
    }
    assert(a =~= b);
}

proof fn lemma_insert(s: Seq<ExampleFile>, at: int, file: ExampleFile)
    requires
        names_ascend(s),
        0 <= at <= s.len(),
        forall|i: int| 0 <= i < at ==> text_lt(#[trigger] s[i].name@, file.name@),
        at < s.len() ==> text_lt(file.name@, s[at].name@),
    ensures
        names_ascend(s.insert(at, file)),
        as_map(s.insert(at, file)) == as_map(s).insert(file.name@, file@),
{
    let t = s.insert(at, file);
    assert forall|i: int, j: int| 0 <= i < j < t.len() implies text_lt(t[i].name@, t[j].name@) by {
        if j == at {
            assert(t[i] == s[i]);
        } else if i == at {
            assert(t[j] == s[j - 1]);
            if j - 1 > at {
                assert(text_lt(s[at].name@, s[j - 1].name@));
                lemma_text_lt_transitive(file.name@, s[at].name@, s[j - 1].name@);
            }
        } else if j < at {
            assert(t[i] == s[i] && t[j] == s[j]);
        } else if i < at {
            assert(t[i] == s[i] && t[j] == s[j - 1]);
        } else {
            assert(t[i] == s[i - 1] && t[j] == s[j - 1]);
        }
    }
    lemma_as_map(s);
    lemma_as_map(t);
    let a = as_map(t);
    let b = as_map(s).insert(file.name@, file@);
    assert forall|k: Seq<char>| a.dom().contains(k) <==> b.dom().contains(k) by {
        if a.dom().contains(k) {
            let i = choose|i: int| 0 <= i < t.len() && #[trigger] t[i].name@ == k;
            if i < at {
                assert(s[i].name@ == k);
            } else if i > at {
                assert(s[i - 1].name@ == k);
            }
        }
        if b.dom().contains(k) && k != file.name@ {
            let i = choose|i: int| 0 <= i < s.len() && #[trigger] s[i].name@ == k;
            if i < at {
                assert(t[i].name@ == k);
            } else {
                assert(t[i + 1].name@ == k);
            }
        }
        if k == file.name@ {
            assert(t[at].name@ == k);
        }
    }
    assert forall|k: Seq<char>| a.dom().contains(k) implies a[k] == b[k] by {
        let i = choose|i: int| 0 <= i < t.len() && #[trigger] t[i].name@ == k;
        assert(a[t[i].name@] == t[i]@);
        lemma_text_lt_irreflexive(k);
        if i < at {
            assert(s[i].name@ == k);
            assert(as_map(s)[s[i].name@] == s[i]@);
        } else if i > at {
            assert(s[i - 1].name@ == k);
            assert(as_map(s)[s[i - 1].name@] == s[i - 1]@);
            assert(text_lt(t[at].name@, t[i].name@));
        }
    }
    assert(a =~= b);
}

/// The catalog of runnable examples: a mapping from each name to the one
/// example of that name. It keeps its entries in the order of their names.
#[derive(Debug)]
pub struct Catalog {
    entries: Vec<ExampleFile>,
}

/// Where an entry of this name stands, or would stand: the index, and
/// whether an entry of this name is there.
fn position(entries: &Vec<ExampleFile>, name: &str) -> (r: (usize, bool))
    requires
        names_ascend(entries@),
    ensures
        r.0 <= entries.len(),
        forall|i: int| 0 <= i < r.0 ==> text_lt(#[trigger] entries@[i].name@, name@),
        r.1 ==> r.0 < entries.len() && entries@[r.0 as int].name@ == name@,
        !r.1 && r.0 < entries.len() ==> text_lt(name@, entries@[r.0 as int].name@),
{
    let mut i: usize = 0;
    while i < entries.len()
        invariant
            i <= entries.len(),
            forall|j: int| 0 <= j < i ==> text_lt(#[trigger] entries@[j].name@, name@),
        decreases entries.len() - i,
    {
        match rank(entries[i].name.as_str(), name) {
            Rank::Before => {
                i += 1;
            },
            Rank::Same => {
                return (i, true);
            },
            Rank::After => {
                return (i, false);
            },
        }
    }
    (i, false)
}

impl View for Catalog {
    type V = Map<Seq<char>, ExampleFileView>;

    closed spec fn view(&self) -> Map<Seq<char>, ExampleFileView> {
        as_map(self.entries@)
    }
}

/// An example as it stands in the catalog once `file` has been merged in:
/// `file` itself, but with the required features of the entry that bore its
/// name before, where there was one.
pub open spec fn merged_entry(
    m: Map<Seq<char>, ExampleFileView>,
    file: ExampleFileView,
) -> ExampleFileView {
    if m.dom().contains(file.name) {
        ExampleFileView {
            name: file.name,
            path: file.path,
            path_type: file.path_type,
            required_features: m[file.name].required_features,
        }
    } else {
        file
    }
}

/// The catalog after `file` has been merged in.
pub open spec fn merged(
    m: Map<Seq<char>, ExampleFileView>,
    file: ExampleFileView,
) -> Map<Seq<char>, ExampleFileView> {
    m.insert(file.name, merged_entry(m, file))
}

impl Catalog {
    #[verifier::type_invariant]
    spec fn well_formed(self) -> bool {
        names_ascend(self.entries@)
    }

    /// The empty catalog.
    pub fn new() -> (r: Catalog)
        ensures
            r@ == Map::<Seq<char>, ExampleFileView>::empty(),
    {
        Catalog { entries: Vec::new() }
    }

    /// The number of examples.
    pub fn len(&self) -> (r: usize)
        ensures
            self@.dom().finite(),
            r == self@.dom().len(),
    {
        proof {
            use_type_invariant(self);
            lemma_as_map(self.entries@);
        }
        self.entries.len()
    }

    /// The example of this name, if there is one. An entry stands under its
    /// own name.
    pub fn get(&self, name: &str) -> (r: Option<&ExampleFile>)
        ensures
            match r {
                Some(file) => self@.dom().contains(name@) && file@ == self@[name@] && file@.name
                    == name@,
                None => !self@.dom().contains(name@),
            },
    {
        proof {
            use_type_invariant(self);
            lemma_as_map(self.entries@);
        }
        let (at, found) = position(&self.entries, name);
        if found {
            Some(&self.entries[at])
        } else {
            proof {
                if self@.dom().contains(name@) {
                    let i = choose|i: int|
                        0 <= i < self.entries@.len() && #[trigger] self.entries@[i].name@ == name@;
                    lemma_text_lt_irreflexive(name@);
                    if i > at {
                        assert(text_lt(self.entries@[at as int].name@, self.entries@[i].name@));
                        lemma_text_lt_transitive(
                            name@,
                            self.entries@[at as int].name@,
                            self.entries@[i].name@,
                        );
                    }
                }
            }
            None
        }
    }

    /// Puts the example under its name, in place of the entry of that name
    /// if there is one.
    pub fn insert(&mut self, file: ExampleFile)
        ensures
            final(self)@ == old(self)@.insert(file.name@, file@),
    {
        proof {
            use_type_invariant(&*self);
        }
        let mut entries: Vec<ExampleFile> = Vec::new();
        std::mem::swap(&mut entries, &mut self.entries);
        let (at, found) = position(&entries, file.name.as_str());
        proof {
            if found {
                lemma_replace(entries@, at as int, file);
            } else {
                lemma_insert(entries@, at as int, file);
            }
        }
        if found {
            entries.set(at, file);
        } else {
            entries.insert(at, file);
        }
        self.entries = entries;
    }

    /// Merges a scanned example in: where an entry of its name is there
    /// already, only its path and its type are replaced and its required
    /// features stay; otherwise the example is added.
    pub fn merge(&mut self, file: ExampleFile)
        ensures
            final(self)@ == merged(old(self)@, file@),
    {
        let kept = match self.get(file.name.as_str()) {
            Some(known) => Some(copy_opt(&known.required_features)),
            None => None,
        };
        let file = match kept {
            Some(required_features) => ExampleFile {
                name: file.name,
                path: file.path,
                path_type: file.path_type,
                required_features,
            },
            None => file,
        };
        self.insert(file);
    }

    /// The names of the examples, in ascending order.
    pub fn names(&self) -> (r: Vec<String>)
        ensures
            texts(r@) == names_in_order(self@),
            lists(self@, texts(r@)),
            r.len() == self@.dom().len(),
    {
        proof {
            use_type_invariant(self);
            lemma_as_map(self.entries@);
        }
        let mut r: Vec<String> = Vec::new();
        let mut i: usize = 0;
        while i < self.entries.len()
            invariant
                i <= self.entries.len(),
                r.len() == i,
                forall|j: int| 0 <= j < i ==> #[trigger] r@[j]@ == self.entries@[j].name@,
            decreases self.entries.len() - i,
        {
            r.push(self.entries[i].name.clone());
            i += 1;
        }
        proof {
            assert forall|k: Seq<char>| self@.dom().contains(k) <==> texts(r@).contains(k) by {
                if self@.dom().contains(k) {
                    let i = choose|i: int|
                        0 <= i < self.entries@.len() && #[trigger] self.entries@[i].name@ == k;
                    assert(texts(r@)[i] == r@[i]@);
                }
                if texts(r@).contains(k) {
                    let i = choose|i: int| 0 <= i < texts(r@).len() && texts(r@)[i] == k;
                    assert(r@[i]@ == self.entries@[i].name@);
                }
            }
            assert forall|i: int, j: int| 0 <= i < j < texts(r@).len() implies text_lt(
                texts(r@)[i],
                texts(r@)[j],
            ) by {
                assert(r@[i]@ == self.entries@[i].name@);
                assert(r@[j]@ == self.entries@[j].name@);
            }
            assert(lists(self@, texts(r@)));
            lemma_ascending_unique(texts(r@), names_in_order(self@));
        }
        r
    }
}

} // verus!
