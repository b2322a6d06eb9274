//! Rolling helpers and the constrained multi-cursor container.

use vstd::prelude::*;

verus! {

/// Which on-screen row a phase selects from.
#[derive(Debug, PartialEq, Eq, Structural, Clone, Copy)]
pub enum Row {
    Party,
    Dungeon,
    Graveyard,
}

/// A per-cursor legality rule over (container, index, item).
#[derive(Debug, PartialEq, Eq, Structural, Clone, Copy)]
pub enum Rule {
    /// Every index is legal.
    Any,
    /// Legal only away from the primary cursor's position.
    OffPrimary,
    /// Legal only on hostile faces.
    Hostile,
    /// Legal on everything but the dragon face.
    NotDragon,
    /// Legal on everything but the dragon and chest faces.
    NotDragonNorChest,
    /// Legal only on companion faces.
    Companion,
}

/// A value the container can hold: it can decide the value-dependent rules.
pub trait Selectable: Sized + Copy {
    /// Whether this value satisfies the given value-dependent rule.
    spec fn spec_admits(self, rule: Rule) -> bool;

    /// Executable check of `spec_admits`.
    fn admits(&self, rule: Rule) -> (r: bool)
        ensures
            r == self.spec_admits(rule),
    ;

    /// Executable equality between two values.
    fn same(&self, other: &Self) -> (r: bool)
        ensures
            r == (*self == *other),
    ;
}

impl Selectable for crate::dice::Ally {
    open spec fn spec_admits(self, rule: Rule) -> bool {
        match rule {
            Rule::Companion => self.spec_companion(),
            _ => true,
        }
    }

    fn admits(&self, rule: Rule) -> bool {
        match rule {
            Rule::Companion => self.is_companion(),
            _ => true,
        }
    }

    fn same(&self, other: &Self) -> bool {
        *self == *other
    }
}

impl Selectable for crate::dice::Monster {
    open spec fn spec_admits(self, rule: Rule) -> bool {
        match rule {
            Rule::Hostile => self.spec_hostile(),
            Rule::NotDragon => self != crate::dice::Monster::Dragon,
            Rule::NotDragonNorChest => self != crate::dice::Monster::Dragon
                && self != crate::dice::Monster::Chest,
            _ => true,
        }
    }

    fn admits(&self, rule: Rule) -> bool {
        match rule {
            Rule::Hostile => self.is_monster(),
            Rule::NotDragon => !matches!(self, crate::dice::Monster::Dragon),
            Rule::NotDragonNorChest => !matches!(
                self,
                crate::dice::Monster::Dragon | crate::dice::Monster::Chest
            ),
            _ => true,
        }
    }

    fn same(&self, other: &Self) -> bool {
        *self == *other
    }
}

/// Whether `v` at index `idx` is legal for `rule`, with the primary cursor at
/// `primary`.
pub open spec fn rule_holds<T: Selectable>(rule: Rule, primary: int, idx: int, v: T) -> bool {
    match rule {
        Rule::OffPrimary => idx != primary,
        _ => v.spec_admits(rule),
    }
}

/// Executable check of `rule_holds`.
pub fn check_rule<T: Selectable>(rule: Rule, primary: usize, idx: usize, v: &T) -> (r: bool)
    ensures
        r == rule_holds(rule, primary as int, idx as int, *v),
{
    match rule {
        Rule::OffPrimary => idx != primary,
        _ => v.admits(rule),
    }
}

} // verus!

verus! {

/// The smallest index at or after `from` that is legal for `rule`, if any.
pub open spec fn first_legal_from<T: Selectable>(
    rule: Rule,
    primary: int,
    data: Seq<T>,
    from: int,
) -> Option<int>
    decreases data.len() - from,
{
    if from < 0 || from >= data.len() {
        None
    } else if rule_holds(rule, primary, from, data[from]) {
        Some(from)
    } else {
        first_legal_from(rule, primary, data, from + 1)
    }
}

/// The largest index below `end` that is legal for `rule`, if any.
pub open spec fn last_legal_before<T: Selectable>(
    rule: Rule,
    primary: int,
    data: Seq<T>,
    end: int,
) -> Option<int>
    decreases end,
{
    if end <= 0 || end > data.len() {
        None
    } else if rule_holds(rule, primary, end - 1, data[end - 1]) {
        Some(end - 1)
    } else {
        last_legal_before(rule, primary, data, end - 1)
    }
}

/// What the forward scan finds: the first legal index, with nothing legal
/// before it; or nothing legal at all.
pub proof fn lemma_first_legal<T: Selectable>(rule: Rule, primary: int, data: Seq<T>, from: int)
    requires
        0 <= from,
    ensures
        match first_legal_from(rule, primary, data, from) {
            Some(j) => from <= j < data.len() && rule_holds(rule, primary, j, data[j])
                && (forall|k: int| from <= k < j ==> !rule_holds(rule, primary, k, data[k])),
            None => forall|k: int|
                from <= k < data.len() ==> !rule_holds(rule, primary, k, data[k]),
        },
    decreases data.len() - from,
{
    if from < data.len() && !rule_holds(rule, primary, from, data[from]) {
        lemma_first_legal(rule, primary, data, from + 1);
    }
}

/// What the backward scan finds: the last legal index, with nothing legal
/// after it; or nothing legal at all.
pub proof fn lemma_last_legal<T: Selectable>(rule: Rule, primary: int, data: Seq<T>, end: int)
    requires
        end <= data.len(),
    ensures
        match last_legal_before(rule, primary, data, end) {
            Some(j) => 0 <= j < end && rule_holds(rule, primary, j, data[j])
                && (forall|k: int| j < k < end ==> !rule_holds(rule, primary, k, data[k])),
            None => forall|k: int| 0 <= k < end ==> !rule_holds(rule, primary, k, data[k]),
        },
    decreases end,
{
    if end > 0 && !rule_holds(rule, primary, end - 1, data[end - 1]) {
        lemma_last_legal(rule, primary, data, end - 1);
    }
}

/// Where the repair pass puts one cursor: out-of-bounds cursors relocate to
/// the nearest legal index scanning backward from the end (defaulting to the
/// last index); cursors on a failing item scan forward from the start, then
/// backward from the end, defaulting to the first index.
pub open spec fn canon_one<T: Selectable>(rule: Rule, primary: int, data: Seq<T>, cur: int) -> int {
    if data.len() == 0 {
        cur
    } else if cur >= data.len() {
        match last_legal_before(rule, primary, data, data.len() as int) {
            Some(j) => j,
            None => data.len() - 1,
        }
    } else if !rule_holds(rule, primary, cur, data[cur]) {
        match first_legal_from(rule, primary, data, 0) {
            Some(j) => j,
            None => match last_legal_before(rule, primary, data, data.len() as int) {
                Some(j) => j,
                None => 0,
            },
        }
    } else {
        cur
    }
}

/// The repaired cursor stays where the sequence can address it.
pub proof fn lemma_canon_one_bounds<T: Selectable>(rule: Rule, primary: int, data: Seq<T>, cur: int)
    requires
        0 <= cur,
        data.len() > 0,
    ensures
        0 <= canon_one(rule, primary, data, cur) < data.len(),
{
    lemma_first_legal(rule, primary, data, 0);
    lemma_last_legal(rule, primary, data, data.len() as int);
}

/// Where the repair pass puts every cursor.  The primary cursor is repaired
/// first against its own old position; the others are repaired against the
/// repaired primary position.
pub open spec fn canon_positions<T: Selectable>(
    rules: Seq<Rule>,
    data: Seq<T>,
    pos: Seq<usize>,
) -> Seq<usize> {
    if pos.len() == 0 {
        pos
    } else {
        let p0 = canon_one(rules[0], pos[0] as int, data, pos[0] as int);
        Seq::new(
            pos.len(),
            |i: int|
                if i == 0 {
                    p0 as usize
                } else {
                    canon_one(rules[i], p0, data, pos[i] as int) as usize
                },
        )
    }
}

/// The primary position against which cursor `c`'s rule is evaluated by the
/// repair pass.
pub open spec fn canon_primary<T: Selectable>(
    rules: Seq<Rule>,
    data: Seq<T>,
    pos: Seq<usize>,
    c: int,
) -> int {
    if c == 0 || pos.len() == 0 {
        pos[0] as int
    } else {
        canon_one(rules[0], pos[0] as int, data, pos[0] as int)
    }
}

/// Canonicalization law: on a non-empty sequence holding at least one index
/// that satisfies cursor `c`'s rule (with respect to the primary position the
/// repair pass evaluates that rule against), the repair pass leaves cursor
/// `c` on a satisfying index.
pub proof fn lemma_canonicalize_legal<T: Selectable>(
    rules: Seq<Rule>,
    data: Seq<T>,
    pos: Seq<usize>,
    c: int,
)
    requires
        pos.len() == rules.len(),
        0 <= c < pos.len(),
        0 < data.len() <= usize::MAX,
        exists|j: int|
            0 <= j < data.len() && rule_holds(
                rules[c],
                canon_primary(rules, data, pos, c),
                j,
                data[j],
            ),
    ensures
        ({
            let p = canon_primary(rules, data, pos, c);
            let q = canon_positions(rules, data, pos)[c] as int;
            0 <= q < data.len() && rule_holds(rules[c], p, q, data[q])
        }),
{
    let p = canon_primary(rules, data, pos, c);
    let cur = pos[c] as int;
    lemma_first_legal(rules[c], p, data, 0);
    lemma_last_legal(rules[c], p, data, data.len() as int);
    lemma_canon_one_bounds(rules[c], p, data, cur);
}

} // verus!

verus! {

/// The marks that still address the sequence: those below `len`, in order.
pub open spec fn prune_marks(s: Seq<usize>, len: int) -> Seq<usize>
    decreases s.len(),
{
    if s.len() == 0 {
        Seq::empty()
    } else {
        let rest = prune_marks(s.drop_last(), len);
        if (s.last() as int) < len {
            rest.push(s.last())
        } else {
            rest
        }
    }
}

/// Pruning keeps exactly the in-range marks, keeps them distinct, and keeps
/// them in range.
pub proof fn lemma_prune_marks(s: Seq<usize>, len: int)
    ensures
        forall|v: usize| #[trigger] prune_marks(s, len).contains(v) <==> s.contains(v) && (v as int) < len,
        s.no_duplicates() ==> prune_marks(s, len).no_duplicates(),
        forall|i: int|
            0 <= i < prune_marks(s, len).len() ==> (#[trigger] prune_marks(s, len)[i] as int) < len,
        prune_marks(s, len).len() <= s.len(),
    decreases s.len(),
{
    broadcast use vstd::seq_lib::group_seq_properties;

    if s.len() > 0 {
        lemma_prune_marks(s.drop_last(), len);
        assert(s.drop_last().push(s.last()) =~= s);
        if s.no_duplicates() {
            assert(s.drop_last().no_duplicates()) by {
                assert forall|i: int, j: int|
                    0 <= i < j < s.drop_last().len() implies s.drop_last()[i]
                    != s.drop_last()[j] by {
                    assert(s[i] == s.drop_last()[i]);
                    assert(s[j] == s.drop_last()[j]);
                }
            }
            if (s.last() as int) < len {
                assert(!s.drop_last().contains(s.last())) by {
                    if s.drop_last().contains(s.last()) {
                        let k = choose|k: int|
                            0 <= k < s.drop_last().len() && s.drop_last()[k] == s.last();
                        assert(s[k] == s[s.len() - 1]);
                    }
                }
                assert(!prune_marks(s.drop_last(), len).contains(s.last()));
            }
        }
    }
}

/// Pruning a sequence of in-range marks changes nothing.
pub proof fn lemma_prune_marks_id(s: Seq<usize>, len: int)
    requires
        forall|i: int| 0 <= i < s.len() ==> (#[trigger] s[i] as int) < len,
    ensures
        prune_marks(s, len) == s,
    decreases s.len(),
{
    if s.len() > 0 {
        assert forall|i: int| 0 <= i < s.drop_last().len() implies (#[trigger] s.drop_last()[i]
            as int) < len by {
            assert(s.drop_last()[i] == s[i]);
        }
        lemma_prune_marks_id(s.drop_last(), len);
        assert(prune_marks(s, len) =~= s);
    } else {
        assert(prune_marks(s, len) =~= s);
    }
}

/// The sequence with every occurrence of `v` dropped, in order.
pub open spec fn without_mark(s: Seq<usize>, v: usize) -> Seq<usize>
    decreases s.len(),
{
    if s.len() == 0 {
        Seq::empty()
    } else {
        let rest = without_mark(s.drop_last(), v);
        if s.last() == v {
            rest
        } else {
            rest.push(s.last())
        }
    }
}

/// Dropping a mark keeps the others, keeps them distinct, and, on a distinct
/// sequence that held the mark, shortens it by exactly one.
pub proof fn lemma_without_mark(s: Seq<usize>, v: usize)
    ensures
        forall|w: usize| #[trigger] without_mark(s, v).contains(w) <==> s.contains(w) && w != v,
        s.no_duplicates() ==> without_mark(s, v).no_duplicates(),
        s.no_duplicates() && s.contains(v) ==> without_mark(s, v).len() == s.len() - 1,
        !s.contains(v) ==> without_mark(s, v) == s,
        without_mark(s, v).len() <= s.len(),
    decreases s.len(),
{
    broadcast use vstd::seq_lib::group_seq_properties;

    if s.len() > 0 {
        lemma_without_mark(s.drop_last(), v);
        assert(s.drop_last().push(s.last()) =~= s);
        if s.no_duplicates() {
            assert(s.drop_last().no_duplicates()) by {
                assert forall|i: int, j: int|
                    0 <= i < j < s.drop_last().len() implies s.drop_last()[i]
                    != s.drop_last()[j] by {
                    assert(s[i] == s.drop_last()[i]);
                    assert(s[j] == s.drop_last()[j]);
                }
            }
            assert(!s.drop_last().contains(s.last())) by {
                if s.drop_last().contains(s.last()) {
                    let k = choose|k: int|
                        0 <= k < s.drop_last().len() && s.drop_last()[k] == s.last();
                    assert(s[k] == s[s.len() - 1]);
                }
            }
            if s.contains(v) && s.last() != v {
                assert(s.drop_last().contains(v));
            }
            if s.last() != v {
                assert(!without_mark(s.drop_last(), v).contains(s.last()));
            }
        }
        if !s.contains(v) {
            assert(s.contains(s.last()));
            assert(!s.drop_last().contains(v));
            assert(without_mark(s, v) =~= s);
        }
    }
}

/// The sub-sequence of items equal (or, with `keep_equal` false, unequal) to
/// `key`, in order.
pub open spec fn filter_eq<T>(s: Seq<T>, key: T, keep_equal: bool) -> Seq<T>
    decreases s.len(),
{
    if s.len() == 0 {
        Seq::empty()
    } else {
        let rest = filter_eq(s.drop_last(), key, keep_equal);
        if (s.last() == key) == keep_equal {
            rest.push(s.last())
        } else {
            rest
        }
    }
}

/// How many items of the sequence equal `v`.
pub open spec fn count_in<T>(s: Seq<T>, v: T) -> nat
    decreases s.len(),
{
    if s.len() == 0 {
        0
    } else {
        count_in(s.drop_last(), v) + if s.last() == v {
            1nat
        } else {
            0nat
        }
    }
}

} // verus!

verus! {

/// The constrained multi-cursor container: an ordered sequence of items, one
/// cursor per legality rule, and a capacity-limited selection of indices.
pub struct Cursor<T> {
    cursors: Vec<usize>,
    selection: Vec<usize>,
    selection_limit: usize,
    invariants: Vec<Rule>,
    data: Vec<T>,
}

impl<T> Cursor<T> {
    /// The items, as seen by specifications.
    pub closed spec fn items(self) -> Seq<T> {
        self.data@
    }

    /// The cursor positions, one per rule.
    pub closed spec fn positions(self) -> Seq<usize> {
        self.cursors@
    }

    /// The selected indices, in insertion order.
    pub closed spec fn marks(self) -> Seq<usize> {
        self.selection@
    }

    /// The legality rules, one per cursor.
    pub closed spec fn rules(self) -> Seq<Rule> {
        self.invariants@
    }

    /// The selection capacity; zero means unlimited.
    pub closed spec fn limit(self) -> usize {
        self.selection_limit
    }

    /// Well-formedness: one cursor per rule; on a non-empty sequence every
    /// cursor addresses it; every selected index addresses it; no index is
    /// selected twice.
    pub open spec fn wf(self) -> bool {
        &&& self.positions().len() == self.rules().len()
        &&& (self.items().len() > 0 ==> forall|i: int|
            0 <= i < self.positions().len() ==> (#[trigger] self.positions()[i] as int)
                < self.items().len())
        &&& (forall|i: int|
            0 <= i < self.marks().len() ==> (#[trigger] self.marks()[i] as int)
                < self.items().len())
        &&& self.marks().no_duplicates()
    }
}

/// The marks of `v` that still address a sequence of length `len`.
fn prune_vec(v: &Vec<usize>, len: usize) -> (r: Vec<usize>)
    ensures
        r@ == prune_marks(v@, len as int),
{
    let mut r: Vec<usize> = Vec::new();
    let mut i: usize = 0;
    while i < v.len()
        invariant
            i <= v@.len(),
            r@ == prune_marks(v@.take(i as int), len as int),
        decreases v@.len() - i,
    {
        proof {
            assert(v@.take(i + 1).drop_last() =~= v@.take(i as int));
            assert(v@.take(i + 1).last() == v@[i as int]);
        }
        let m = v[i];
        if m < len {
            r.push(m);
        }
        i += 1;
    }
    proof {
        assert(v@.take(v@.len() as int) =~= v@);
    }
    r
}

impl<T: Selectable> Cursor<T> {
    /// The nearest index at or after `skip` that satisfies cursor `c`'s rule,
    /// evaluated against the primary cursor's current position.
    fn next_valid(&self, c: usize, skip: usize) -> (r: Option<usize>)
        requires
            self.positions().len() == self.rules().len(),
        ensures
            match r {
                Some(u) => c < self.rules().len() && first_legal_from(
                    self.rules()[c as int],
                    self.positions()[0] as int,
                    self.items(),
                    skip as int,
                ) == Some(u as int),
                None => c >= self.rules().len() || first_legal_from(
                    self.rules()[c as int],
                    self.positions()[0] as int,
                    self.items(),
                    skip as int,
                ) is None,
            },
    {
        if c >= self.invariants.len() {
            return None;
        }
        let rule = self.invariants[c];
        let primary = self.cursors[0];
        let ghost items = self.items();
        let mut i: usize = skip;
        while i < self.data.len()
            invariant
                skip <= i,
                items == self.items(),
                rule == self.rules()[c as int],
                c < self.rules().len(),
                self.positions().len() == self.rules().len(),
                primary == self.positions()[0],
                first_legal_from(rule, primary as int, items, skip as int) == first_legal_from(
                    rule,
                    primary as int,
                    items,
                    i as int,
                ),
            decreases self.data@.len() - i,
        {
            if check_rule(rule, primary, i, &self.data[i]) {
                proof {
                    assert(first_legal_from(rule, primary as int, items, i as int) == Some(
                        i as int,
                    ));
                }
                return Some(i);
            }
            i += 1;
        }
        None
    }

    /// The nearest index below `skip` that satisfies cursor `c`'s rule,
    /// evaluated against the primary cursor's current position.
    fn prev_valid(&self, c: usize, skip: usize) -> (r: Option<usize>)
        requires
            self.positions().len() == self.rules().len(),
            skip <= self.items().len(),
        ensures
            match r {
                Some(u) => c < self.rules().len() && last_legal_before(
                    self.rules()[c as int],
                    self.positions()[0] as int,
                    self.items(),
                    skip as int,
                ) == Some(u as int),
                None => c >= self.rules().len() || last_legal_before(
                    self.rules()[c as int],
                    self.positions()[0] as int,
                    self.items(),
                    skip as int,
                ) is None,
            },
    {
        if c >= self.invariants.len() {
            return None;
        }
        let rule = self.invariants[c];
        let primary = self.cursors[0];
        let ghost items = self.items();
        let mut i: usize = skip;
        while i > 0
            invariant
                i <= skip <= items.len(),
                items == self.items(),
                rule == self.rules()[c as int],
                c < self.rules().len(),
                self.positions().len() == self.rules().len(),
                primary == self.positions()[0],
                last_legal_before(rule, primary as int, items, skip as int) == last_legal_before(
                    rule,
                    primary as int,
                    items,
                    i as int,
                ),
            decreases i,
        {
            i -= 1;
            if check_rule(rule, primary, i, &self.data[i]) {
                proof {
                    assert(last_legal_before(rule, primary as int, items, i + 1) == Some(i as int));
                }
                return Some(i);
            }
        }
        None
    }
}

} // verus!

verus! {

impl<T: Selectable> Cursor<T> {
    /// The repair pass: relocate every cursor that is out of bounds or on an
    /// item failing its rule, and drop selection marks that fell off the end.
    /// The primary cursor is repaired first; rules that refer to the primary
    /// position are evaluated against it as it stands at that moment.
    fn canonicalize(&mut self)
        requires
            old(self).positions().len() == old(self).rules().len(),
            old(self).marks().no_duplicates(),
        ensures
            final(self).items() == old(self).items(),
            final(self).rules() == old(self).rules(),
            final(self).limit() == old(self).limit(),
            final(self).marks() == prune_marks(old(self).marks(), old(self).items().len() as int),
            final(self).positions() == canon_positions(
                old(self).rules(),
                old(self).items(),
                old(self).positions(),
            ),
            final(self).wf(),
    {
        let n_items = self.data.len();
        proof {
            lemma_prune_marks(old(self).marks(), n_items as int);
        }
        let pruned = prune_vec(&self.selection, n_items);
        self.selection = pruned;
        let ghost orig = *self;
        let ghost target = canon_positions(orig.rules(), orig.items(), orig.positions());
        if n_items > 0 {
            let n = self.invariants.len();
            let mut i: usize = 0;
            while i < n
                invariant
                    self.items() == orig.items(),
                    self.rules() == orig.rules(),
                    self.marks() == orig.marks(),
                    self.limit() == orig.limit(),
                    n == self.rules().len(),
                    self.positions().len() == n,
                    orig.positions().len() == n,
                    0 < n_items == self.items().len() <= usize::MAX,
                    target == canon_positions(orig.rules(), orig.items(), orig.positions()),
                    i <= n,
                    forall|j: int| i <= j < n ==> self.positions()[j] == orig.positions()[j],
                    forall|j: int| 0 <= j < i ==> self.positions()[j] == target[j],
                decreases n - i,
            {
                let ghost p = self.positions()[0] as int;
                proof {
                    if i == 0 {
                        assert(p == canon_primary(orig.rules(), orig.items(), orig.positions(), 0));
                    } else {
                        assert(self.positions()[0] == target[0]);
                        lemma_canon_one_bounds(
                            orig.rules()[0],
                            orig.positions()[0] as int,
                            orig.items(),
                            orig.positions()[0] as int,
                        );
                    }
                }
                let cur = self.cursors[i];
                if cur >= n_items {
                    let v = match self.prev_valid(i, n_items) {
                        Some(j) => j,
                        None => n_items - 1,
                    };
                    proof {
                        lemma_canon_one_bounds(orig.rules()[i as int], p, orig.items(), cur as int);
                    }
                    self.cursors[i] = v;
                } else {
                    let primary = self.cursors[0];
                    let legal = check_rule(self.invariants[i], primary, cur, &self.data[cur]);
                    if !legal {
                        let v = match self.next_valid(i, 0) {
                            Some(j) => j,
                            None => match self.prev_valid(i, n_items) {
                                Some(j) => j,
                                None => 0,
                            },
                        };
                        proof {
                            lemma_canon_one_bounds(
                                orig.rules()[i as int],
                                p,
                                orig.items(),
                                cur as int,
                            );
                        }
                        self.cursors[i] = v;
                    }
                }
                proof {
                    assert(self.positions()[i as int] == target[i as int]);
                }
                i += 1;
            }
            proof {
                assert(self.positions() =~= target);
                assert forall|j: int| 0 <= j < n implies (#[trigger] self.positions()[j] as int)
                    < self.items().len() by {
                    let pj = canon_primary(orig.rules(), orig.items(), orig.positions(), j);
                    lemma_canon_one_bounds(
                        orig.rules()[j],
                        pj,
                        orig.items(),
                        orig.positions()[j] as int,
                    );
                }
            }
        } else {
            proof {
                assert(self.positions() =~= target);
            }
        }
    }

    /// A fresh container over the given items, one cursor per rule.  Cursors
    /// start at the first slot and are repaired at once.
    pub fn new(data: Vec<T>, invariants: Vec<Rule>) -> (c: Cursor<T>)
        ensures
            c.wf(),
            c.items() == data@,
            c.rules() == invariants@,
            c.limit() == 0,
            c.marks() == Seq::<usize>::empty(),
            c.positions() == canon_positions(
                invariants@,
                data@,
                Seq::new(invariants@.len(), |i: int| 0usize),
            ),
    {
        let n = invariants.len();
        let mut cursors: Vec<usize> = Vec::new();
        while cursors.len() < n
            invariant
                cursors@.len() <= n,
                forall|j: int| 0 <= j < cursors@.len() ==> cursors@[j] == 0usize,
            decreases n - cursors@.len(),
        {
            cursors.push(0);
        }
        proof {
            assert(cursors@ =~= Seq::new(invariants@.len(), |i: int| 0usize));
        }
        let mut c = Cursor {
            cursors,
            selection: Vec::new(),
            selection_limit: 0,
            invariants,
            data,
        };
        proof {
            assert(c.marks() =~= Seq::<usize>::empty());
        }
        c.canonicalize();
        c
    }
}

} // verus!

verus! {

/// The marks of `v` with every occurrence of `idx` dropped.
fn without_vec(v: &Vec<usize>, idx: usize) -> (r: Vec<usize>)
    ensures
        r@ == without_mark(v@, idx),
{
    let mut r: Vec<usize> = Vec::new();
    let mut i: usize = 0;
    while i < v.len()
        invariant
            i <= v@.len(),
            r@ == without_mark(v@.take(i as int), idx),
        decreases v@.len() - i,
    {
        proof {
            assert(v@.take(i + 1).drop_last() =~= v@.take(i as int));
            assert(v@.take(i + 1).last() == v@[i as int]);
        }
        let m = v[i];
        if m != idx {
            r.push(m);
        }
        i += 1;
    }
    proof {
        assert(v@.take(v@.len() as int) =~= v@);
    }
    r
}

impl<T: Selectable> Cursor<T> {
    /// Read-only access to the items.
    pub fn data(&self) -> (r: &Vec<T>)
        ensures
            r@ == self.items(),
    {
        &self.data
    }

    /// Cap the selection at `limit` indices; zero lifts the cap.
    pub fn set_selection_limit(&mut self, limit: usize)
        ensures
            final(self).items() == old(self).items(),
            final(self).positions() == old(self).positions(),
            final(self).marks() == old(self).marks(),
            final(self).rules() == old(self).rules(),
            final(self).limit() == limit,
    {
        self.selection_limit = limit;
    }

    /// Move cursor `c` to the nearest later index satisfying its rule; no-op
    /// at the legal boundary.  The cursor never lands on a failing index.
    pub fn next(&mut self, c: usize)
        requires
            old(self).wf(),
            c < old(self).positions().len(),
            old(self).items().len() > 0,
        ensures
            final(self).wf(),
            final(self).items() == old(self).items(),
            final(self).rules() == old(self).rules(),
            final(self).marks() == old(self).marks(),
            final(self).limit() == old(self).limit(),
            ({
                let rule = old(self).rules()[c as int];
                let primary = old(self).positions()[0] as int;
                let cur = old(self).positions()[c as int] as int;
                match first_legal_from(rule, primary, old(self).items(), cur + 1) {
                    Some(j) => final(self).positions() == old(self).positions().update(
                        c as int,
                        j as usize,
                    ) && rule_holds(rule, primary, j, old(self).items()[j]),
                    None => final(self).positions() == old(self).positions(),
                }
            }),
    {
        let n = self.data.len();
        let cur = self.cursors[c];
        proof {
            lemma_first_legal(
                self.rules()[c as int],
                self.positions()[0] as int,
                self.items(),
                cur + 1,
            );
        }
        match self.next_valid(c, cur + 1) {
            Some(idx) => {
                self.cursors[c] = idx;
            },
            None => {},
        }
    }

    /// Move cursor `c` to the nearest earlier index satisfying its rule;
    /// no-op at the legal boundary.  The cursor never lands on a failing
    /// index.
    pub fn prev(&mut self, c: usize)
        requires
            old(self).wf(),
            c < old(self).positions().len(),
            old(self).items().len() > 0,
        ensures
            final(self).wf(),
            final(self).items() == old(self).items(),
            final(self).rules() == old(self).rules(),
            final(self).marks() == old(self).marks(),
            final(self).limit() == old(self).limit(),
            ({
                let rule = old(self).rules()[c as int];
                let primary = old(self).positions()[0] as int;
                let cur = old(self).positions()[c as int] as int;
                match last_legal_before(rule, primary, old(self).items(), cur) {
                    Some(j) => final(self).positions() == old(self).positions().update(
                        c as int,
                        j as usize,
                    ) && rule_holds(rule, primary, j, old(self).items()[j]),
                    None => final(self).positions() == old(self).positions(),
                }
            }),
    {
        let cur = self.cursors[c];
        proof {
            lemma_last_legal(
                self.rules()[c as int],
                self.positions()[0] as int,
                self.items(),
                cur as int,
            );
        }
        match self.prev_valid(c, cur) {
            Some(idx) => {
                self.cursors[c] = idx;
            },
            None => {},
        }
    }

    /// The current index of cursor `c`.
    pub fn cursor(&self, c: usize) -> (r: usize)
        requires
            c < self.positions().len(),
        ensures
            r == self.positions()[c as int],
    {
        self.cursors[c]
    }

    /// The item cursor `c` points at.
    pub fn value(&self, c: usize) -> (r: &T)
        requires
            self.wf(),
            c < self.positions().len(),
            self.items().len() > 0,
        ensures
            *r == self.items()[self.positions()[c as int] as int],
    {
        &self.data[self.cursors[c]]
    }

    /// Swap the rule set; the cursor count follows the new set (new cursors
    /// start at the first slot) and the repair pass runs.
    pub fn set_invariants(&mut self, invariants: Vec<Rule>)
        requires
            old(self).wf(),
        ensures
            final(self).wf(),
            final(self).items() == old(self).items(),
            final(self).limit() == old(self).limit(),
            final(self).rules() == invariants@,
            final(self).marks() == old(self).marks(),
            final(self).positions() == canon_positions(
                invariants@,
                old(self).items(),
                Seq::new(
                    invariants@.len(),
                    |i: int|
                        if i < old(self).positions().len() {
                            old(self).positions()[i]
                        } else {
                            0usize
                        },
                ),
            ),
    {
        let n = invariants.len();
        while self.cursors.len() > n
            invariant
                self.items() == old(self).items(),
                self.rules() == old(self).rules(),
                self.marks() == old(self).marks(),
                self.limit() == old(self).limit(),
                self.positions().len() <= old(self).positions().len(),
                self.positions().len() >= n || self.positions().len() == old(
                    self,
                ).positions().len(),
                forall|j: int|
                    0 <= j < self.positions().len() ==> self.positions()[j] == old(
                        self,
                    ).positions()[j],
            decreases self.cursors@.len(),
        {
            let _ = self.cursors.pop();
        }
        while self.cursors.len() < n
            invariant
                self.items() == old(self).items(),
                self.rules() == old(self).rules(),
                self.marks() == old(self).marks(),
                self.limit() == old(self).limit(),
                self.positions().len() <= n,
                self.positions().len() >= old(self).positions().len() || self.positions().len()
                    >= n,
                forall|j: int|
                    0 <= j < self.positions().len() && j < old(self).positions().len()
                        ==> self.positions()[j] == old(self).positions()[j],
                forall|j: int|
                    old(self).positions().len() <= j < self.positions().len()
                        ==> self.positions()[j] == 0usize,
            decreases n - self.cursors@.len(),
        {
            self.cursors.push(0);
        }
        self.invariants = invariants;
        proof {
            assert(self.positions() =~= Seq::new(
                invariants@.len(),
                |i: int|
                    if i < old(self).positions().len() {
                        old(self).positions()[i]
                    } else {
                        0usize
                    },
            ));
            lemma_prune_marks_id(old(self).marks(), old(self).items().len() as int);
        }
        self.canonicalize();
    }

    /// Replace the items wholesale; the repair pass runs.
    pub fn set_data(&mut self, data: Vec<T>)
        requires
            old(self).wf(),
        ensures
            final(self).wf(),
            final(self).items() == data@,
            final(self).rules() == old(self).rules(),
            final(self).limit() == old(self).limit(),
            final(self).marks() == prune_marks(old(self).marks(), data@.len() as int),
            final(self).positions() == canon_positions(
                old(self).rules(),
                data@,
                old(self).positions(),
            ),
    {
        self.data = data;
        self.canonicalize();
    }

    /// Overwrite one item in place.  By design this runs no repair pass: a
    /// cursor may be left on an item failing its rule until the next
    /// structural change or rule swap repairs it.
    pub fn set_value(&mut self, index: usize, value: T)
        requires
            old(self).wf(),
            index < old(self).items().len(),
        ensures
            final(self).wf(),
            final(self).items() == old(self).items().update(index as int, value),
            final(self).positions() == old(self).positions(),
            final(self).marks() == old(self).marks(),
            final(self).rules() == old(self).rules(),
            final(self).limit() == old(self).limit(),
    {
        self.data[index] = value;
    }

    /// Append an item.  Existing legal positions stay legal, so no repair
    /// pass runs; on a previously empty sequence all cursors seat at the
    /// first slot.
    pub fn push(&mut self, value: T)
        requires
            old(self).wf(),
        ensures
            final(self).wf(),
            final(self).items() == old(self).items().push(value),
            final(self).rules() == old(self).rules(),
            final(self).marks() == old(self).marks(),
            final(self).limit() == old(self).limit(),
            final(self).positions() == if old(self).items().len() == 0 {
                Seq::new(old(self).positions().len(), |i: int| 0usize)
            } else {
                old(self).positions()
            },
    {
        let was_empty = self.data.len() == 0;
        self.data.push(value);
        if was_empty {
            let n = self.cursors.len();
            let mut i: usize = 0;
            while i < n
                invariant
                    i <= n,
                    n == self.positions().len(),
                    self.items() == old(self).items().push(value),
                    self.rules() == old(self).rules(),
                    self.marks() == old(self).marks(),
                    self.limit() == old(self).limit(),
                    forall|j: int| 0 <= j < i ==> self.positions()[j] == 0usize,
                decreases n - i,
            {
                self.cursors[i] = 0;
                i += 1;
            }
            proof {
                assert(self.positions() =~= Seq::new(old(self).positions().len(), |i: int| 0usize));
            }
        }
    }

    /// Remove the item at `i` and return it; the repair pass runs.
    pub fn remove(&mut self, i: usize) -> (r: T)
        requires
            old(self).wf(),
            i < old(self).items().len(),
        ensures
            final(self).wf(),
            r == old(self).items()[i as int],
            final(self).items() == old(self).items().remove(i as int),
            final(self).rules() == old(self).rules(),
            final(self).limit() == old(self).limit(),
            final(self).marks() == prune_marks(
                old(self).marks(),
                old(self).items().len() - 1,
            ),
            final(self).positions() == canon_positions(
                old(self).rules(),
                old(self).items().remove(i as int),
                old(self).positions(),
            ),
    {
        let r = self.data.remove(i);
        self.canonicalize();
        r
    }

    /// Keep only the items equal (or, with `keep_equal` false, unequal) to
    /// `key`; the repair pass runs.
    pub fn retain(&mut self, key: &T, keep_equal: bool)
        requires
            old(self).wf(),
        ensures
            final(self).wf(),
            final(self).items() == filter_eq(old(self).items(), *key, keep_equal),
            final(self).rules() == old(self).rules(),
            final(self).limit() == old(self).limit(),
            final(self).marks() == prune_marks(
                old(self).marks(),
                filter_eq(old(self).items(), *key, keep_equal).len() as int,
            ),
            final(self).positions() == canon_positions(
                old(self).rules(),
                filter_eq(old(self).items(), *key, keep_equal),
                old(self).positions(),
            ),
    {
        let mut kept: Vec<T> = Vec::new();
        let mut i: usize = 0;
        while i < self.data.len()
            invariant
                i <= self.items().len(),
                kept@ == filter_eq(self.items().take(i as int), *key, keep_equal),
            decreases self.items().len() - i,
        {
            proof {
                assert(self.items().take(i + 1).drop_last() =~= self.items().take(i as int));
                assert(self.items().take(i + 1).last() == self.items()[i as int]);
            }
            let v = self.data[i];
            if v.same(key) == keep_equal {
                kept.push(v);
            }
            i += 1;
        }
        proof {
            assert(self.items().take(self.items().len() as int) =~= self.items());
        }
        self.data = kept;
        self.canonicalize();
    }

    /// The selected indices, in insertion order.
    pub fn selection(&self) -> (r: Vec<usize>)
        ensures
            r@ == self.marks(),
    {
        let mut r: Vec<usize> = Vec::new();
        let mut i: usize = 0;
        while i < self.selection.len()
            invariant
                i <= self.marks().len(),
                r@ == self.marks().take(i as int),
            decreases self.marks().len() - i,
        {
            r.push(self.selection[i]);
            proof {
                assert(r@ =~= self.marks().take(i + 1));
            }
            i += 1;
        }
        proof {
            assert(self.marks().take(self.marks().len() as int) =~= self.marks());
        }
        r
    }

    /// Drop every selection mark.
    pub fn clear_selection(&mut self)
        ensures
            old(self).wf() ==> final(self).wf(),
            final(self).items() == old(self).items(),
            final(self).positions() == old(self).positions(),
            final(self).rules() == old(self).rules(),
            final(self).limit() == old(self).limit(),
            final(self).marks() == Seq::<usize>::empty(),
    {
        self.selection = Vec::new();
        proof {
            assert(self.marks() =~= Seq::<usize>::empty());
        }
    }

    /// Whether index `i` is selected.
    pub fn is_selected(&self, i: usize) -> (r: bool)
        ensures
            r == self.marks().contains(i),
    {
        let mut k: usize = 0;
        while k < self.selection.len()
            invariant
                k <= self.marks().len(),
                forall|j: int| 0 <= j < k ==> self.marks()[j] != i,
            decreases self.marks().len() - k,
        {
            if self.selection[k] == i {
                proof {
                    assert(self.marks().contains(i)) by {
                        assert(self.marks()[k as int] == i);
                    }
                }
                return true;
            }
            k += 1;
        }
        proof {
            if self.marks().contains(i) {
                let j = choose|j: int| 0 <= j < self.marks().len() && self.marks()[j] == i;
                assert(self.marks()[j] != i);
            }
        }
        false
    }

    /// Flip the selection of the index cursor `c` points at: removal always
    /// succeeds; insertion is refused once a nonzero cap is reached, so the
    /// selection never grows past the cap.
    pub fn toggle_select(&mut self, c: usize)
        requires
            old(self).wf(),
            c < old(self).positions().len(),
            old(self).items().len() > 0,
        ensures
            final(self).wf(),
            final(self).items() == old(self).items(),
            final(self).positions() == old(self).positions(),
            final(self).rules() == old(self).rules(),
            final(self).limit() == old(self).limit(),
            ({
                let idx = old(self).positions()[c as int];
                if old(self).marks().contains(idx) {
                    final(self).marks() == without_mark(old(self).marks(), idx)
                        && !final(self).marks().contains(idx)
                } else if old(self).limit() == 0 || old(self).marks().len() < old(self).limit() {
                    final(self).marks() == old(self).marks().push(idx)
                } else {
                    final(self).marks() == old(self).marks()
                }
            }),
            old(self).limit() > 0 && old(self).marks().len() <= old(self).limit()
                ==> final(self).marks().len() <= old(self).limit(),
    {
        let idx = self.cursors[c];
        proof {
            lemma_without_mark(self.marks(), idx);
        }
        if self.is_selected(idx) {
            let pruned = without_vec(&self.selection, idx);
            self.selection = pruned;
            proof {
                assert forall|i: int|
                    0 <= i < self.marks().len() implies (#[trigger] self.marks()[i] as int) < self
                    .items().len() by {
                    let w = self.marks()[i];
                    assert(self.marks().contains(w));
                    assert(old(self).marks().contains(w));
                    let k = choose|k: int|
                        0 <= k < old(self).marks().len() && old(self).marks()[k] == w;
                    assert((old(self).marks()[k] as int) < old(self).items().len());
                }
            }
        } else if self.selection_limit == 0 || self.selection.len() < self.selection_limit {
            self.selection.push(idx);
        }
    }
}

} // verus!

verus! {

/// A value that some index of the die's face table yields.
pub open spec fn is_rolled<T: crate::dice::Dice>(f: T) -> bool {
    exists|k: u64| k < T::spec_faces() && f == T::spec_nth(k)
}

/// Roll one die: a uniform draw mapped through the die's face table.
pub fn roll<T: crate::dice::Dice>(rng: &mut rand_pcg::Pcg64Mcg) -> (r: T)
    ensures
        is_rolled(r),
{
    let f = T::faces();
    let n = crate::rng::rng_below(rng, f);
    T::nth(n)
}

/// Roll `n` dice.
pub fn roll_n<T: crate::dice::Dice>(rng: &mut rand_pcg::Pcg64Mcg, n: u64) -> (v: Vec<T>)
    ensures
        v@.len() == n,
        forall|i: int| 0 <= i < v@.len() ==> is_rolled(#[trigger] v@[i]),
{
    let mut v: Vec<T> = Vec::new();
    let mut i: u64 = 0;
    while i < n
        invariant
            i <= n,
            v@.len() == i,
            forall|j: int| 0 <= j < v@.len() ==> is_rolled(#[trigger] v@[j]),
        decreases n - i,
    {
        let face: T = roll(rng);
        v.push(face);
        i += 1;
    }
    v
}

/// Every index whose item equals `key`, in ascending order.
pub fn indexes_of(items: &Vec<crate::dice::Monster>, key: &crate::dice::Monster) -> (r: Vec<
    usize,
>)
    ensures
        forall|i: int|
            0 <= i < r@.len() ==> (#[trigger] r@[i] as int) < items@.len() && items@[r@[i] as int]
                == *key,
        forall|k: int| 0 <= k < items@.len() && items@[k] == *key ==> r@.contains(k as usize),
        r@.no_duplicates(),
{
    let mut r: Vec<usize> = Vec::new();
    let mut i: usize = 0;
    while i < items.len()
        invariant
            i <= items@.len(),
            forall|j: int|
                0 <= j < r@.len() ==> (#[trigger] r@[j] as int) < i && items@[r@[j] as int]
                    == *key,
            forall|k: int| 0 <= k < i && items@[k] == *key ==> r@.contains(k as usize),
            r@.no_duplicates(),
        decreases items@.len() - i,
    {
        if items[i].same(key) {
            let ghost before = r@;
            r.push(i);
            proof {
                assert(r@.contains(i as usize)) by {
                    assert(r@[r@.len() - 1] == i as usize);
                }
                assert forall|k: int|
                    0 <= k < i + 1 && items@[k] == *key implies r@.contains(k as usize) by {
                    if k < i {
                        let m = choose|m: int| 0 <= m < before.len() && before[m] == k as usize;
                        assert(r@[m] == k as usize);
                    }
                }
                assert(r@.no_duplicates()) by {
                    assert forall|a: int, b: int| 0 <= a < b < r@.len() implies r@[a] != r@[b] by {
                        if b == r@.len() - 1 {
                            assert((before[a] as int) < i);
                        } else {
                            assert(before[a] == r@[a] && before[b] == r@[b]);
                        }
                    }
                }
            }
        } else {
            proof {
                assert forall|k: int|
                    0 <= k < i + 1 && items@[k] == *key implies r@.contains(k as usize) by {}
            }
        }
        i += 1;
    }
    r
}

} // verus!

verus! {

/// Which row a phase's active cursor works on.
pub open spec fn row_of(p: crate::phase::Phase) -> Option<Row> {
    match p {
        crate::phase::Phase::Monster(crate::phase::Monster::SelectMonster) => Some(Row::Dungeon),
        crate::phase::Phase::Monster(
            crate::phase::Monster::SelectReroll(crate::phase::Reroll::Monster),
        ) => Some(Row::Dungeon),
        crate::phase::Phase::Loot(crate::phase::Loot::SelectLoot) => Some(Row::Dungeon),
        crate::phase::Phase::Monster(crate::phase::Monster::SelectAlly) => Some(Row::Party),
        crate::phase::Phase::Monster(
            crate::phase::Monster::SelectReroll(crate::phase::Reroll::Ally),
        ) => Some(Row::Party),
        crate::phase::Phase::Loot(crate::phase::Loot::SelectAlly) => Some(Row::Party),
        crate::phase::Phase::Dragon(crate::phase::Dragon::SelectAlly) => Some(Row::Party),
        crate::phase::Phase::Loot(crate::phase::Loot::SelectGraveyard) => Some(Row::Graveyard),
        _ => None,
    }
}

impl crate::game::Game {
    /// The monster the dungeon's target cursor points at.
    pub fn current_monster(&self) -> (r: &crate::dice::Monster)
        requires
            self.wf(),
            self.spec_dungeon().items().len() > 0,
        ensures
            *r == self.spec_dungeon().items()[self.spec_dungeon().positions()[0] as int],
    {
        self.dungeon().value(0)
    }

    /// The ally the party's actor cursor points at.
    pub fn current_ally(&self) -> (r: &crate::dice::Ally)
        requires
            self.wf(),
            self.spec_party().items().len() > 0,
        ensures
            *r == self.spec_party().items()[self.spec_party().positions()[0] as int],
    {
        self.party().value(0)
    }

    /// Which row the current phase selects from.
    pub fn selected_row(&self) -> (r: Option<Row>)
        ensures
            r == row_of(self.spec_phase()),
    {
        match self.phase() {
            crate::phase::Phase::Monster(crate::phase::Monster::SelectMonster)
            | crate::phase::Phase::Monster(
                crate::phase::Monster::SelectReroll(crate::phase::Reroll::Monster),
            )
            | crate::phase::Phase::Loot(crate::phase::Loot::SelectLoot) => Some(Row::Dungeon),
            crate::phase::Phase::Monster(crate::phase::Monster::SelectAlly)
            | crate::phase::Phase::Monster(
                crate::phase::Monster::SelectReroll(crate::phase::Reroll::Ally),
            )
            | crate::phase::Phase::Loot(crate::phase::Loot::SelectAlly)
            | crate::phase::Phase::Dragon(crate::phase::Dragon::SelectAlly) => Some(Row::Party),
            crate::phase::Phase::Loot(crate::phase::Loot::SelectGraveyard) => Some(Row::Graveyard),
            _ => None,
        }
    }

    /// Whether hostile faces remain in the dungeon.
    pub fn has_monsters(&self) -> (r: bool)
        ensures
            r == crate::game::has_monsters_in(self.spec_dungeon().items()),
    {
        let d = self.dungeon().data();
        let mut i: usize = 0;
        while i < d.len()
            invariant
                i <= d@.len(),
                d@ == self.spec_dungeon().items(),
                forall|j: int| 0 <= j < i ==> !(#[trigger] d@[j]).spec_hostile(),
            decreases d@.len() - i,
        {
            if d[i].is_monster() {
                return true;
            }
            i += 1;
        }
        false
    }

    /// Whether loot faces remain in the dungeon.
    pub fn has_loot(&self) -> (r: bool)
        ensures
            r == crate::game::has_loot_in(self.spec_dungeon().items()),
    {
        let d = self.dungeon().data();
        let mut i: usize = 0;
        while i < d.len()
            invariant
                i <= d@.len(),
                d@ == self.spec_dungeon().items(),
                forall|j: int| 0 <= j < i ==> !(#[trigger] d@[j]).spec_loot(),
            decreases d@.len() - i,
        {
            if d[i].is_loot() {
                return true;
            }
            i += 1;
        }
        false
    }

    /// Whether a chest remains in the dungeon.
    pub fn has_chest(&self) -> (r: bool)
        ensures
            r == crate::game::has_chest_in(self.spec_dungeon().items()),
    {
        let d = self.dungeon().data();
        let mut i: usize = 0;
        while i < d.len()
            invariant
                i <= d@.len(),
                d@ == self.spec_dungeon().items(),
                forall|j: int| 0 <= j < i ==> d@[j] != crate::dice::Monster::Chest,
            decreases d@.len() - i,
        {
            if matches!(d[i], crate::dice::Monster::Chest) {
                proof {
                    assert(d@[i as int] == crate::dice::Monster::Chest);
                }
                return true;
            }
            i += 1;
        }
        false
    }

    /// How many potions the dungeon holds.
    pub fn potion_count(&self) -> (r: usize)
        ensures
            r == count_in(self.spec_dungeon().items(), crate::dice::Monster::Potion),
    {
        let d = self.dungeon().data();
        let mut i: usize = 0;
        let mut cnt: usize = 0;
        while i < d.len()
            invariant
                i <= d@.len(),
                d@ == self.spec_dungeon().items(),
                cnt == count_in(d@.take(i as int), crate::dice::Monster::Potion),
                cnt <= i,
            decreases d@.len() - i,
        {
            proof {
                assert(d@.take(i + 1).drop_last() =~= d@.take(i as int));
                assert(d@.take(i + 1).last() == d@[i as int]);
            }
            if matches!(d[i], crate::dice::Monster::Potion) {
                cnt += 1;
            }
            i += 1;
        }
        proof {
            assert(d@.take(d@.len() as int) =~= d@);
        }
        cnt
    }

    /// How many dragon faces the dungeon holds.
    pub fn dragon_dice(&self) -> (r: usize)
        ensures
            r == count_in(self.spec_dungeon().items(), crate::dice::Monster::Dragon),
    {
        let d = self.dungeon().data();
        let mut i: usize = 0;
        let mut cnt: usize = 0;
        while i < d.len()
            invariant
                i <= d@.len(),
                d@ == self.spec_dungeon().items(),
                cnt == count_in(d@.take(i as int), crate::dice::Monster::Dragon),
                cnt <= i,
            decreases d@.len() - i,
        {
            proof {
                assert(d@.take(i + 1).drop_last() =~= d@.take(i as int));
                assert(d@.take(i + 1).last() == d@[i as int]);
            }
            if matches!(d[i], crate::dice::Monster::Dragon) {
                cnt += 1;
            }
            i += 1;
        }
        proof {
            assert(d@.take(d@.len() as int) =~= d@);
        }
        cnt
    }

    /// Whether the acting ally and the targeted monster fall under the
    /// affects-all pairing rule.
    pub fn affects_all(&self) -> (r: bool)
        requires
            self.wf(),
            self.spec_party().items().len() > 0,
            self.spec_dungeon().items().len() > 0,
        ensures
            r == crate::game::affects_all_rule(
                self.spec_party().items()[self.spec_party().positions()[0] as int],
                self.spec_dungeon().items()[self.spec_dungeon().positions()[0] as int],
            ),
    {
        let a = *self.current_ally();
        let m = *self.current_monster();
        match (a, m) {
            (crate::dice::Ally::Fighter, crate::dice::Monster::Goblin) => true,
            (crate::dice::Ally::Cleric, crate::dice::Monster::Skeleton) => true,
            (crate::dice::Ally::Mage, crate::dice::Monster::Ooze) => true,
            (crate::dice::Ally::Champion, _) => true,
            (crate::dice::Ally::Thief, crate::dice::Monster::Chest) => true,
            (_, crate::dice::Monster::Potion) => true,
            _ => false,
        }
    }
}

} // verus!
