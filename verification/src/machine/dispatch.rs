//! Multimethod dispatch: patterns on a method's argument and the table of method variants.
use vstd::prelude::*;

use crate::machine::register::{str_equal, type_of, value_eq, RegisterType, RegisterValue, ValueView};

verus! {

/// What a method variant matches its argument against.
#[derive(Debug, Clone)]
pub enum DispatchPattern {
    /// A specific value, such as `0` for `fib(0)`.
    Value(RegisterValue),
    /// Any value of a type, such as `Int` for `def foo(n Int)`.
    Type(RegisterType),
    /// Any value at all.
    Any,
}

/// A dispatch pattern, with its value taken by its view.
pub enum PatternView {
    Value(ValueView),
    Type(RegisterType),
    Any,
}

impl View for DispatchPattern {
    type V = PatternView;

    open spec fn view(&self) -> PatternView {
        match self {
            DispatchPattern::Value(v) => PatternView::Value(v@),
            DispatchPattern::Type(t) => PatternView::Type(*t),
            DispatchPattern::Any => PatternView::Any,
        }
    }
}

/// The precedence of a pattern: a value pattern 3, a type pattern 2, a wildcard 1.
pub open spec fn precedence_of(p: PatternView) -> u8 {
    match p {
        PatternView::Value(_) => 3,
        PatternView::Type(_) => 2,
        PatternView::Any => 1,
    }
}

/// Whether a pattern matches an argument: a value pattern matches a value equal to it by
/// `value_eq`.
pub open spec fn pattern_matches(p: PatternView, arg: ValueView) -> bool {
    match p {
        PatternView::Value(v) => value_eq(v, arg),
        PatternView::Type(t) => type_of(arg) == t,
        PatternView::Any => true,
    }
}

impl DispatchPattern {
    /// The precedence of this pattern.
    pub fn precedence(&self) -> (r: u8)
        ensures
            r == precedence_of(self@),
    {
        match self {
            DispatchPattern::Value(_) => 3,
            DispatchPattern::Type(_) => 2,
            DispatchPattern::Any => 1,
        }
    }

    /// Whether this pattern matches an argument.
    pub fn matches(&self, arg: &RegisterValue) -> (r: bool)
        ensures
            r == pattern_matches(self@, arg@),
    {
        match self {
            DispatchPattern::Value(v) => v.same_as(arg),
            DispatchPattern::Type(t) => arg.get_type() == *t,
            DispatchPattern::Any => true,
        }
    }
}

/// An entry in the multimethod dispatch table.
#[derive(Debug, Clone)]
pub struct DispatchEntry {
    /// The pattern to match against the argument.
    pub pattern: DispatchPattern,
    /// The bytecode address to jump to if this pattern matches.
    pub address: usize,
}

/// An entry, with its pattern taken by its view.
pub open spec fn entry_view(e: DispatchEntry) -> (PatternView, usize) {
    (e.pattern@, e.address)
}

/// The views of a list of entries.
pub open spec fn entries_view(es: Seq<DispatchEntry>) -> Seq<(PatternView, usize)> {
    es.map_values(|e: DispatchEntry| entry_view(e))
}

/// Whether the entries are ordered by precedence, highest first.
pub open spec fn by_precedence(es: Seq<(PatternView, usize)>) -> bool {
    forall|i: int, j: int| 0 <= i < j < es.len() ==> precedence_of(#[trigger] es[i].0) >= precedence_of(#[trigger] es[j].0)
}

/// Where a new entry of precedence `p` goes: before the first entry of lower precedence, or
/// at the end.
pub open spec fn insertion_point(es: Seq<(PatternView, usize)>, p: u8) -> int
    decreases es.len(),
{
    if es.len() == 0 {
        0
    } else if precedence_of(es[0].0) < p {
        0
    } else {
        1 + insertion_point(es.drop_first(), p)
    }
}

/// The address of the first entry whose pattern matches the argument.
pub open spec fn first_match(es: Seq<(PatternView, usize)>, arg: ValueView) -> Option<usize>
    decreases es.len(),
{
    if es.len() == 0 {
        None
    } else if pattern_matches(es[0].0, arg) {
        Some(es[0].1)
    } else {
        first_match(es.drop_first(), arg)
    }
}

/// The variants of a method, in the order in which dispatch tries them.
pub open spec fn variants(table: Map<Seq<char>, Seq<(PatternView, usize)>>, name: Seq<char>) -> Seq<(PatternView, usize)> {
    if table.dom().contains(name) {
        table[name]
    } else {
        Seq::empty()
    }
}

/// The table after a new variant was registered for a method.
pub open spec fn with_variant(
    table: Map<Seq<char>, Seq<(PatternView, usize)>>,
    name: Seq<char>,
    e: (PatternView, usize),
) -> Map<Seq<char>, Seq<(PatternView, usize)>> {
    let es = variants(table, name);
    table.insert(name, es.insert(insertion_point(es, precedence_of(e.0)), e))
}

/// The result of dispatching a call of a method on an argument.
pub open spec fn dispatch_result(
    table: Map<Seq<char>, Seq<(PatternView, usize)>>,
    name: Seq<char>,
    arg: ValueView,
) -> Option<usize> {
    first_match(variants(table, name), arg)
}

/// Maps method names to their variants, each list ordered by precedence, highest first.
pub struct MultimethodTable {
    methods: Vec<(String, Vec<DispatchEntry>)>,
}

/// Whether two positions of the method list hold different names.
pub open spec fn names_distinct(m: Seq<(String, Vec<DispatchEntry>)>) -> bool {
    forall|i: int, j: int| 0 <= i < m.len() && 0 <= j < m.len() && i != j ==> #[trigger] m[i].0@ != #[trigger] m[j].0@
}

/// The view of a method list.
pub open spec fn table_view(m: Seq<(String, Vec<DispatchEntry>)>) -> Map<Seq<char>, Seq<(PatternView, usize)>> {
    Map::new(
        |k: Seq<char>| exists|i: int| 0 <= i < m.len() && #[trigger] m[i].0@ == k,
        |k: Seq<char>| entries_view(m[choose|i: int| 0 <= i < m.len() && #[trigger] m[i].0@ == k].1@),
    )
}

proof fn lemma_table_entry(m: Seq<(String, Vec<DispatchEntry>)>, i: int)
    requires
        names_distinct(m),
        0 <= i < m.len(),
    ensures
        table_view(m).dom().contains(m[i].0@),
        table_view(m)[m[i].0@] == entries_view(m[i].1@),
{
    let k = m[i].0@;
    assert(exists|j: int| 0 <= j < m.len() && #[trigger] m[j].0@ == k);
    let c = choose|j: int| 0 <= j < m.len() && #[trigger] m[j].0@ == k;
    assert(c == i);
}

proof fn lemma_insertion_point(es: Seq<(PatternView, usize)>, p: u8)
    ensures
        0 <= insertion_point(es, p) <= es.len(),
        forall|k: int| 0 <= k < insertion_point(es, p) ==> precedence_of(#[trigger] es[k].0) >= p,
        insertion_point(es, p) < es.len() ==> precedence_of(es[insertion_point(es, p)].0) < p,
    decreases es.len(),
{
    if es.len() > 0 && precedence_of(es[0].0) >= p {
        lemma_insertion_point(es.drop_first(), p);
        assert forall|k: int| 0 <= k < insertion_point(es, p) implies precedence_of(#[trigger] es[k].0) >= p by {
            if k > 0 {
                assert(es[k] == es.drop_first()[k - 1]);
            }
        }
    }
}

/// Inserting an entry at its insertion point keeps the entries ordered by precedence.
proof fn lemma_insert_keeps_order(es: Seq<(PatternView, usize)>, e: (PatternView, usize))
    requires
        by_precedence(es),
    ensures
        by_precedence(es.insert(insertion_point(es, precedence_of(e.0)), e)),
{
    let p = precedence_of(e.0);
    lemma_insertion_point(es, p);
    let pos = insertion_point(es, p);
    let t = es.insert(pos, e);
    assert forall|i: int, j: int| 0 <= i < j < t.len() implies precedence_of(#[trigger] t[i].0) >= precedence_of(#[trigger] t[j].0) by {
        if j < pos {
        } else if j == pos {
            assert(precedence_of(es[i].0) >= p);
        } else if i == pos {
            assert(precedence_of(es[pos].0) < p);
            assert(precedence_of(es[pos].0) >= precedence_of(es[j - 1].0));
        } else if i < pos {
            assert(precedence_of(es[i].0) >= precedence_of(es[j - 1].0));
        } else {
            assert(precedence_of(es[i - 1].0) >= precedence_of(es[j - 1].0));
        }
    }
}

/// Of the variants that match an argument, dispatch picks one of the highest precedence: the
/// first pattern in precedence order that matches wins.
pub proof fn lemma_dispatch_picks_highest(es: Seq<(PatternView, usize)>, arg: ValueView)
    requires
        by_precedence(es),
    ensures
        first_match(es, arg) is None <==> forall|k: int| 0 <= k < es.len() ==> !pattern_matches(#[trigger] es[k].0, arg),
        first_match(es, arg) is Some ==> exists|k: int|
            #![trigger es[k]]
            0 <= k < es.len() && pattern_matches(es[k].0, arg) && es[k].1 == first_match(es, arg)->0
                && forall|j: int| 0 <= j < es.len() && pattern_matches(#[trigger] es[j].0, arg) ==> precedence_of(es[j].0) <= precedence_of(es[k].0),
    decreases es.len(),
{
    if es.len() > 0 {
        let rest = es.drop_first();
        assert(by_precedence(rest)) by {
            assert forall|i: int, j: int| 0 <= i < j < rest.len() implies precedence_of(#[trigger] rest[i].0) >= precedence_of(#[trigger] rest[j].0) by {
                assert(rest[i] == es[i + 1]);
                assert(rest[j] == es[j + 1]);
            }
        }
        lemma_dispatch_picks_highest(rest, arg);
        if pattern_matches(es[0].0, arg) {
            assert(es[0].1 == first_match(es, arg)->0);
        } else {
            assert forall|k: int| 0 <= k < es.len() implies !pattern_matches(#[trigger] es[k].0, arg) <== first_match(es, arg) is None by {
                if k > 0 {
                    assert(es[k] == rest[k - 1]);
                }
            }
            if first_match(es, arg) is Some {
                let k = choose|k: int|
                    #![trigger rest[k]]
                    0 <= k < rest.len() && pattern_matches(rest[k].0, arg) && rest[k].1 == first_match(rest, arg)->0
                        && forall|j: int| 0 <= j < rest.len() && pattern_matches(#[trigger] rest[j].0, arg) ==> precedence_of(rest[j].0) <= precedence_of(rest[k].0);
                assert(es[k + 1] == rest[k]);
                assert forall|j: int| 0 <= j < es.len() && pattern_matches(#[trigger] es[j].0, arg) implies precedence_of(es[j].0) <= precedence_of(es[k + 1].0) by {
                    assert(j != 0);
                    assert(es[j] == rest[j - 1]);
                }
            } else {
                assert forall|k: int| 0 <= k < es.len() implies !pattern_matches(#[trigger] es[k].0, arg) by {
                    if k > 0 {
                        assert(es[k] == rest[k - 1]);
                    }
                }
            }
        }
    }
}

/// The table after variants were registered for a method one after the other.
pub open spec fn with_variants(
    table: Map<Seq<char>, Seq<(PatternView, usize)>>,
    name: Seq<char>,
    regs: Seq<(PatternView, usize)>,
) -> Map<Seq<char>, Seq<(PatternView, usize)>>
    decreases regs.len(),
{
    if regs.len() == 0 {
        table
    } else {
        with_variant(with_variants(table, name, regs.drop_last()), name, regs.last())
    }
}

/// The first entry whose pattern matches the argument.
pub open spec fn first_matching(es: Seq<(PatternView, usize)>, arg: ValueView) -> Option<(PatternView, usize)>
    decreases es.len(),
{
    if es.len() == 0 {
        None
    } else if pattern_matches(es[0].0, arg) {
        Some(es[0])
    } else {
        first_matching(es.drop_first(), arg)
    }
}

/// The variant that wins once `e` has been registered after the variants whose winner was `b`:
/// `e` takes over only if it matches and its precedence is higher than that of `b`.
pub open spec fn next_winner(b: Option<(PatternView, usize)>, e: (PatternView, usize), arg: ValueView) -> Option<(PatternView, usize)> {
    if pattern_matches(e.0, arg) && (b is None || precedence_of((b->0).0) < precedence_of(e.0)) {
        Some(e)
    } else {
        b
    }
}

/// Of the variants registered in this order, the one that matches the argument with the
/// highest precedence, the earliest registered among several of that precedence.
pub open spec fn earliest_of_highest(regs: Seq<(PatternView, usize)>, arg: ValueView) -> Option<(PatternView, usize)>
    decreases regs.len(),
{
    if regs.len() == 0 {
        None
    } else {
        next_winner(earliest_of_highest(regs.drop_last(), arg), regs.last(), arg)
    }
}

proof fn lemma_by_precedence_rest(es: Seq<(PatternView, usize)>)
    requires
        by_precedence(es),
        es.len() > 0,
    ensures
        by_precedence(es.drop_first()),
{
    let rest = es.drop_first();
    assert forall|i: int, j: int| 0 <= i < j < rest.len() implies precedence_of(#[trigger] rest[i].0) >= precedence_of(#[trigger] rest[j].0) by {
        assert(rest[i] == es[i + 1]);
        assert(rest[j] == es[j + 1]);
    }
}

proof fn lemma_first_matching_member(es: Seq<(PatternView, usize)>, arg: ValueView)
    ensures
        first_matching(es, arg) matches Some(x) ==> exists|k: int| 0 <= k < es.len() && #[trigger] es[k] == x,
        first_match(es, arg) == (match first_matching(es, arg) {
            Some(x) => Some(x.1),
            None => None,
        }),
    decreases es.len(),
{
    if es.len() > 0 && !pattern_matches(es[0].0, arg) {
        lemma_first_matching_member(es.drop_first(), arg);
        if first_matching(es, arg) is Some {
            let k = choose|k: int| 0 <= k < es.drop_first().len() && #[trigger] es.drop_first()[k] == first_matching(es, arg)->0;
            assert(es[k + 1] == es.drop_first()[k]);
        }
    } else if es.len() > 0 {
        assert(es[0] == first_matching(es, arg)->0);
    }
}

/// Registering an entry at its insertion point moves the winner as `next_winner` says.
proof fn lemma_register_winner(es: Seq<(PatternView, usize)>, e: (PatternView, usize), arg: ValueView)
    requires
        by_precedence(es),
    ensures
        first_matching(es.insert(insertion_point(es, precedence_of(e.0)), e), arg) == next_winner(first_matching(es, arg), e, arg),
    decreases es.len(),
{
    let p = precedence_of(e.0);
    lemma_insertion_point(es, p);
    let pos = insertion_point(es, p);
    let t = es.insert(pos, e);
    if es.len() == 0 {
        assert(t.drop_first() =~= Seq::<(PatternView, usize)>::empty());
    } else if precedence_of(es[0].0) < p {
        assert(t.drop_first() =~= es);
        lemma_first_matching_member(es, arg);
        if first_matching(es, arg) is Some {
            let k = choose|k: int| 0 <= k < es.len() && #[trigger] es[k] == first_matching(es, arg)->0;
            if k > 0 {
                assert(precedence_of(es[0].0) >= precedence_of(es[k].0));
            }
        }
    } else {
        let rest = es.drop_first();
        lemma_by_precedence_rest(es);
        lemma_register_winner(rest, e, arg);
        lemma_insertion_point(rest, p);
        assert(t.drop_first() =~= rest.insert(insertion_point(rest, p), e));
        assert(t[0] == es[0]);
    }
}

/// After a sequence of registrations the first variant in dispatch order that matches is the
/// one `earliest_of_highest` names.
proof fn lemma_registered_winner(
    table: Map<Seq<char>, Seq<(PatternView, usize)>>,
    name: Seq<char>,
    regs: Seq<(PatternView, usize)>,
    arg: ValueView,
)
    requires
        !table.dom().contains(name),
    ensures
        by_precedence(variants(with_variants(table, name, regs), name)),
        first_matching(variants(with_variants(table, name, regs), name), arg) == earliest_of_highest(regs, arg),
    decreases regs.len(),
{
    if regs.len() > 0 {
        let t = with_variants(table, name, regs.drop_last());
        lemma_registered_winner(table, name, regs.drop_last(), arg);
        let es = variants(t, name);
        lemma_insert_keeps_order(es, regs.last());
        lemma_register_winner(es, regs.last(), arg);
    } else {
        assert(variants(table, name) =~= Seq::<(PatternView, usize)>::empty());
    }
}

/// What `earliest_of_highest` picks, stated over the registrations themselves.
proof fn lemma_earliest_of_highest(regs: Seq<(PatternView, usize)>, arg: ValueView)
    ensures
        earliest_of_highest(regs, arg) is None <==> forall|i: int| 0 <= i < regs.len() ==> !pattern_matches(#[trigger] regs[i].0, arg),
        earliest_of_highest(regs, arg) matches Some(x) ==> exists|j: int|
            #![trigger regs[j]]
            0 <= j < regs.len() && regs[j] == x && pattern_matches(x.0, arg)
                && (forall|i: int| 0 <= i < regs.len() && pattern_matches(#[trigger] regs[i].0, arg) ==> precedence_of(regs[i].0) <= precedence_of(x.0))
                && (forall|i: int| 0 <= i < j && pattern_matches(#[trigger] regs[i].0, arg) ==> precedence_of(regs[i].0) < precedence_of(x.0)),
    decreases regs.len(),
{
    if regs.len() > 0 {
        let init = regs.drop_last();
        let n = init.len() as int;
        lemma_earliest_of_highest(init, arg);
        let b = earliest_of_highest(init, arg);
        let e = regs.last();
        assert(forall|i: int| 0 <= i < n ==> #[trigger] regs[i] == init[i]);
        if pattern_matches(e.0, arg) && (b is None || precedence_of((b->0).0) < precedence_of(e.0)) {
            assert(regs[n] == e);
            if b is Some {
                let j = choose|j: int|
                    #![trigger init[j]]
                    0 <= j < init.len() && init[j] == b->0 && pattern_matches((b->0).0, arg)
                        && (forall|i: int| 0 <= i < init.len() && pattern_matches(#[trigger] init[i].0, arg) ==> precedence_of(init[i].0) <= precedence_of((b->0).0))
                        && (forall|i: int| 0 <= i < j && pattern_matches(#[trigger] init[i].0, arg) ==> precedence_of(init[i].0) < precedence_of((b->0).0));
                assert forall|i: int| 0 <= i < regs.len() && pattern_matches(#[trigger] regs[i].0, arg) implies precedence_of(regs[i].0) <= precedence_of(e.0) by {
                    if i < n {
                        assert(regs[i] == init[i]);
                    }
                }
                assert forall|i: int| 0 <= i < n && pattern_matches(#[trigger] regs[i].0, arg) implies precedence_of(regs[i].0) < precedence_of(e.0) by {
                    assert(regs[i] == init[i]);
                }
            } else {
                assert forall|i: int| 0 <= i < n && pattern_matches(#[trigger] regs[i].0, arg) implies precedence_of(regs[i].0) < precedence_of(e.0) by {
                    assert(regs[i] == init[i]);
                    assert(!pattern_matches(init[i].0, arg));
                }
            }
        } else if b is Some {
            let j = choose|j: int|
                #![trigger init[j]]
                0 <= j < init.len() && init[j] == b->0 && pattern_matches((b->0).0, arg)
                    && (forall|i: int| 0 <= i < init.len() && pattern_matches(#[trigger] init[i].0, arg) ==> precedence_of(init[i].0) <= precedence_of((b->0).0))
                    && (forall|i: int| 0 <= i < j && pattern_matches(#[trigger] init[i].0, arg) ==> precedence_of(init[i].0) < precedence_of((b->0).0));
            assert(regs[j] == init[j]);
            assert forall|i: int| 0 <= i < regs.len() && pattern_matches(#[trigger] regs[i].0, arg) implies precedence_of(regs[i].0) <= precedence_of((b->0).0) by {
                if i < n {
                    assert(regs[i] == init[i]);
                } else {
                    assert(regs[i] == e);
                }
            }
            assert forall|i: int| 0 <= i < j && pattern_matches(#[trigger] regs[i].0, arg) implies precedence_of(regs[i].0) < precedence_of((b->0).0) by {
                assert(regs[i] == init[i]);
            }
        } else {
            assert forall|i: int| 0 <= i < regs.len() implies !pattern_matches(#[trigger] regs[i].0, arg) by {
                if i < n {
                    assert(regs[i] == init[i]);
                } else {
                    assert(regs[i] == e);
                }
            }
        }
    }
}

/// Dispatch on a method whose variants were registered one after the other picks, of the
/// variants that match the argument, one of the highest precedence, and of several with that
/// precedence the one registered first; where no variant matches it finds nothing.
pub proof fn lemma_dispatch_earliest_of_highest(
    table: Map<Seq<char>, Seq<(PatternView, usize)>>,
    name: Seq<char>,
    regs: Seq<(PatternView, usize)>,
    arg: ValueView,
)
    requires
        !table.dom().contains(name),
    ensures
        dispatch_result(with_variants(table, name, regs), name, arg) is None
            <==> forall|i: int| 0 <= i < regs.len() ==> !pattern_matches(#[trigger] regs[i].0, arg),
        dispatch_result(with_variants(table, name, regs), name, arg) matches Some(a) ==> exists|j: int|
            #![trigger regs[j]]
            0 <= j < regs.len() && pattern_matches(regs[j].0, arg) && regs[j].1 == a
                && (forall|i: int| 0 <= i < regs.len() && pattern_matches(#[trigger] regs[i].0, arg) ==> precedence_of(regs[i].0) <= precedence_of(regs[j].0))
                && (forall|i: int| 0 <= i < j && pattern_matches(#[trigger] regs[i].0, arg) ==> precedence_of(regs[i].0) < precedence_of(regs[j].0)),
{
    lemma_registered_winner(table, name, regs, arg);
    lemma_first_matching_member(variants(with_variants(table, name, regs), name), arg);
    lemma_earliest_of_highest(regs, arg);
}

impl MultimethodTable {
    /// No two methods share a name, and each method's variants are ordered by precedence.
    #[verifier::type_invariant]
    spec fn well_formed(&self) -> bool {
        &&& names_distinct(self.methods@)
        &&& forall|i: int| 0 <= i < self.methods@.len() ==> by_precedence(#[trigger] entries_view(self.methods@[i].1@))
    }

    /// The variants of each method, by name.
    pub closed spec fn view(&self) -> Map<Seq<char>, Seq<(PatternView, usize)>> {
        table_view(self.methods@)
    }

    /// A table without methods.
    pub fn new() -> (t: MultimethodTable)
        ensures
            t@ == Map::<Seq<char>, Seq<(PatternView, usize)>>::empty(),
    {
        let t = MultimethodTable { methods: Vec::new() };
        assert(t@ =~= Map::<Seq<char>, Seq<(PatternView, usize)>>::empty());
        t
    }

    /// The position of a method, if it has variants.
    fn find(&self, name: &str) -> (r: Option<usize>)
        ensures
            r matches Some(i) ==> i < self.methods.len() && self.methods@[i as int].0@ == name@,
            r is None ==> !self@.dom().contains(name@),
    {
        let mut i: usize = 0;
        while i < self.methods.len()
            invariant
                i <= self.methods.len(),
                forall|k: int| 0 <= k < i ==> self.methods@[k].0@ != name@,
            decreases self.methods.len() - i,
        {
            if str_equal(self.methods[i].0.as_str(), name) {
                return Some(i);
            }
            i = i + 1;
        }
        None
    }

    /// The variants of a method, in dispatch order.
    pub fn get(&self, name: &str) -> (r: Option<&Vec<DispatchEntry>>)
        ensures
            r is Some <==> self@.dom().contains(name@),
            r matches Some(es) ==> entries_view(es@) == self@[name@],
    {
        proof {
            use_type_invariant(self);
        }
        match self.find(name) {
            Some(i) => {
                proof {
                    lemma_table_entry(self.methods@, i as int);
                }
                Some(&self.methods[i].1)
            },
            None => None,
        }
    }

    /// Register a variant of a method, after the variants of higher or equal precedence.
    pub fn register(&mut self, name: String, entry: DispatchEntry)
        ensures
            final(self)@ == with_variant(old(self)@, name@, entry_view(entry)),
    {
        proof {
            use_type_invariant(&*self);
        }
        let precedence = entry.pattern.precedence();
        let ghost e = entry_view(entry);
        let found = self.find(name.as_str());
        let mut methods: Vec<(String, Vec<DispatchEntry>)> = Vec::new();
        std::mem::swap(&mut methods, &mut self.methods);
        let ghost m = methods@;
        match found {
            Some(i) => {
                let (n, mut entries) = methods.remove(i);
                let ghost es = entries_view(entries@);
                proof {
                    lemma_table_entry(m, i as int);
                    lemma_insertion_point(es, precedence);
                }
                let mut pos: usize = 0;
                while pos < entries.len()
                    invariant
                        pos <= entries.len(),
                        es == entries_view(entries@),
                        forall|k: int| 0 <= k < pos ==> precedence_of(#[trigger] es[k].0) >= precedence,
                        pos <= insertion_point(es, precedence),
                        insertion_point(es, precedence) <= es.len(),
                        forall|k: int| 0 <= k < insertion_point(es, precedence) ==> precedence_of(#[trigger] es[k].0) >= precedence,
                        insertion_point(es, precedence) < es.len() ==> precedence_of(es[insertion_point(es, precedence)].0) < precedence,
                    ensures
                        pos == insertion_point(es, precedence),
                    decreases entries.len() - pos,
                {
                    if entries[pos].pattern.precedence() < precedence {
                        assert(precedence_of(es[pos as int].0) < precedence);
                        break;
                    }
                    pos = pos + 1;
                }
                proof {
                    lemma_insertion_point(es, precedence);
                    assert(pos == insertion_point(es, precedence));
                }
                entries.insert(pos, entry);
                proof {
                    assert(entries_view(entries@) =~= es.insert(pos as int, e));
                    lemma_insert_keeps_order(es, e);
                }
                methods.insert(i, (n, entries));
                proof {
                    let t = methods@;
                    assert forall|a: int| 0 <= a < t.len() && a != i implies #[trigger] t[a] == m[a] by {}
                    assert(names_distinct(t)) by {
                        assert forall|a: int, b: int| 0 <= a < t.len() && 0 <= b < t.len() && a != b implies #[trigger] t[a].0@ != #[trigger] t[b].0@ by {
                            assert(t[a].0@ == m[a].0@);
                            assert(t[b].0@ == m[b].0@);
                        }
                    }
                    assert forall|k: Seq<char>| #[trigger] table_view(t).dom().contains(k) <==> with_variant(table_view(m), name@, e).dom().contains(k) by {
                        if k == name@ {
                            assert(t[i as int].0@ == k);
                        } else if table_view(m).dom().contains(k) {
                            let j = choose|j: int| 0 <= j < m.len() && #[trigger] m[j].0@ == k;
                            assert(t[j].0@ == k);
                        } else if table_view(t).dom().contains(k) {
                            let j = choose|j: int| 0 <= j < t.len() && #[trigger] t[j].0@ == k;
                            assert(m[j].0@ == k);
                        }
                    }
                    assert forall|k: Seq<char>| #[trigger] table_view(t).dom().contains(k) implies table_view(t)[k] == with_variant(table_view(m), name@, e)[k] by {
                        let j = choose|j: int| 0 <= j < t.len() && #[trigger] t[j].0@ == k;
                        lemma_table_entry(t, j);
                        if j != i {
                            lemma_table_entry(m, j);
                        }
                    }
                    assert(table_view(t) =~= with_variant(table_view(m), name@, e));
                }
            },
            None => {
                let mut entries: Vec<DispatchEntry> = Vec::new();
                entries.push(entry);
                proof {
                    assert(entries_view(entries@) =~= Seq::<(PatternView, usize)>::empty().insert(0, e));
                    assert(insertion_point(Seq::<(PatternView, usize)>::empty(), precedence) == 0);
                }
                methods.push((name, entries));
                proof {
                    let t = methods@;
                    let n = m.len() as int;
                    assert(names_distinct(t)) by {
                        assert forall|a: int, b: int| 0 <= a < t.len() && 0 <= b < t.len() && a != b implies #[trigger] t[a].0@ != #[trigger] t[b].0@ by {
                            if a == n {
                                assert(!(exists|j: int| 0 <= j < m.len() && #[trigger] m[j].0@ == t[a].0@));
                                assert(m[b].0@ == t[b].0@);
                            } else if b == n {
                                assert(!(exists|j: int| 0 <= j < m.len() && #[trigger] m[j].0@ == t[b].0@));
                                assert(m[a].0@ == t[a].0@);
                            }
                        }
                    }
                    assert forall|k: Seq<char>| #[trigger] table_view(t).dom().contains(k) <==> with_variant(table_view(m), name@, e).dom().contains(k) by {
                        if k == name@ {
                            assert(t[n].0@ == k);
                        } else if table_view(m).dom().contains(k) {
                            let j = choose|j: int| 0 <= j < m.len() && #[trigger] m[j].0@ == k;
                            assert(t[j].0@ == k);
                        } else if table_view(t).dom().contains(k) {
                            let j = choose|j: int| 0 <= j < t.len() && #[trigger] t[j].0@ == k;
                            assert(m[j].0@ == k);
                        }
                    }
                    assert forall|k: Seq<char>| #[trigger] table_view(t).dom().contains(k) implies table_view(t)[k] == with_variant(table_view(m), name@, e)[k] by {
                        let j = choose|j: int| 0 <= j < t.len() && #[trigger] t[j].0@ == k;
                        lemma_table_entry(t, j);
                        if j != n {
                            lemma_table_entry(m, j);
                        }
                    }
                    assert(table_view(t) =~= with_variant(table_view(m), name@, e));
                }
            },
        }
        self.methods = methods;
    }

    /// The address of the first variant of a method whose pattern matches the argument;
    /// the variants are ordered by precedence, highest first.
    pub fn dispatch(&self, name: &str, arg: &RegisterValue) -> (r: Option<usize>)
        ensures
            r == dispatch_result(self@, name@, arg@),
            by_precedence(variants(self@, name@)),
    {
        proof {
            use_type_invariant(self);
            if self@.dom().contains(name@) {
                let i = choose|i: int| 0 <= i < self.methods@.len() && #[trigger] self.methods@[i].0@ == name@;
                lemma_table_entry(self.methods@, i);
            }
        }
        match self.get(name) {
            Some(entries) => {
                let ghost es = entries_view(entries@);
                assert(es.skip(0) =~= es);
                let mut i: usize = 0;
                while i < entries.len()
                    invariant
                        i <= entries.len(),
                        es == entries_view(entries@),
                        es == variants(self@, name@),
                        by_precedence(es),
                        first_match(es, arg@) == first_match(es.skip(i as int), arg@),
                    decreases entries.len() - i,
                {
                    proof {
                        assert(es.skip(i as int).drop_first() =~= es.skip(i + 1));
                    }
                    if entries[i].pattern.matches(arg) {
                        return Some(entries[i].address);
                    }
                    i = i + 1;
                }
                None
            },
            None => None,
        }
    }
}

} // verus!
