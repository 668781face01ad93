//! The marketplace's persistent state: its configuration and the ledger of
//! open swaps, kept in ascending order of swap id.

use vstd::prelude::*;
use crate::error::ContractError;
use crate::strorder::{
    lex_lt, lemma_lex_lt_irreflexive, lemma_lex_lt_of_distinct, lemma_lex_lt_transitive,
    str_lex_lt,
};
use crate::types::{string_views, CW721Swap, SwapV};

verus! {

/// The marketplace's standing parameters: who administers it, which native
/// denomination it prices in, the fee percentage, and optionally which asset
/// collections it accepts.
#[derive(Clone, Debug)]
pub struct Config {
    pub admin: String,
    pub denom: String,
    pub fees: u64,
    pub allowed_cw721: Option<Vec<String>>,
}

/// The mathematical value of a `Config`.
pub struct ConfigV {
    pub admin: Seq<char>,
    pub denom: Seq<char>,
    pub fees: u64,
    pub allowed_cw721: Option<Seq<Seq<char>>>,
}

impl View for Config {
    type V = ConfigV;

    open spec fn view(&self) -> ConfigV {
        ConfigV {
            admin: self.admin@,
            denom: self.denom@,
            fees: self.fees,
            allowed_cw721: match &self.allowed_cw721 {
                Some(v) => Some(string_views(v@)),
                None => None,
            },
        }
    }
}

impl Config {
    /// The fee percentage never leaves the range the fail-safe clamps it to.
    pub open spec fn wf(self) -> bool {
        self.fees <= 30
    }

    /// A field-for-field copy.
    pub fn duplicate(&self) -> (r: Config)
        ensures
            r@ == self@,
    {
        let allowed: Option<Vec<String>> = match &self.allowed_cw721 {
            Some(list) => {
                let mut out: Vec<String> = Vec::new();
                let mut i: usize = 0;
                while i < list.len()
                    invariant
                        i <= list.len(),
                        out@.len() == i,
                        forall|j: int| 0 <= j < i ==> out@[j]@ == list@[j]@,
                    decreases list.len() - i,
                {
                    out.push(list[i].clone());
                    i += 1;
                }
                proof {
                    assert(string_views(out@) =~= string_views(list@));
                }
                Some(out)
            },
            None => None,
        };
        Config {
            admin: self.admin.clone(),
            denom: self.denom.clone(),
            fees: self.fees,
            allowed_cw721: allowed,
        }
    }
}

/// The views of a sequence of records.
pub open spec fn views_of(s: Seq<CW721Swap>) -> Seq<SwapV> {
    s.map_values(|x: CW721Swap| x@)
}

/// The ledger keeps its records in strictly ascending id order.
pub open spec fn sorted_by_id(s: Seq<SwapV>) -> bool {
    forall|i: int, j: int| 0 <= i < j < s.len() ==> lex_lt(s[i].id, s[j].id)
}

/// Whether some record in `s` carries the id.
pub open spec fn contains_id(s: Seq<SwapV>, id: Seq<char>) -> bool {
    exists|i: int| 0 <= i < s.len() && s[i].id == id
}

/// The first record in `s` carrying the id, if any.
pub open spec fn spec_find(s: Seq<SwapV>, id: Seq<char>) -> Option<SwapV>
    decreases s.len(),
{
    if s.len() == 0 {
        None
    } else if s[0].id == id {
        Some(s[0])
    } else {
        spec_find(s.skip(1), id)
    }
}

/// `s` with `r` stored under its id: replacing the record that carries the
/// same id, or standing at its ordered position if the id is new.
pub open spec fn spec_upsert(s: Seq<SwapV>, r: SwapV) -> Seq<SwapV>
    decreases s.len(),
{
    if s.len() == 0 {
        seq![r]
    } else if s[0].id == r.id {
        seq![r] + s.skip(1)
    } else if lex_lt(s[0].id, r.id) {
        seq![s[0]] + spec_upsert(s.skip(1), r)
    } else {
        seq![r] + s
    }
}

/// `s` without the record carrying the id, if one does.
pub open spec fn spec_remove_id(s: Seq<SwapV>, id: Seq<char>) -> Seq<SwapV>
    decreases s.len(),
{
    if s.len() == 0 {
        s
    } else if s[0].id == id {
        s.skip(1)
    } else {
        seq![s[0]] + spec_remove_id(s.skip(1), id)
    }
}

/// Finding an id and containing it are the same thing.
pub proof fn lemma_find_contains(s: Seq<SwapV>, id: Seq<char>)
    ensures
        spec_find(s, id) is Some <==> contains_id(s, id),
        spec_find(s, id) is Some ==> exists|i: int|
            0 <= i < s.len() && s[i] == spec_find(s, id).unwrap() && spec_find(s, id).unwrap().id
                == id,
    decreases s.len(),
{
    if s.len() > 0 && s[0].id != id {
        lemma_find_contains(s.skip(1), id);
        if contains_id(s, id) {
            let i = choose|i: int| 0 <= i < s.len() && s[i].id == id;
            assert(i > 0);
            assert(s.skip(1)[i - 1].id == id);
        }
        if contains_id(s.skip(1), id) {
            let i = choose|i: int| 0 <= i < s.skip(1).len() && s.skip(1)[i].id == id;
            assert(s[i + 1].id == id);
        }
        if spec_find(s.skip(1), id) is Some {
            let r = spec_find(s.skip(1), id).unwrap();
            let i = choose|i: int| 0 <= i < s.skip(1).len() && s.skip(1)[i] == r && r.id == id;
            assert(s[i + 1] == r);
        }
    }
}

/// A stored record stands in the result of storing it.
pub proof fn lemma_upsert_contains(s: Seq<SwapV>, r: SwapV)
    ensures
        contains_id(spec_upsert(s, r), r.id),
    decreases s.len(),
{
    if s.len() == 0 {
        assert(spec_upsert(s, r)[0].id == r.id);
    } else if s[0].id == r.id {
        assert(spec_upsert(s, r)[0].id == r.id);
    } else if lex_lt(s[0].id, r.id) {
        lemma_upsert_contains(s.skip(1), r);
        let t = spec_upsert(s.skip(1), r);
        let i = choose|i: int| 0 <= i < t.len() && t[i].id == r.id;
        assert(spec_upsert(s, r)[i + 1].id == r.id);
    } else {
        assert(spec_upsert(s, r)[0].id == r.id);
    }
}

/// Looking a record up after storing it finds exactly what was stored.
pub proof fn lemma_find_after_upsert(s: Seq<SwapV>, r: SwapV)
    requires
        sorted_by_id(s),
    ensures
        spec_find(spec_upsert(s, r), r.id) == Some(r),
    decreases s.len(),
{
    let t = spec_upsert(s, r);
    if s.len() == 0 {
        assert(t[0] == r);
    } else if s[0].id == r.id {
        assert(t[0] == r);
    } else if lex_lt(s[0].id, r.id) {
        lemma_lex_lt_irreflexive(s[0].id);
        assert(sorted_by_id(s.skip(1))) by {
            assert(forall|k: int| 0 <= k < s.skip(1).len() ==> s.skip(1)[k] == s[k + 1]);
        }
        lemma_find_after_upsert(s.skip(1), r);
        assert(t == seq![s[0]] + spec_upsert(s.skip(1), r));
        assert(t[0] == s[0]);
        assert(t.skip(1) =~= spec_upsert(s.skip(1), r));
    } else {
        assert(t[0] == r);
    }
}

/// Where the first `i` records order strictly below `r`'s id and the record
/// at `i` does not, storing `r` in a sorted ledger acts at position `i`:
/// replacing in place when the ids are equal, standing between its
/// neighbours when they are not.
proof fn lemma_upsert_at(s: Seq<SwapV>, r: SwapV, i: int)
    requires
        0 <= i <= s.len(),
        forall|j: int| 0 <= j < i ==> lex_lt(s[j].id, r.id),
        i < s.len() ==> !lex_lt(s[i].id, r.id),
    ensures
        i < s.len() && s[i].id == r.id ==> spec_upsert(s, r) == s.update(i, r),
        !(i < s.len() && s[i].id == r.id) ==> spec_upsert(s, r) == s.insert(i, r),
    decreases i,
{
    if i == 0 {
        if s.len() == 0 {
            assert(spec_upsert(s, r) =~= s.insert(0, r));
        } else if s[0].id == r.id {
            assert(spec_upsert(s, r) == seq![r] + s.skip(1));
            assert(seq![r] + s.skip(1) =~= s.update(0, r));
        } else {
            assert(!lex_lt(s[0].id, r.id));
            assert(spec_upsert(s, r) == seq![r] + s);
            assert(seq![r] + s =~= s.insert(0, r));
        }
    } else {
        assert(lex_lt(s[0].id, r.id));
        lemma_lex_lt_irreflexive(s[0].id);
        assert(s[0].id != r.id);
        assert(spec_upsert(s, r) == seq![s[0]] + spec_upsert(s.skip(1), r));
        assert forall|j: int| 0 <= j < i - 1 implies lex_lt(s.skip(1)[j].id, r.id) by {
            assert(s.skip(1)[j] == s[j + 1]);
        }
        assert(i - 1 < s.skip(1).len() ==> s.skip(1)[i - 1] == s[i]);
        lemma_upsert_at(s.skip(1), r, i - 1);
        if i < s.len() && s[i].id == r.id {
            assert(spec_upsert(s.skip(1), r) == s.skip(1).update(i - 1, r));
            assert(seq![s[0]] + s.skip(1).update(i - 1, r) =~= s.update(i, r));
        } else {
            assert(spec_upsert(s.skip(1), r) == s.skip(1).insert(i - 1, r));
            assert(seq![s[0]] + s.skip(1).insert(i - 1, r) =~= s.insert(i, r));
        }
    }
}

/// Where the first `i` records do not carry the id and the one at `i` does,
/// removal drops exactly position `i`; where no record carries it, removal
/// changes nothing.
proof fn lemma_remove_at(s: Seq<SwapV>, id: Seq<char>, i: int)
    requires
        0 <= i <= s.len(),
        forall|j: int| 0 <= j < i ==> s[j].id != id,
    ensures
        i < s.len() && s[i].id == id ==> spec_remove_id(s, id) == s.remove(i),
        i == s.len() ==> spec_remove_id(s, id) == s,
    decreases i,
{
    if i == 0 {
        if s.len() > 0 && s[0].id == id {
            assert(s.skip(1) =~= s.remove(0));
        }
    } else {
        assert(s[0].id != id);
        assert(spec_remove_id(s, id) == seq![s[0]] + spec_remove_id(s.skip(1), id));
        assert forall|j: int| 0 <= j < i - 1 implies s.skip(1)[j].id != id by {
            assert(s.skip(1)[j] == s[j + 1]);
        }
        lemma_remove_at(s.skip(1), id, i - 1);
        if i < s.len() && s[i].id == id {
            assert(s.skip(1)[i - 1] == s[i]);
            assert(spec_remove_id(s.skip(1), id) == s.skip(1).remove(i - 1));
            assert(seq![s[0]] + s.skip(1).remove(i - 1) =~= s.remove(i));
        } else if i == s.len() {
            assert(seq![s[0]] + s.skip(1) =~= s);
        }
    }
}

/// Filtering a one-element sequence keeps or drops that element.
pub proof fn lemma_filter_singleton<A>(x: A, p: spec_fn(A) -> bool)
    ensures
        seq![x].filter(p) == if p(x) {
            seq![x]
        } else {
            Seq::<A>::empty()
        },
{
    reveal(Seq::filter);
    let s = seq![x];
    assert(s.drop_last() =~= Seq::<A>::empty());
    assert(Seq::<A>::empty().filter(p) == Seq::<A>::empty());
    assert(s.last() == x);
    if p(x) {
        assert(Seq::<A>::empty().push(x) =~= s);
    }
}

/// Extending the scanned prefix by one element extends its filtered image
/// by that element exactly when the predicate holds of it.
pub proof fn lemma_filter_take_step<A>(s: Seq<A>, i: int, p: spec_fn(A) -> bool)
    requires
        0 <= i < s.len(),
    ensures
        s.take(i + 1).filter(p) == if p(s[i]) {
            s.take(i).filter(p).push(s[i])
        } else {
            s.take(i).filter(p)
        },
{
    assert(s.take(i + 1) =~= s.take(i) + seq![s[i]]);
    Seq::filter_distributes_over_add(s.take(i), seq![s[i]], p);
    lemma_filter_singleton(s[i], p);
    if p(s[i]) {
        assert(s.take(i).filter(p) + seq![s[i]] =~= s.take(i).filter(p).push(s[i]));
    } else {
        assert(s.take(i).filter(p) + Seq::<A>::empty() =~= s.take(i).filter(p));
    }
}

/// The whole sequence is the scanned prefix once the scan is done.
pub proof fn lemma_take_all<A>(s: Seq<A>)
    ensures
        s.take(s.len() as int) == s,
{
    assert(s.take(s.len() as int) =~= s);
}

/// Filtering keeps a sorted ledger sorted, and invents no records.
pub proof fn lemma_sorted_filter(s: Seq<SwapV>, p: spec_fn(SwapV) -> bool)
    requires
        sorted_by_id(s),
    ensures
        sorted_by_id(s.filter(p)),
        forall|x: SwapV| #[trigger] s.filter(p).contains(x) ==> s.contains(x),
    decreases s.len(),
{
    reveal(Seq::filter);
    if s.len() > 0 {
        let dl = s.drop_last();
        assert(sorted_by_id(dl)) by {
            assert(forall|i: int| 0 <= i < dl.len() ==> dl[i] == s[i]);
        }
        lemma_sorted_filter(dl, p);
        let sub = dl.filter(p);
        let out = s.filter(p);
        assert forall|x: SwapV| #[trigger] out.contains(x) implies s.contains(x) by {
            let k = choose|k: int| 0 <= k < out.len() && out[k] == x;
            if p(s.last()) && k == out.len() - 1 {
                assert(s[s.len() - 1] == x);
            } else {
                assert(sub[k] == x);
                assert(sub.contains(x));
                assert(dl.contains(x));
                let j = choose|j: int| 0 <= j < dl.len() && dl[j] == x;
                assert(s[j] == x);
            }
        }
        assert forall|a: int, b: int| 0 <= a < b < out.len() implies lex_lt(
            out[a].id,
            out[b].id,
        ) by {
            if p(s.last()) && b == out.len() - 1 {
                assert(out[a] == sub[a]);
                assert(sub.contains(sub[a]));
                assert(dl.contains(sub[a]));
                let j = choose|j: int| 0 <= j < dl.len() && dl[j] == sub[a];
                assert(s[j] == sub[a]);
                assert(lex_lt(s[j].id, s[s.len() - 1].id));
            } else {
                assert(out[a] == sub[a] && out[b] == sub[b]);
            }
        }
    }
}

/// The ids of the records, in ledger order.
pub open spec fn ids_of(s: Seq<SwapV>) -> Seq<Seq<char>> {
    s.map_values(|x: SwapV| x.id)
}

/// The ids ordering strictly after the cursor.
pub open spec fn after_pred(cursor: Seq<char>) -> spec_fn(Seq<char>) -> bool {
    |id: Seq<char>| lex_lt(cursor, id)
}

/// The ids an enumeration from the cursor walks: all of them, or only those
/// strictly after it.
pub open spec fn spec_cursor_ids(l: Seq<SwapV>, start_after: Option<Seq<char>>) -> Seq<Seq<char>> {
    match start_after {
        None => ids_of(l),
        Some(c) => ids_of(l).filter(after_pred(c)),
    }
}

/// The records not referencing the asset `(cw721, token_id)`.
pub open spec fn not_same_asset(cw721: Seq<char>, token_id: Seq<char>) -> spec_fn(SwapV) -> bool {
    |x: SwapV| !(x.nft_contract == cw721 && x.token_id == token_id)
}

/// In a sorted ledger no two records share an id.
pub proof fn lemma_sorted_ids_unique(s: Seq<SwapV>)
    requires
        sorted_by_id(s),
    ensures
        forall|i: int, j: int|
            0 <= i < s.len() && 0 <= j < s.len() && i != j ==> s[i].id != s[j].id,
{
    assert forall|i: int, j: int|
        0 <= i < s.len() && 0 <= j < s.len() && i != j implies s[i].id != s[j].id by {
        if i < j {
            lemma_lex_lt_irreflexive(s[i].id);
        } else {
            lemma_lex_lt_irreflexive(s[j].id);
        }
    }
}

/// The ledger of open swaps: a mapping from swap id to record, scanned and
/// enumerated in ascending id order.
#[derive(Debug)]
pub struct SwapLedger {
    swaps: Vec<CW721Swap>,
}

impl View for SwapLedger {
    type V = Seq<SwapV>;

    closed spec fn view(&self) -> Seq<SwapV> {
        views_of(self.swaps@)
    }
}

impl SwapLedger {
    /// The ledger's records stand in strictly ascending id order.
    pub open spec fn wf(self) -> bool {
        sorted_by_id(self@)
    }

    /// An empty ledger.
    pub fn new() -> (r: SwapLedger)
        ensures
            r@ =~= Seq::<SwapV>::empty(),
            r.wf(),
    {
        SwapLedger { swaps: Vec::new() }
    }

    /// How many records are open.
    pub fn count(&self) -> (r: usize)
        ensures
            r == self@.len(),
    {
        self.swaps.len()
    }

    /// The records themselves, in ascending id order.
    pub fn records(&self) -> (r: &Vec<CW721Swap>)
        ensures
            views_of(r@) == self@,
    {
        &self.swaps
    }

    /// The position of the first record whose id does not order strictly
    /// below `id`, scanning from the front.
    fn lower_bound(&self, id: &String) -> (i: usize)
        requires
            self.wf(),
        ensures
            i <= self@.len(),
            forall|j: int| 0 <= j < i ==> lex_lt(self@[j].id, id@),
            i < self@.len() ==> !lex_lt(self@[i as int].id, id@),
    {
        let mut i: usize = 0;
        while i < self.swaps.len() && str_lex_lt(self.swaps[i].id.as_str(), id.as_str())
            invariant
                i <= self@.len(),
                forall|j: int| 0 <= j < i ==> lex_lt(self@[j].id, id@),
            decreases self@.len() - i,
        {
            i += 1;
        }
        i
    }

    /// No record at all carries `id` when the record at the lower bound does
    /// not.
    proof fn lemma_absent(&self, id: Seq<char>, i: int)
        requires
            self.wf(),
            0 <= i <= self@.len(),
            forall|j: int| 0 <= j < i ==> lex_lt(self@[j].id, id),
            i < self@.len() ==> !lex_lt(self@[i].id, id) && self@[i].id != id,
        ensures
            !contains_id(self@, id),
    {
        let s = self@;
        assert forall|j: int| 0 <= j < s.len() implies s[j].id != id by {
            if j < i {
                lemma_lex_lt_irreflexive(id);
            } else {
                assert(i < s.len());
                lemma_lex_lt_of_distinct(s[i].id, id);
                assert(lex_lt(id, s[i].id));
                if j > i {
                    lemma_lex_lt_transitive(id, s[i].id, s[j].id);
                }
                lemma_lex_lt_irreflexive(id);
            }
        }
    }

    /// Stores a fresh record, or reports `AlreadyExists` and leaves the
    /// ledger as it was.
    pub fn insert_if_absent(&mut self, record: CW721Swap) -> (r: Result<(), ContractError>)
        requires
            old(self).wf(),
        ensures
            final(self).wf(),
            match r {
                Ok(()) => !contains_id(old(self)@, record@.id) && final(self)@ == spec_upsert(
                    old(self)@,
                    record@,
                ),
                Err(e) => e == ContractError::AlreadyExists && contains_id(old(self)@, record@.id)
                    && final(self)@ == old(self)@,
            },
    {
        let ghost s = self@;
        let ghost rv = record@;
        let i = self.lower_bound(&record.id);
        if i < self.swaps.len() && self.swaps[i].id == record.id {
            proof {
                assert(s[i as int].id == rv.id);
            }
            return Err(ContractError::AlreadyExists);
        }
        proof {
            if i < self.swaps.len() {
                assert(self.swaps@[i as int].id@ != record.id@);
            }
            self.lemma_absent(rv.id, i as int);
            lemma_upsert_at(s, rv, i as int);
        }
        self.swaps.insert(i, record);
        proof {
            assert(self@ =~= s.insert(i as int, rv));
            assert(self@ == spec_upsert(s, rv));
            self.lemma_sorted_after_insert(s, rv, i as int);
        }
        Ok(())
    }

    /// Insertion between the right neighbours keeps the ledger sorted.
    proof fn lemma_sorted_after_insert(&self, s: Seq<SwapV>, rv: SwapV, i: int)
        requires
            sorted_by_id(s),
            0 <= i <= s.len(),
            forall|j: int| 0 <= j < i ==> lex_lt(s[j].id, rv.id),
            i < s.len() ==> !lex_lt(s[i].id, rv.id) && s[i].id != rv.id,
            self@ == s.insert(i, rv),
        ensures
            self.wf(),
    {
        let t = self@;
        assert forall|p: int, q: int| 0 <= p < q < t.len() implies lex_lt(t[p].id, t[q].id) by {
            if i < s.len() {
                lemma_lex_lt_of_distinct(s[i].id, rv.id);
            }
            assert forall|k: int| i <= k < s.len() implies lex_lt(rv.id, s[k].id) by {
                assert(i < s.len());
                if k > i {
                    lemma_lex_lt_transitive(rv.id, s[i].id, s[k].id);
                }
            }
            if p < i && q < i {
            } else if p == i || q == i {
                if q == i {
                    assert(t[p] == s[p]);
                } else {
                    assert(t[q] == s[q - 1]);
                }
            } else {
            }
        }
    }

    /// The record stored under `id`, or `NotFound`.
    pub fn load(&self, id: &String) -> (r: Result<CW721Swap, ContractError>)
        requires
            self.wf(),
        ensures
            match r {
                Ok(rec) => spec_find(self@, id@) == Some(rec@),
                Err(e) => e == ContractError::NotFound && spec_find(self@, id@) is None,
            },
    {
        let i = self.lower_bound(id);
        if i < self.swaps.len() && self.swaps[i].id == *id {
            proof {
                lemma_find_contains(self@, id@);
                lemma_sorted_ids_unique(self@);
                let r0 = spec_find(self@, id@);
                assert(self@[i as int].id == id@);
                assert(contains_id(self@, id@));
                let k = choose|k: int|
                    0 <= k < self@.len() && self@[k] == r0.unwrap() && r0.unwrap().id == id@;
                assert(self@[k] == r0.unwrap());
                assert(k == i as int);
            }
            Ok(self.swaps[i].duplicate())
        } else {
            proof {
                if i < self.swaps.len() {
                    assert(self.swaps@[i as int].id@ != id@);
                }
                self.lemma_absent(id@, i as int);
                lemma_find_contains(self@, id@);
            }
            Err(ContractError::NotFound)
        }
    }

    /// Stores `record` under its id in one step: the ledger afterwards holds
    /// it, whether or not a record with that id stood there before.
    pub fn replace(&mut self, record: CW721Swap)
        requires
            old(self).wf(),
        ensures
            final(self).wf(),
            final(self)@ == spec_upsert(old(self)@, record@),
    {
        let ghost s = self@;
        let ghost rv = record@;
        let i = self.lower_bound(&record.id);
        proof {
            lemma_upsert_at(s, rv, i as int);
        }
        if i < self.swaps.len() && self.swaps[i].id == record.id {
            proof {
                assert(s[i as int].id == rv.id);
            }
            let _ = self.swaps.remove(i);
            self.swaps.insert(i, record);
            proof {
                assert(self@ =~= s.update(i as int, rv));
                assert(self@ == spec_upsert(s, rv));
                let t = self@;
                assert forall|p: int, q: int| 0 <= p < q < t.len() implies lex_lt(
                    t[p].id,
                    t[q].id,
                ) by {
                    if p == i {
                        assert(!lex_lt(s[i as int].id, rv.id));
                        assert(lex_lt(s[p].id, s[q].id));
                    } else if q == i {
                        assert(lex_lt(s[p].id, s[q].id));
                    }
                }
            }
        } else {
            proof {
                if i < self.swaps.len() {
                    assert(self.swaps@[i as int].id@ != record.id@);
                }
            }
            self.swaps.insert(i, record);
            proof {
                assert(self@ =~= s.insert(i as int, rv));
                assert(self@ == spec_upsert(s, rv));
                self.lemma_sorted_after_insert(s, rv, i as int);
            }
        }
    }

    /// Up to `limit` swap ids in ascending order, beginning strictly after
    /// the `start_after` cursor when one is given.
    pub fn all_swap_ids(&self, start_after: Option<&String>, limit: usize) -> (r: Vec<String>)
        requires
            self.wf(),
        ensures
            string_views(r@) == ({
                let cf = spec_cursor_ids(self@, match start_after {
                    Some(c) => Some(c@),
                    None => None::<Seq<char>>,
                });
                cf.take(
                    if limit as int <= cf.len() {
                        limit as int
                    } else {
                        cf.len() as int
                    },
                )
            }),
    {
        let ghost sav: Option<Seq<char>> = match start_after {
            Some(c) => Some(c@),
            None => None,
        };
        let ghost cf = spec_cursor_ids(self@, sav);
        let ghost ids = ids_of(self@);
        let mut out: Vec<String> = Vec::new();
        let mut i: usize = 0;
        proof {
            reveal(Seq::filter);
            assert(ids.take(0) =~= Seq::<Seq<char>>::empty());
            assert(spec_cursor_ids(self@.take(0), sav) =~= Seq::<Seq<char>>::empty());
            assert(ids_of(self@.take(0)) =~= ids.take(0));
        }
        while i < self.swaps.len() && out.len() < limit
            invariant
                i <= self@.len(),
                out@.len() <= limit,
                sav == (match start_after {
                    Some(c) => Some(c@),
                    None => None::<Seq<char>>,
                }),
                cf == spec_cursor_ids(self@, sav),
                ids == ids_of(self@),
                string_views(out@) == spec_cursor_ids(self@.take(i as int), sav),
            decreases self@.len() - i,
        {
            let past_cursor: bool = match start_after {
                Some(c) => str_lex_lt(c.as_str(), self.swaps[i].id.as_str()),
                None => true,
            };
            proof {
                assert(ids[i as int] == self@[i as int].id);
                assert(ids_of(self@.take(i as int)) =~= ids.take(i as int));
                assert(ids_of(self@.take(i as int + 1)) =~= ids.take(i as int + 1));
                if sav is Some {
                    let c = sav.unwrap();
                    lemma_filter_take_step(ids, i as int, after_pred(c));
                    assert(after_pred(c)(ids[i as int]) == lex_lt(c, ids[i as int]));
                } else {
                    assert(ids.take(i as int + 1) =~= ids.take(i as int).push(ids[i as int]));
                }
            }
            if past_cursor {
                out.push(self.swaps[i].id.clone());
                proof {
                    assert(string_views(out@) =~= spec_cursor_ids(self@.take(i as int), sav).push(
                        ids[i as int],
                    ));
                }
            }
            i += 1;
        }
        proof {
            assert(ids_of(self@.take(i as int)) =~= ids.take(i as int));
            if i == self@.len() {
                assert(self@.take(i as int) =~= self@);
                assert(string_views(out@) == cf);
                assert(out@.len() <= limit);
                assert(cf.take(
                    if limit as int <= cf.len() {
                        limit as int
                    } else {
                        cf.len() as int
                    },
                ) =~= cf);
            } else {
                assert(out@.len() == limit);
                let pre = spec_cursor_ids(self@.take(i as int), sav);
                assert(pre.len() == limit);
                assert(ids =~= ids.take(i as int) + ids.skip(i as int));
                match sav {
                    Some(c) => {
                        Seq::filter_distributes_over_add(
                            ids.take(i as int),
                            ids.skip(i as int),
                            after_pred(c),
                        );
                        assert(cf == pre + ids.skip(i as int).filter(after_pred(c)));
                    },
                    None => {
                        assert(cf == ids);
                        assert(cf =~= pre + ids.skip(i as int));
                    },
                }
                assert(cf.take(limit as int) =~= pre);
                assert(limit as int <= cf.len());
            }
        }
        out
    }

    /// Drops every record referencing the asset `(cw721, token_id)`; the
    /// asset's owner is about to change, so those records are meaningless.
    pub fn delete_matching_asset(&mut self, cw721: &String, token_id: &String)
        requires
            old(self).wf(),
        ensures
            final(self).wf(),
            final(self)@ == old(self)@.filter(not_same_asset(cw721@, token_id@)),
    {
        let ghost s = self@;
        let ghost p = not_same_asset(cw721@, token_id@);
        let mut out: Vec<CW721Swap> = Vec::new();
        let mut i: usize = 0;
        proof {
            reveal(Seq::filter);
            assert(s.take(0) =~= Seq::<SwapV>::empty());
        }
        while i < self.swaps.len()
            invariant
                i <= self@.len(),
                self@ == s,
                p == not_same_asset(cw721@, token_id@),
                views_of(out@) == s.take(i as int).filter(p),
            decreases self@.len() - i,
        {
            let keep = !(self.swaps[i].nft_contract == *cw721 && self.swaps[i].token_id
                == *token_id);
            proof {
                lemma_filter_take_step(s, i as int, p);
                assert(s[i as int] == self.swaps@[i as int]@);
                assert(not_same_asset(cw721@, token_id@)(s[i as int]) == !(s[i as int].nft_contract
                    == cw721@ && s[i as int].token_id == token_id@));
                assert(keep == p(s[i as int]));
            }
            if keep {
                out.push(self.swaps[i].duplicate());
                proof {
                    assert(views_of(out@) =~= s.take(i as int).filter(p).push(s[i as int]));
                }
            }
            i += 1;
        }
        proof {
            lemma_take_all(s);
            lemma_sorted_filter(s, p);
        }
        self.swaps = out;
    }

    /// Drops the record stored under `id`, if any.
    pub fn delete(&mut self, id: &String)
        requires
            old(self).wf(),
        ensures
            final(self).wf(),
            final(self)@ == spec_remove_id(old(self)@, id@),
    {
        let ghost s = self@;
        let mut i: usize = 0;
        while i < self.swaps.len() && !(self.swaps[i].id == *id)
            invariant
                i <= self@.len(),
                self@ == s,
                forall|j: int| 0 <= j < i ==> self@[j].id != id@,
            decreases self@.len() - i,
        {
            i += 1;
        }
        proof {
            lemma_remove_at(s, id@, i as int);
        }
        if i < self.swaps.len() {
            proof {
                assert(s[i as int].id == id@);
            }
            let _ = self.swaps.remove(i);
            proof {
                assert(self@ =~= s.remove(i as int));
                assert(self@ == spec_remove_id(s, id@));
                let t = self@;
                assert forall|p: int, q: int| 0 <= p < q < t.len() implies lex_lt(
                    t[p].id,
                    t[q].id,
                ) by {
                    if p >= i {
                        assert(t[p] == s[p + 1]);
                    }
                    if q >= i {
                        assert(t[q] == s[q + 1]);
                    }
                }
            }
        }
    }
}

} // verus!
