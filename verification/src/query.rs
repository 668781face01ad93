//! The query engine: every filtered query scans the ledger in ascending id
//! order, keeps the records matching its predicate, and returns one page of
//! them together with the total match count.

use vstd::prelude::*;
use crate::error::ContractError;
use crate::pagination::{calculate_page_params, spec_page_params, PageParams, DEFAULT_LIMIT,
    MAX_LIMIT};
use crate::state::{
    lemma_filter_take_step, lemma_take_all, spec_cursor_ids, spec_find, views_of, Config,
    SwapLedger,
};
use crate::types::{string_views, CW721Swap, Expiration, SwapType, SwapV};

verus! {

/// One page of matching swaps, with the index of the page and the total
/// number of matches across all pages.
#[derive(Debug)]
pub struct PageResult {
    pub swaps: Vec<CW721Swap>,
    pub page: u32,
    pub total: u128,
}

/// The ids of all open swaps, one page of them.
#[derive(Clone, Debug)]
pub struct ListResponse {
    pub swaps: Vec<String>,
}

/// Everything a single swap record holds, keyed by its id.
#[derive(Clone, Debug)]
pub struct DetailsResponse {
    pub creator: String,
    pub contract: String,
    pub payment_token: Option<String>,
    pub token_id: String,
    pub expires: Expiration,
    pub price: u128,
    pub swap_type: SwapType,
}

/// Which payment shapes a query asks for.
#[derive(Clone, Debug)]
pub enum PaymentFilter {
    /// Any payment shape.
    Any,
    /// Priced in the native currency.
    Native,
    /// Priced in any fungible token.
    Fungible,
    /// Priced in this fungible token.
    Token(String),
}

/// The mathematical value of a `PaymentFilter`.
pub enum PaymentFilterV {
    Any,
    Native,
    Fungible,
    Token(Seq<char>),
}

impl View for PaymentFilter {
    type V = PaymentFilterV;

    open spec fn view(&self) -> PaymentFilterV {
        match self {
            PaymentFilter::Any => PaymentFilterV::Any,
            PaymentFilter::Native => PaymentFilterV::Native,
            PaymentFilter::Fungible => PaymentFilterV::Fungible,
            PaymentFilter::Token(t) => PaymentFilterV::Token(t@),
        }
    }
}

/// One conjunction of the six filter dimensions a query can constrain.
#[derive(Clone, Debug)]
pub struct SwapFilter {
    pub side: Option<SwapType>,
    pub creator: Option<String>,
    pub cw721: Option<String>,
    pub token_id: Option<String>,
    pub min_price: Option<u128>,
    pub max_price: Option<u128>,
    pub payment: PaymentFilter,
}

/// The mathematical value of a `SwapFilter`.
pub struct SwapFilterV {
    pub side: Option<SwapType>,
    pub creator: Option<Seq<char>>,
    pub cw721: Option<Seq<char>>,
    pub token_id: Option<Seq<char>>,
    pub min_price: Option<u128>,
    pub max_price: Option<u128>,
    pub payment: PaymentFilterV,
}

impl View for SwapFilter {
    type V = SwapFilterV;

    open spec fn view(&self) -> SwapFilterV {
        SwapFilterV {
            side: self.side,
            creator: match &self.creator {
                Some(c) => Some(c@),
                None => None,
            },
            cw721: match &self.cw721 {
                Some(c) => Some(c@),
                None => None,
            },
            token_id: match &self.token_id {
                Some(t) => Some(t@),
                None => None,
            },
            min_price: self.min_price,
            max_price: self.max_price,
            payment: self.payment@,
        }
    }
}

/// Whether a record satisfies every constrained dimension of the filter.
pub open spec fn spec_matches(f: SwapFilterV, s: SwapV) -> bool {
    &&& match f.side {
        None => true,
        Some(t) => s.swap_type == t,
    }
    &&& match f.creator {
        None => true,
        Some(c) => s.creator == c,
    }
    &&& match f.cw721 {
        None => true,
        Some(c) => s.nft_contract == c,
    }
    &&& match f.token_id {
        None => true,
        Some(t) => s.token_id == t,
    }
    &&& match f.min_price {
        None => true,
        Some(m) => s.price >= m,
    }
    &&& match f.max_price {
        None => true,
        Some(m) => s.price <= m,
    }
    &&& match f.payment {
        PaymentFilterV::Any => true,
        PaymentFilterV::Native => s.payment_token is None,
        PaymentFilterV::Fungible => s.payment_token is Some,
        PaymentFilterV::Token(t) => s.payment_token == Some(t),
    }
}

/// The filter as a predicate over records.
pub open spec fn matches_pred(f: SwapFilterV) -> spec_fn(SwapV) -> bool {
    |s: SwapV| spec_matches(f, s)
}

/// Whether a record satisfies every constrained dimension of the filter.
fn matches(f: &SwapFilter, s: &CW721Swap) -> (r: bool)
    ensures
        r == spec_matches(f@, s@),
{
    let side_ok = match &f.side {
        None => true,
        Some(t) => s.swap_type == *t,
    };
    let creator_ok = match &f.creator {
        None => true,
        Some(c) => s.creator == *c,
    };
    let cw721_ok = match &f.cw721 {
        None => true,
        Some(c) => s.nft_contract == *c,
    };
    let token_ok = match &f.token_id {
        None => true,
        Some(t) => s.token_id == *t,
    };
    let min_ok = match &f.min_price {
        None => true,
        Some(m) => s.price >= *m,
    };
    let max_ok = match &f.max_price {
        None => true,
        Some(m) => s.price <= *m,
    };
    let payment_ok = match &f.payment {
        PaymentFilter::Any => true,
        PaymentFilter::Native => s.payment_token.is_none(),
        PaymentFilter::Fungible => s.payment_token.is_some(),
        PaymentFilter::Token(t) => match &s.payment_token {
            None => false,
            Some(p) => *p == *t,
        },
    };
    side_ok && creator_ok && cw721_ok && token_ok && min_ok && max_ok && payment_ok
}

/// The records of `v` that the filter keeps, in their ledger order.
fn filtered_records(records: &Vec<CW721Swap>, f: &SwapFilter) -> (out: Vec<CW721Swap>)
    ensures
        views_of(out@) == views_of(records@).filter(matches_pred(f@)),
{
    let ghost s = views_of(records@);
    let ghost p = matches_pred(f@);
    let mut out: Vec<CW721Swap> = Vec::new();
    let mut i: usize = 0;
    proof {
        reveal(Seq::filter);
        assert(s.take(0) =~= Seq::<SwapV>::empty());
    }
    while i < records.len()
        invariant
            i <= records.len(),
            s == views_of(records@),
            p == matches_pred(f@),
            views_of(out@) == s.take(i as int).filter(p),
        decreases records.len() - i,
    {
        let keep = matches(f, &records[i]);
        proof {
            lemma_filter_take_step(s, i as int, p);
            assert(s[i as int] == records@[i as int]@);
            assert(p(s[i as int]) == spec_matches(f@, records@[i as int]@));
        }
        if keep {
            out.push(records[i].duplicate());
            proof {
                assert(views_of(out@) =~= s.take(i as int).filter(p).push(s[i as int]));
            }
        }
        i += 1;
    }
    proof {
        lemma_take_all(s);
    }
    out
}

/// An index clamped to the length of the sliced sequence.
pub open spec fn spec_clamp_index(x: int, len: int) -> int {
    if x <= len {
        x
    } else {
        len
    }
}

/// What a paged, filtered query returns: the page and total of the resolved
/// page request, and the slice of the filtered records that the resolved
/// offsets select, cut off at the end of the results. A page index past the
/// last page selects an empty slice.
pub open spec fn spec_query_result(
    r: PageResult,
    l: Seq<SwapV>,
    f: SwapFilterV,
    page: Option<u32>,
    limit: Option<u32>,
) -> bool {
    let filtered = l.filter(matches_pred(f));
    let pp = spec_page_params(page, limit, filtered.len() as u32);
    &&& r.page == pp.page
    &&& r.total == pp.total
    &&& views_of(r.swaps@) == filtered.subrange(
        spec_clamp_index(pp.start as int, filtered.len() as int),
        spec_clamp_index(pp.end as int, filtered.len() as int),
    )
}

/// Cuts one page out of the filtered results.
fn page_slice(results: Vec<CW721Swap>, page: Option<u32>, limit: Option<u32>) -> (r: PageResult)
    requires
        results@.len() <= u32::MAX,
    ensures
        r.page == spec_page_params(page, limit, results@.len() as u32).page,
        r.total == spec_page_params(page, limit, results@.len() as u32).total,
        views_of(r.swaps@) == views_of(results@).subrange(
            spec_clamp_index(
                spec_page_params(page, limit, results@.len() as u32).start as int,
                results@.len() as int,
            ),
            spec_clamp_index(
                spec_page_params(page, limit, results@.len() as u32).end as int,
                results@.len() as int,
            ),
        ),
{
    let total: u32 = results.len() as u32;
    let pp: PageParams = match calculate_page_params(page, limit, total) {
        Ok(p) => p,
        Err(_) => PageParams { start: 0, end: 0, page: 0, total: 0 },
    };
    let len: u64 = results.len() as u64;
    let start: usize = if pp.start <= len {
        pp.start as usize
    } else {
        results.len()
    };
    let end: usize = if pp.end <= len {
        pp.end as usize
    } else {
        results.len()
    };
    let mut swaps: Vec<CW721Swap> = Vec::new();
    let mut i: usize = start;
    proof {
        crate::pagination::lemma_page_params_bounds(page, limit, results@.len() as u32);
        assert(pp.end >= pp.start);
        assert(views_of(swaps@) =~= views_of(results@).subrange(start as int, start as int));
    }
    while i < end
        invariant
            start <= i,
            i <= end,
            end <= results@.len(),
            start as int == spec_clamp_index(
                spec_page_params(page, limit, results@.len() as u32).start as int,
                results@.len() as int,
            ),
            end as int == spec_clamp_index(
                spec_page_params(page, limit, results@.len() as u32).end as int,
                results@.len() as int,
            ),
            views_of(swaps@) == views_of(results@).subrange(start as int, i as int),
        decreases end - i,
    {
        let ghost prev = views_of(swaps@);
        swaps.push(results[i].duplicate());
        proof {
            let rv = views_of(results@);
            assert(views_of(swaps@) =~= prev.push(rv[i as int]));
            assert(prev.push(rv[i as int]) =~= rv.subrange(start as int, i as int + 1));
        }
        i += 1;
    }
    PageResult { swaps, page: pp.page, total: pp.total }
}

/// The ids a cursor enumeration returns: those strictly after the cursor,
/// in ascending order, cut off at the requested limit clamped to
/// `[1, MAX_LIMIT]`.
pub open spec fn spec_list_ids(
    l: Seq<SwapV>,
    start_after: Option<Seq<char>>,
    limit_req: u32,
) -> Seq<Seq<char>> {
    let lim: int = if limit_req < 1 {
        1
    } else if limit_req > MAX_LIMIT {
        MAX_LIMIT as int
    } else {
        limit_req as int
    };
    let cf = spec_cursor_ids(l, start_after);
    cf.take(
        if lim <= cf.len() {
            lim
        } else {
            cf.len() as int
        },
    )
}

/// The details of the swap stored under `id`, or `NotFound`.
pub fn query_details(ledger: &SwapLedger, id: String) -> (r: Result<DetailsResponse, ContractError>)
    requires
        ledger.wf(),
    ensures
        (match spec_find(ledger@, id@) {
            Some(s) => r is Ok && r.unwrap().creator@ == s.creator && r.unwrap().contract@
                == s.nft_contract && (match r.unwrap().payment_token {
                Some(t) => s.payment_token == Some(t@),
                None => s.payment_token is None,
            }) && r.unwrap().token_id@ == s.token_id && r.unwrap().expires == s.expires
                && r.unwrap().price == s.price && r.unwrap().swap_type == s.swap_type,
            None => r == Err::<DetailsResponse, ContractError>(ContractError::NotFound),
        }),
{
    let swap = match ledger.load(&id) {
        Ok(s) => s,
        Err(e) => { return Err(e) },
    };
    Ok(
        DetailsResponse {
            creator: swap.creator,
            contract: swap.nft_contract,
            payment_token: swap.payment_token,
            token_id: swap.token_id,
            expires: swap.expires,
            price: swap.price,
            swap_type: swap.swap_type,
        },
    )
}

/// One page of swap ids, ascending, beginning strictly after the
/// `start_after` cursor; the limit is clamped to `[1, MAX_LIMIT]`.
pub fn query_list(ledger: &SwapLedger, start_after: Option<String>, limit: Option<u32>) -> (r:
    ListResponse)
    requires
        ledger.wf(),
    ensures
        string_views(r.swaps@) == spec_list_ids(ledger@, match start_after {
            Some(c) => Some(c@),
            None => None::<Seq<char>>,
        }, match limit {
            Some(l) => l,
            None => DEFAULT_LIMIT,
        }),
{
    let limit_req: u32 = if limit.is_some() {
        limit.unwrap()
    } else {
        DEFAULT_LIMIT
    };
    let limit_eff: u32 = if limit_req < 1 {
        1
    } else if limit_req > MAX_LIMIT {
        MAX_LIMIT
    } else {
        limit_req
    };
    let cursor: Option<&String> = start_after.as_ref();
    ListResponse { swaps: ledger.all_swap_ids(cursor, limit_eff as usize) }
}

/// How many open swaps match the side, or all of them with no side given.
pub fn query_swap_total(ledger: &SwapLedger, side: Option<SwapType>) -> (r: u128)
    ensures
        r == ledger@.filter(
            matches_pred(
                SwapFilterV {
                    side: side,
                    creator: None,
                    cw721: None,
                    token_id: None,
                    min_price: None,
                    max_price: None,
                    payment: PaymentFilterV::Any,
                },
            ),
        ).len(),
{
    let f = SwapFilter {
        side,
        creator: None,
        cw721: None,
        token_id: None,
        min_price: None,
        max_price: None,
        payment: PaymentFilter::Any,
    };
    let results = filtered_records(ledger.records(), &f);
    results.len() as u128
}

/// One page of the swaps on the given side.
pub fn query_swaps(ledger: &SwapLedger, side: SwapType, page: Option<u32>, limit: Option<u32>) -> (r:
    PageResult)
    requires
        ledger@.len() <= u32::MAX,
    ensures
        spec_query_result(
            r,
            ledger@,
            (SwapFilterV {
                side: Some(side),
                creator: None,
                cw721: None,
                token_id: None,
                min_price: None,
                max_price: None,
                payment: PaymentFilterV::Any,
            }),
            page,
            limit,
        ),
{
    let f = SwapFilter {
        side: Some(side),
        creator: None,
        cw721: None,
        token_id: None,
        min_price: None,
        max_price: None,
        payment: PaymentFilter::Any,
    };
    let results = filtered_records(ledger.records(), &f);
    proof {
        Seq::lemma_filter_len(ledger@, matches_pred(f@));
    }
    page_slice(results, page, limit)
}

/// One page of the swaps over one asset, on one side or both.
pub fn query_swaps_of_token(
    ledger: &SwapLedger,
    token_id: String,
    cw721: String,
    side: Option<SwapType>,
    page: Option<u32>,
    limit: Option<u32>,
) -> (r: PageResult)
    requires
        ledger@.len() <= u32::MAX,
    ensures
        spec_query_result(
            r,
            ledger@,
            (SwapFilterV {
                side: side,
                creator: None,
                cw721: Some(cw721@),
                token_id: Some(token_id@),
                min_price: None,
                max_price: None,
                payment: PaymentFilterV::Any,
            }),
            page,
            limit,
        ),
{
    let f = SwapFilter {
        side,
        creator: None,
        cw721: Some(cw721),
        token_id: Some(token_id),
        min_price: None,
        max_price: None,
        payment: PaymentFilter::Any,
    };
    let results = filtered_records(ledger.records(), &f);
    proof {
        Seq::lemma_filter_len(ledger@, matches_pred(f@));
    }
    page_slice(results, page, limit)
}

/// One page of the swaps a given account created, on one side (sales when
/// none is named), optionally within one collection.
pub fn query_swaps_by_creator(
    ledger: &SwapLedger,
    address: String,
    swap_type: Option<SwapType>,
    cw721: Option<String>,
    page: Option<u32>,
    limit: Option<u32>,
) -> (r: PageResult)
    requires
        ledger@.len() <= u32::MAX,
    ensures
        spec_query_result(
            r,
            ledger@,
            (SwapFilterV {
                side: Some(
                    match swap_type {
                        Some(t) => t,
                        None => SwapType::Sale,
                    },
                ),
                creator: Some(address@),
                cw721: match cw721 {
                    Some(c) => Some(c@),
                    None => None::<Seq<char>>,
                },
                token_id: None,
                min_price: None,
                max_price: None,
                payment: PaymentFilterV::Any,
            }),
            page,
            limit,
        ),
{
    let side: SwapType = if swap_type.is_some() {
        swap_type.unwrap()
    } else {
        SwapType::Sale
    };
    let f = SwapFilter {
        side: Some(side),
        creator: Some(address),
        cw721,
        token_id: None,
        min_price: None,
        max_price: None,
        payment: PaymentFilter::Any,
    };
    let results = filtered_records(ledger.records(), &f);
    proof {
        Seq::lemma_filter_len(ledger@, matches_pred(f@));
    }
    page_slice(results, page, limit)
}

/// One page of the swaps within a price range, on one side (sales when none
/// is named), optionally within one collection. An absent minimum is 0.
pub fn query_swaps_by_price(
    ledger: &SwapLedger,
    min: Option<u128>,
    max: Option<u128>,
    swap_type: Option<SwapType>,
    cw721: Option<String>,
    page: Option<u32>,
    limit: Option<u32>,
) -> (r: PageResult)
    requires
        ledger@.len() <= u32::MAX,
    ensures
        spec_query_result(
            r,
            ledger@,
            (SwapFilterV {
                side: Some(
                    match swap_type {
                        Some(t) => t,
                        None => SwapType::Sale,
                    },
                ),
                creator: None,
                cw721: match cw721 {
                    Some(c) => Some(c@),
                    None => None::<Seq<char>>,
                },
                token_id: None,
                min_price: Some(
                    match min {
                        Some(m) => m,
                        None => 0u128,
                    },
                ),
                max_price: max,
                payment: PaymentFilterV::Any,
            }),
            page,
            limit,
        ),
{
    let min_eff: u128 = if min.is_some() {
        min.unwrap()
    } else {
        0
    };
    let side: SwapType = if swap_type.is_some() {
        swap_type.unwrap()
    } else {
        SwapType::Sale
    };
    let f = SwapFilter {
        side: Some(side),
        creator: None,
        cw721,
        token_id: None,
        min_price: Some(min_eff),
        max_price: max,
        payment: PaymentFilter::Any,
    };
    let results = filtered_records(ledger.records(), &f);
    proof {
        Seq::lemma_filter_len(ledger@, matches_pred(f@));
    }
    page_slice(results, page, limit)
}

/// One page of the swaps priced in a given denomination: in a named
/// fungible token, or in the native currency when none is named; on one
/// side (sales when none is named), optionally within one collection.
pub fn query_swaps_by_denom(
    ledger: &SwapLedger,
    payment_token: Option<String>,
    swap_type: Option<SwapType>,
    cw721: Option<String>,
    page: Option<u32>,
    limit: Option<u32>,
) -> (r: PageResult)
    requires
        ledger@.len() <= u32::MAX,
    ensures
        spec_query_result(
            r,
            ledger@,
            (SwapFilterV {
                side: Some(
                    match swap_type {
                        Some(t) => t,
                        None => SwapType::Sale,
                    },
                ),
                creator: None,
                cw721: match cw721 {
                    Some(c) => Some(c@),
                    None => None::<Seq<char>>,
                },
                token_id: None,
                min_price: None,
                max_price: None,
                payment: match payment_token {
                    Some(t) => PaymentFilterV::Token(t@),
                    None => PaymentFilterV::Native,
                },
            }),
            page,
            limit,
        ),
{
    let side: SwapType = if swap_type.is_some() {
        swap_type.unwrap()
    } else {
        SwapType::Sale
    };
    let payment: PaymentFilter = match payment_token {
        Some(t) => PaymentFilter::Token(t),
        None => PaymentFilter::Native,
    };
    let f = SwapFilter {
        side: Some(side),
        creator: None,
        cw721,
        token_id: None,
        min_price: None,
        max_price: None,
        payment,
    };
    let results = filtered_records(ledger.records(), &f);
    proof {
        Seq::lemma_filter_len(ledger@, matches_pred(f@));
    }
    page_slice(results, page, limit)
}

/// One page of the swaps priced in any fungible token (`cw20` true) or in
/// the native currency (`cw20` false); on one side (sales when none is
/// named), optionally within one collection.
pub fn query_swaps_by_payment_type(
    ledger: &SwapLedger,
    cw20: bool,
    swap_type: Option<SwapType>,
    cw721: Option<String>,
    page: Option<u32>,
    limit: Option<u32>,
) -> (r: PageResult)
    requires
        ledger@.len() <= u32::MAX,
    ensures
        spec_query_result(
            r,
            ledger@,
            (SwapFilterV {
                side: Some(
                    match swap_type {
                        Some(t) => t,
                        None => SwapType::Sale,
                    },
                ),
                creator: None,
                cw721: match cw721 {
                    Some(c) => Some(c@),
                    None => None::<Seq<char>>,
                },
                token_id: None,
                min_price: None,
                max_price: None,
                payment: if cw20 {
                    PaymentFilterV::Fungible
                } else {
                    PaymentFilterV::Native
                },
            }),
            page,
            limit,
        ),
{
    let side: SwapType = if swap_type.is_some() {
        swap_type.unwrap()
    } else {
        SwapType::Sale
    };
    let payment: PaymentFilter = if cw20 {
        PaymentFilter::Fungible
    } else {
        PaymentFilter::Native
    };
    let f = SwapFilter {
        side: Some(side),
        creator: None,
        cw721,
        token_id: None,
        min_price: None,
        max_price: None,
        payment,
    };
    let results = filtered_records(ledger.records(), &f);
    proof {
        Seq::lemma_filter_len(ledger@, matches_pred(f@));
    }
    page_slice(results, page, limit)
}

/// The marketplace's configuration, as it stands.
pub fn query_config(config: &Config) -> (r: Config)
    ensures
        r@ == config@,
{
    config.duplicate()
}

/// Whether no two of the strings are equal: what pages assembled from a
/// paginated walk must satisfy.
pub fn has_unique_elements(items: &Vec<String>) -> (r: bool)
    ensures
        r == (forall|i: int, j: int|
            0 <= i < j < items@.len() ==> string_views(items@)[i] != string_views(items@)[j]),
{
    let n = items.len();
    let mut i: usize = 0;
    while i < n
        invariant
            i <= n,
            n == items@.len(),
            forall|a: int, b: int|
                0 <= a < b < items@.len() && a < i ==> string_views(items@)[a] != string_views(
                    items@,
                )[b],
        decreases n - i,
    {
        let mut j: usize = i + 1;
        while j < n
            invariant
                i < j,
                j <= n,
                n == items@.len(),
                forall|b: int|
                    i < b < j ==> string_views(items@)[i as int] != string_views(items@)[b],
            decreases n - j,
        {
            if items[i] == items[j] {
                proof {
                    assert(string_views(items@)[i as int] == string_views(items@)[j as int]);
                }
                return false;
            }
            j += 1;
        }
        i += 1;
    }
    true
}

} // verus!
