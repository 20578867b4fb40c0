use crate::model::{Transaction, TransactionQuery, TxError};
use crate::text::{contains_text, is_infix, lemma_text_lt_transitive, text_eq, text_less, text_lt};
use crate::token::AuthUser;
use vstd::prelude::*;
use vstd::string::*;

verus! {

broadcast use vstd::seq_lib::group_to_multiset_ensures;

/// The orders a listing can be sorted in.
#[derive(Clone, Copy, Debug, PartialEq, Eq, Structural)]
pub enum SortOrder {
    Latest,
    Oldest,
    Highest,
    Lowest,
    AToZ,
    ZToA,
}

/// The order named by a `sort` parameter; unknown or absent keys mean latest.
pub open spec fn sort_order_of(key: Option<Seq<char>>) -> SortOrder {
    match key {
        Some(k) => if k == "oldest"@ {
            SortOrder::Oldest
        } else if k == "highest"@ {
            SortOrder::Highest
        } else if k == "lowest"@ {
            SortOrder::Lowest
        } else if k == "a-z"@ {
            SortOrder::AToZ
        } else if k == "z-a"@ {
            SortOrder::ZToA
        } else {
            SortOrder::Latest
        },
        None => SortOrder::Latest,
    }
}

impl SortOrder {
    pub fn from_key(key: Option<&String>) -> (r: SortOrder)
        ensures
            r == sort_order_of(
                match key {
                    Some(k) => Some(k@),
                    None => None,
                },
            ),
    {
        match key {
            None => SortOrder::Latest,
            Some(k) => {
                let k = k.as_str();
                if text_eq(k, "oldest") {
                    SortOrder::Oldest
                } else if text_eq(k, "highest") {
                    SortOrder::Highest
                } else if text_eq(k, "lowest") {
                    SortOrder::Lowest
                } else if text_eq(k, "a-z") {
                    SortOrder::AToZ
                } else if text_eq(k, "z-a") {
                    SortOrder::ZToA
                } else {
                    SortOrder::Latest
                }
            },
        }
    }
}

/// `a` comes strictly before `b` by the order's key alone.
pub open spec fn key_before(a: Transaction, b: Transaction, order: SortOrder) -> bool {
    match order {
        SortOrder::Latest => a.transaction_date > b.transaction_date,
        SortOrder::Oldest => a.transaction_date < b.transaction_date,
        SortOrder::Highest => a.amount > b.amount,
        SortOrder::Lowest => a.amount < b.amount,
        SortOrder::AToZ => text_lt(a.recipient_sender@, b.recipient_sender@),
        SortOrder::ZToA => text_lt(b.recipient_sender@, a.recipient_sender@),
    }
}

/// `a` and `b` have the same key under the order.
pub open spec fn key_same(a: Transaction, b: Transaction, order: SortOrder) -> bool {
    match order {
        SortOrder::Latest | SortOrder::Oldest => a.transaction_date == b.transaction_date,
        SortOrder::Highest | SortOrder::Lowest => a.amount == b.amount,
        SortOrder::AToZ | SortOrder::ZToA => a.recipient_sender@ == b.recipient_sender@,
    }
}

/// The listing order: by the key, rows with equal keys by ascending id.
pub open spec fn sort_before(a: Transaction, b: Transaction, order: SortOrder) -> bool {
    key_before(a, b, order) || (key_same(a, b, order) && a.id < b.id)
}

/// No row of `s` sorts strictly before a row that precedes it.
pub open spec fn sorted_by(s: Seq<Transaction>, order: SortOrder) -> bool {
    forall|i: int, j: int|
        0 <= i < j < s.len() ==> !sort_before(#[trigger] s[j], #[trigger] s[i], order)
}

pub proof fn lemma_sort_before_transitive(
    a: Transaction,
    b: Transaction,
    c: Transaction,
    order: SortOrder,
)
    requires
        sort_before(a, b, order),
        sort_before(b, c, order),
    ensures
        sort_before(a, c, order),
{
    match order {
        SortOrder::AToZ => {
            if text_lt(a.recipient_sender@, b.recipient_sender@) && text_lt(
                b.recipient_sender@,
                c.recipient_sender@,
            ) {
                lemma_text_lt_transitive(a.recipient_sender@, b.recipient_sender@, c.recipient_sender@);
            }
        },
        SortOrder::ZToA => {
            if text_lt(b.recipient_sender@, a.recipient_sender@) && text_lt(
                c.recipient_sender@,
                b.recipient_sender@,
            ) {
                lemma_text_lt_transitive(c.recipient_sender@, b.recipient_sender@, a.recipient_sender@);
            }
        },
        _ => {},
    }
}

pub proof fn lemma_sort_before_irreflexive(a: Transaction, order: SortOrder)
    ensures
        !sort_before(a, a, order),
{
    assert(!text_lt(a.recipient_sender@, a.recipient_sender@)) by {
    };
}

/// Whether `a` sorts strictly before `b`.
pub fn sorts_before(a: &Transaction, b: &Transaction, order: SortOrder) -> (r: bool)
    ensures
        r == sort_before(*a, *b, order),
{
    let (lt, same) = match order {
        SortOrder::Latest => (
            a.transaction_date > b.transaction_date,
            a.transaction_date == b.transaction_date,
        ),
        SortOrder::Oldest => (
            a.transaction_date < b.transaction_date,
            a.transaction_date == b.transaction_date,
        ),
        SortOrder::Highest => (a.amount > b.amount, a.amount == b.amount),
        SortOrder::Lowest => (a.amount < b.amount, a.amount == b.amount),
        SortOrder::AToZ => (
            text_less(a.recipient_sender.as_str(), b.recipient_sender.as_str()),
            text_eq(a.recipient_sender.as_str(), b.recipient_sender.as_str()),
        ),
        SortOrder::ZToA => (
            text_less(b.recipient_sender.as_str(), a.recipient_sender.as_str()),
            text_eq(a.recipient_sender.as_str(), b.recipient_sender.as_str()),
        ),
    };
    lt || (same && a.id < b.id)
}

/// Reorders `rows` into the listing order.
pub fn sort_transactions(rows: Vec<Transaction>, order: SortOrder) -> (r: Vec<Transaction>)
    ensures
        r@.to_multiset() =~= rows@.to_multiset(),
        sorted_by(r@, order),
{
    let ghost all = rows@;
    let mut rest = rows;
    let mut out: Vec<Transaction> = Vec::new();
    while rest.len() > 0
        invariant
            out@.to_multiset().add(rest@.to_multiset()) =~= all.to_multiset(),
            sorted_by(out@, order),
            forall|i: int, j: int|
                0 <= i < out@.len() && 0 <= j < rest@.len() ==> !sort_before(
                    #[trigger] rest@[j],
                    #[trigger] out@[i],
                    order,
                ),
        decreases rest.len(),
    {
        let mut best: usize = 0;
        let mut k: usize = 1;
        proof {
            lemma_sort_before_irreflexive(rest@[0], order);
        }
        while k < rest.len()
            invariant
                0 < rest@.len(),
                best < rest@.len(),
                1 <= k <= rest@.len(),
                forall|j: int| 0 <= j < k ==> !sort_before(#[trigger] rest@[j], rest@[best as int], order),
            decreases rest.len() - k,
        {
            if sorts_before(&rest[k], &rest[best], order) {
                proof {
                    assert forall|j: int| 0 <= j <= k implies !sort_before(
                        #[trigger] rest@[j],
                        rest@[k as int],
                        order,
                    ) by {
                        if j == k {
                            lemma_sort_before_irreflexive(rest@[j], order);
                        } else if sort_before(rest@[j], rest@[k as int], order) {
                            lemma_sort_before_transitive(
                                rest@[j],
                                rest@[k as int],
                                rest@[best as int],
                                order,
                            );
                        }
                    };
                }
                best = k;
            }
            k = k + 1;
        }
        let ghost before_rest = rest@;
        let ghost before_out = out@;
        let x = rest.remove(best);
        proof {
            assert(before_rest.to_multiset().count(x) > 0);
        }
        out.push(x);
        proof {
            assert forall|i: int, j: int| 0 <= i < out@.len() && 0 <= j < rest@.len() implies !sort_before(
                #[trigger] rest@[j],
                #[trigger] out@[i],
                order,
            ) by {
                let jj = if j < best {
                    j
                } else {
                    j + 1
                };
                assert(rest@[j] == before_rest[jj]);
                if i < before_out.len() {
                    assert(out@[i] == before_out[i]);
                }
            };
            assert forall|i: int, j: int| 0 <= i < j < out@.len() implies !sort_before(
                #[trigger] out@[j],
                #[trigger] out@[i],
                order,
            ) by {
                if j < before_out.len() {
                    assert(out@[j] == before_out[j]);
                    assert(out@[i] == before_out[i]);
                } else {
                    assert(out@[i] == before_out[i]);
                }
            };
        }
    }
    out
}


pub open spec fn digit_char(d: int) -> char {
    if d == 0 {
        '0'
    } else if d == 1 {
        '1'
    } else if d == 2 {
        '2'
    } else if d == 3 {
        '3'
    } else if d == 4 {
        '4'
    } else if d == 5 {
        '5'
    } else if d == 6 {
        '6'
    } else if d == 7 {
        '7'
    } else if d == 8 {
        '8'
    } else {
        '9'
    }
}

/// The decimal digits of `n`, most significant first, without leading zeros.
pub open spec fn decimal_digits(n: nat) -> Seq<char>
    decreases n,
{
    if n < 10 {
        seq![digit_char(n as int)]
    } else {
        decimal_digits(n / 10).push(digit_char(n as int % 10))
    }
}

/// The fractional part of an amount with `r` hundredths, trailing zeros dropped.
pub open spec fn cents_fraction(r: int) -> Seq<char> {
    if r == 0 {
        Seq::empty()
    } else if r % 10 == 0 {
        seq!['.', digit_char(r / 10)]
    } else {
        seq!['.', digit_char(r / 10), digit_char(r % 10)]
    }
}

/// The shortest decimal text of an amount held in hundredths: `42`, `-0.5`,
/// `42.05`.
pub open spec fn amount_text(cents: int) -> Seq<char> {
    let m = if cents < 0 {
        -cents
    } else {
        cents
    };
    let sign = if cents < 0 {
        seq!['-']
    } else {
        Seq::<char>::empty()
    };
    sign + decimal_digits((m / 100) as nat) + cents_fraction(m % 100)
}

fn digit(d: u64) -> (c: char)
    requires
        d < 10,
    ensures
        c == digit_char(d as int),
{
    if d == 0 {
        '0'
    } else if d == 1 {
        '1'
    } else if d == 2 {
        '2'
    } else if d == 3 {
        '3'
    } else if d == 4 {
        '4'
    } else if d == 5 {
        '5'
    } else if d == 6 {
        '6'
    } else if d == 7 {
        '7'
    } else if d == 8 {
        '8'
    } else {
        '9'
    }
}

fn push_digits(n: u64, out: &mut Vec<char>)
    ensures
        final(out)@ == old(out)@ + decimal_digits(n as nat),
    decreases n,
{
    if n >= 10 {
        push_digits(n / 10, out);
    }
    out.push(digit(n % 10));
    proof {
        if n >= 10 {
            assert(old(out)@ + decimal_digits(n as nat) =~= old(out)@ + decimal_digits(
                (n / 10) as nat,
            ) + seq![digit_char(n as int % 10)]);
        }
    }
}

/// The decimal text of an amount, as `amount_text` describes it.
pub fn amount_chars(cents: i64) -> (r: Vec<char>)
    ensures
        r@ == amount_text(cents as int),
{
    let mut out: Vec<char> = Vec::new();
    let m: u64 = if cents < 0 {
        (0i128 - cents as i128) as u64
    } else {
        cents as u64
    };
    if cents < 0 {
        out.push('-');
    }
    push_digits(m / 100, &mut out);
    let r = m % 100;
    if r != 0 {
        out.push('.');
        out.push(digit(r / 10));
        if r % 10 != 0 {
            out.push(digit(r % 10));
        }
    }
    assert(out@ =~= amount_text(cents as int));
    out
}

fn chars_match(v: &Vec<char>, s: &str) -> (r: bool)
    ensures
        r == (v@ == s@),
{
    let n = s.unicode_len();
    if n != v.len() {
        return false;
    }
    let mut i: usize = 0;
    while i < n
        invariant
            n == s@.len() == v@.len(),
            i <= n,
            forall|j: int| 0 <= j < i ==> v@[j] == s@[j],
        decreases n - i,
    {
        if v[i] != s.get_char(i) {
            return false;
        }
        i = i + 1;
    }
    assert(v@ =~= s@);
    true
}

/// What `str::to_lowercase` returns for a string.
pub uninterp spec fn lower_of(s: Seq<char>) -> Seq<char>;

/// Relies on `str::to_lowercase`: the result depends on the characters alone,
/// and the empty string stays empty.
#[verifier::external_body]
fn lowercase(s: &str) -> (r: String)
    ensures
        r@ == lower_of(s@),
        s@.len() == 0 ==> r@.len() == 0,
{
    s.to_lowercase()
}

/// A search term hits a row when the lower-cased counterparty contains the
/// lower-cased term, or when the amount's decimal text equals the term.
pub open spec fn search_hit(t: Transaction, term: Seq<char>) -> bool {
    is_infix(lower_of(term), lower_of(t.recipient_sender@)) || term == amount_text(
        t.amount as int,
    )
}

/// `t` belongs to `owner` and passes the optional category and search filters.
pub open spec fn row_selected(
    t: Transaction,
    owner: u128,
    category: Option<Seq<char>>,
    search: Option<Seq<char>>,
) -> bool {
    &&& t.user_id == owner
    &&& (category matches Some(c) ==> t.category@ == c)
    &&& (search matches Some(q) ==> search_hit(t, q))
}

/// The rows of `rows` that `row_selected` keeps, in their order.
pub open spec fn selected_rows(
    rows: Seq<Transaction>,
    owner: u128,
    category: Option<Seq<char>>,
    search: Option<Seq<char>>,
) -> Seq<Transaction>
    decreases rows.len(),
{
    if rows.len() == 0 {
        Seq::empty()
    } else {
        let earlier = selected_rows(rows.drop_last(), owner, category, search);
        if row_selected(rows.last(), owner, category, search) {
            earlier.push(rows.last())
        } else {
            earlier
        }
    }
}

pub proof fn lemma_selected_rows_selected(
    rows: Seq<Transaction>,
    owner: u128,
    category: Option<Seq<char>>,
    search: Option<Seq<char>>,
)
    ensures
        forall|i: int|
            0 <= i < selected_rows(rows, owner, category, search).len() ==> row_selected(
                #[trigger] selected_rows(rows, owner, category, search)[i],
                owner,
                category,
                search,
            ),
    decreases rows.len(),
{
    if rows.len() > 0 {
        let earlier = selected_rows(rows.drop_last(), owner, category, search);
        lemma_selected_rows_selected(rows.drop_last(), owner, category, search);
        let all = selected_rows(rows, owner, category, search);
        assert forall|i: int| 0 <= i < all.len() implies row_selected(
            #[trigger] all[i],
            owner,
            category,
            search,
        ) by {
            if i < earlier.len() {
                assert(all[i] == earlier[i]);
            }
        };
    }
}

pub open spec fn text_opt(s: Option<String>) -> Option<Seq<char>> {
    match s {
        Some(x) => Some(x@),
        None => None,
    }
}

/// The rows of `rows` that belong to `owner` and pass the filters.
pub fn select_rows(
    rows: &Vec<Transaction>,
    owner: u128,
    category: &Option<String>,
    search: &Option<String>,
) -> (r: Vec<Transaction>)
    ensures
        r@ == selected_rows(rows@, owner, text_opt(*category), text_opt(*search)),
{
    let ghost cat = text_opt(*category);
    let ghost q = text_opt(*search);
    let lowered_term: Option<String> = match search {
        Some(t) => Some(lowercase(t.as_str())),
        None => None,
    };
    let mut out: Vec<Transaction> = Vec::new();
    let mut i: usize = 0;
    while i < rows.len()
        invariant
            i <= rows@.len(),
            out@ == selected_rows(rows@.subrange(0, i as int), owner, cat, q),
            cat == text_opt(*category),
            q == text_opt(*search),
            search matches Some(t) ==> lowered_term matches Some(l) && l@ == lower_of(t@),
            search is None ==> lowered_term is None,
        decreases rows.len() - i,
    {
        let t = &rows[i];
        let mut keep = t.user_id == owner;
        if let Some(c) = category {
            keep = keep && text_eq(t.category.as_str(), c.as_str());
        }
        if let Some(term) = search {
            let hit = match &lowered_term {
                Some(l) => {
                    let name = lowercase(t.recipient_sender.as_str());
                    contains_text(name.as_str(), l.as_str()) || chars_match(
                        &amount_chars(t.amount),
                        term.as_str(),
                    )
                },
                None => false,
            };
            keep = keep && hit;
        }
        assert(rows@.subrange(0, i + 1).drop_last() =~= rows@.subrange(0, i as int));
        if keep {
            out.push(t.duplicate());
        }
        i = i + 1;
    }
    assert(rows@.subrange(0, rows@.len() as int) =~= rows@);
    out
}

/// The rows of page `page` (counted from one) with `size` rows per page.
pub open spec fn page_of(s: Seq<Transaction>, page: int, size: int) -> Seq<Transaction> {
    let offset = (page - 1) * size;
    if offset >= s.len() {
        Seq::empty()
    } else if offset + size >= s.len() {
        s.subrange(offset, s.len() as int)
    } else {
        s.subrange(offset, offset + size)
    }
}

/// Takes out page `page` of `rows`.
pub fn paginate(rows: Vec<Transaction>, page: u32, size: u32) -> (r: Vec<Transaction>)
    requires
        page >= 1,
        size >= 1,
    ensures
        r@ == page_of(rows@, page as int, size as int),
{
    assert((page as u64 - 1) * (size as u64) <= 0xffff_ffffu64 * 0xffff_ffffu64) by (nonlinear_arith)
        requires
            page >= 1,
    ;
    let offset: u64 = (page as u64 - 1) * size as u64;
    let len = rows.len() as u64;
    if offset >= len {
        return Vec::new();
    }
    let end: u64 = if offset + size as u64 >= len {
        len
    } else {
        offset + size as u64
    };
    let mut out: Vec<Transaction> = Vec::new();
    let mut i: usize = offset as usize;
    while i < end as usize
        invariant
            offset <= i <= end <= len == rows@.len(),
            out@ == rows@.subrange(offset as int, i as int),
        decreases end - i,
    {
        out.push(rows[i].duplicate());
        assert(rows@.subrange(offset as int, i + 1) =~= rows@.subrange(offset as int, i as int).push(
            rows@[i as int],
        ));
        i = i + 1;
    }
    out
}

/// The page number a query asks for (default one).
pub open spec fn page_number(q: TransactionQuery) -> int {
    match q.page {
        Some(p) => p as int,
        None => 1,
    }
}

/// The page size a query asks for (default ten).
pub open spec fn page_size(q: TransactionQuery) -> int {
    match q.page_size {
        Some(p) => p as int,
        None => 10,
    }
}

/// Lists the caller's transactions: the rows of `rows` that belong to the
/// caller and pass the query's category and search filters, in the query's
/// order, cut to the requested page. A zero page or page size is refused.
pub fn get_transactions(
    rows: &Vec<Transaction>,
    auth_user: &AuthUser,
    query: &TransactionQuery,
) -> (r: Result<Vec<Transaction>, TxError>)
    ensures
        r is Err <==> page_number(*query) == 0 || page_size(*query) == 0,
        r is Err ==> r == Err::<Vec<Transaction>, TxError>(TxError::Validation),
        r matches Ok(v) ==> exists|s: Seq<Transaction>|
            #[trigger] sorted_by(s, sort_order_of(text_opt(query.sort))) && s.to_multiset()
                =~= selected_rows(
                rows@,
                auth_user.user_id,
                text_opt(query.category),
                text_opt(query.search),
            ).to_multiset() && v@ == page_of(s, page_number(*query), page_size(*query)),
        r matches Ok(v) ==> forall|i: int|
            0 <= i < v@.len() ==> (#[trigger] v@[i]).user_id == auth_user.user_id,
{
    let page: u32 = match query.page {
        Some(p) => p,
        None => 1,
    };
    let size: u32 = match query.page_size {
        Some(p) => p,
        None => 10,
    };
    if page == 0 || size == 0 {
        return Err(TxError::Validation);
    }
    let order = SortOrder::from_key(query.sort.as_ref());
    let selected = select_rows(rows, auth_user.user_id, &query.category, &query.search);
    let ghost sel = selected@;
    let sorted = sort_transactions(selected, order);
    let ghost s = sorted@;
    let out = paginate(sorted, page, size);
    proof {
        lemma_selected_rows_selected(
            rows@,
            auth_user.user_id,
            text_opt(query.category),
            text_opt(query.search),
        );
        assert forall|i: int| 0 <= i < out@.len() implies (#[trigger] out@[i]).user_id
            == auth_user.user_id by {
            let off = (page - 1) * size;
            assert(out@[i] == s[off + i]);
            assert(s.to_multiset().count(s[off + i]) > 0);
            assert(sel.contains(s[off + i]));
        };
        assert(sorted_by(s, order));
    }
    Ok(out)
}

/// A listing sorted latest-first has strictly falling dates, and one sorted
/// oldest-first strictly rising dates, wherever the rows' dates differ.
pub proof fn lemma_date_orders_are_monotone(s: Seq<Transaction>, i: int, j: int)
    requires
        0 <= i < j < s.len(),
        s[i].transaction_date != s[j].transaction_date,
    ensures
        sorted_by(s, SortOrder::Latest) ==> s[i].transaction_date > s[j].transaction_date,
        sorted_by(s, SortOrder::Oldest) ==> s[i].transaction_date < s[j].transaction_date,
{
    if sorted_by(s, SortOrder::Latest) {
        assert(!sort_before(s[j], s[i], SortOrder::Latest));
    }
    if sorted_by(s, SortOrder::Oldest) {
        assert(!sort_before(s[j], s[i], SortOrder::Oldest));
    }
}

} // verus!
