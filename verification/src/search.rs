//! Advanced-search query builder.

use vstd::prelude::*;

use crate::json::strings_view;
use crate::metadata::pairs_view;
use crate::strmap::{entries_map, sorted_keys, StrMap};
use crate::text::{chars_of, decimal, lemma_concat_contains, string_from_chars, u64_to_decimal};
use crate::urls::{extend_url_query, url_parse, url_with_query_pairs, UrlParseError};

verus! {

/// Sort direction used by advanced search.
#[derive(Clone, Copy, Debug, PartialEq, Eq, Structural)]
pub enum SortDirection {
    /// Ascending sort.
    Asc,
    /// Descending sort.
    Desc,
}

/// The word for a sort direction.
pub open spec fn direction_text(d: SortDirection) -> Seq<char> {
    match d {
        SortDirection::Asc => "asc"@,
        SortDirection::Desc => "desc"@,
    }
}

impl SortDirection {
    /// The word for this direction.
    pub fn as_str(&self) -> (r: &str)
        ensures
            r@ == direction_text(*self),
    {
        match self {
            SortDirection::Asc => "asc",
            SortDirection::Desc => "desc",
        }
    }
}

/// One sort clause for advanced search.
#[derive(Clone, Debug, PartialEq, Eq)]
pub struct SearchSort {
    /// Field name to sort by.
    pub field: String,
    /// Sort direction.
    pub direction: SortDirection,
}

/// The `sort[]` parameter of a clause: the field, a space, the direction.
pub open spec fn sort_param(field: Seq<char>, direction: SortDirection) -> Seq<char> {
    field + " "@ + direction_text(direction)
}

impl SearchSort {
    /// Creates a new sort clause.
    pub fn new(field: &str, direction: SortDirection) -> (r: Self)
        ensures
            r.field@ == field@,
            r.direction == direction,
    {
        SearchSort { field: field.to_owned(), direction }
    }

    /// The `sort[]` parameter of this clause.
    pub fn as_param(&self) -> (r: String)
        ensures
            r@ == sort_param(self.field@, self.direction),
    {
        let mut out = chars_of(self.field.as_str());
        let space = chars_of(" ");
        let dir = chars_of(self.direction.as_str());
        let ghost f = out@;
        extend(&mut out, &space);
        extend(&mut out, &dir);
        assert(out@ =~= f + " "@ + direction_text(self.direction));
        string_from_chars(&out)
    }
}

/// Abstract form of a [`SearchQuery`].
pub struct SearchQueryView {
    pub query: Seq<char>,
    pub fields: Seq<Seq<char>>,
    pub rows: Option<u32>,
    pub page: Option<u32>,
    pub sorts: Seq<(Seq<char>, SortDirection)>,
    pub extra_params: Map<Seq<char>, Seq<char>>,
}

/// Views of sort clauses.
pub open spec fn sorts_view(v: Seq<SearchSort>) -> Seq<(Seq<char>, SortDirection)> {
    v.map_values(|s: SearchSort| (s.field@, s.direction))
}

/// Query object for `advancedsearch.php`.
pub struct SearchQuery {
    query: String,
    fields: Vec<String>,
    rows: Option<u32>,
    page: Option<u32>,
    sorts: Vec<SearchSort>,
    extra_params: StrMap<String>,
}

impl View for SearchQuery {
    type V = SearchQueryView;

    closed spec fn view(&self) -> SearchQueryView {
        SearchQueryView {
            query: self.query@,
            fields: strings_view(self.fields@),
            rows: self.rows,
            page: self.page,
            sorts: sorts_view(self.sorts@),
            extra_params: self.extra_params@,
        }
    }
}

/// The query parameters of a search, in the order they are sent: the query
/// and output format, each requested field, the page size and number when
/// set, each sort clause, then the extra parameters in key order.
pub open spec fn search_pairs(
    q: SearchQueryView,
    extra_entries: Seq<(Seq<char>, Seq<char>)>,
) -> Seq<(Seq<char>, Seq<char>)> {
    seq![("q"@, q.query), ("output"@, "json"@)] + q.fields.map_values(
        |f: Seq<char>| ("fl[]"@, f),
    ) + match q.rows {
        Some(n) => seq![("rows"@, decimal(n as nat))],
        None => Seq::empty(),
    } + match q.page {
        Some(n) => seq![("page"@, decimal(n as nat))],
        None => Seq::empty(),
    } + q.sorts.map_values(|s: (Seq<char>, SortDirection)| ("sort[]"@, sort_param(s.0, s.1)))
        + extra_entries
}

/// The page size and the page number are each sent exactly when set, with
/// their decimal value, whatever else the query holds; the query and the
/// output format are always sent. (Extra parameters are assumed not to be
/// named `rows` or `page`.)
pub proof fn lemma_search_pairs_follow_rows_and_page(
    q: SearchQueryView,
    e: Seq<(Seq<char>, Seq<char>)>,
)
    requires
        ordered_entries_of(e, q.extra_params),
        !q.extra_params.contains_key("rows"@),
        !q.extra_params.contains_key("page"@),
    ensures
        search_pairs(q, e).contains(("q"@, q.query)),
        search_pairs(q, e).contains(("output"@, "json"@)),
        forall|v: Seq<char>|
            #[trigger] search_pairs(q, e).contains(("rows"@, v)) <==> (q.rows matches Some(n) && v
                == decimal(n as nat)),
        forall|v: Seq<char>|
            #[trigger] search_pairs(q, e).contains(("page"@, v)) <==> (q.page matches Some(n) && v
                == decimal(n as nat)),
{
    reveal_strlit("q");
    reveal_strlit("output");
    reveal_strlit("fl[]");
    reveal_strlit("rows");
    reveal_strlit("page");
    reveal_strlit("sort[]");
    let head = seq![("q"@, q.query), ("output"@, "json"@)];
    let f = q.fields.map_values(|x: Seq<char>| ("fl[]"@, x));
    let r = match q.rows {
        Some(n) => seq![("rows"@, decimal(n as nat))],
        None => Seq::empty(),
    };
    let p = match q.page {
        Some(n) => seq![("page"@, decimal(n as nat))],
        None => Seq::empty(),
    };
    let s = q.sorts.map_values(|x: (Seq<char>, SortDirection)| ("sort[]"@, sort_param(x.0, x.1)));
    assert(search_pairs(q, e) == head + f + r + p + s + e);
    assert("rows"@.len() == 4 && "page"@.len() == 4 && "q"@.len() == 1 && "output"@.len() == 6
        && "fl[]"@.len() == 4 && "sort[]"@.len() == 6);
    assert("rows"@[0] != "page"@[0] && "rows"@[0] != "fl[]"@[0] && "page"@[0] != "fl[]"@[0]);
    assert(head[0] == ("q"@, q.query) && head[1] == ("output"@, "json"@));
    lemma_concat_contains(head + f + r + p + s, e, ("q"@, q.query));
    lemma_concat_contains(head + f + r + p, s, ("q"@, q.query));
    lemma_concat_contains(head + f + r, p, ("q"@, q.query));
    lemma_concat_contains(head + f, r, ("q"@, q.query));
    lemma_concat_contains(head, f, ("q"@, q.query));
    lemma_concat_contains(head + f + r + p + s, e, ("output"@, "json"@));
    lemma_concat_contains(head + f + r + p, s, ("output"@, "json"@));
    lemma_concat_contains(head + f + r, p, ("output"@, "json"@));
    lemma_concat_contains(head + f, r, ("output"@, "json"@));
    lemma_concat_contains(head, f, ("output"@, "json"@));
    assert forall|name: Seq<char>, v: Seq<char>|
        (name == "rows"@ || name == "page"@) implies (#[trigger] (head + f + r + p + s + e).contains(
        (name, v)) <==> (r.contains((name, v)) || p.contains((name, v)))) by {
        let x = (name, v);
        lemma_concat_contains(head + f + r + p + s, e, x);
        lemma_concat_contains(head + f + r + p, s, x);
        lemma_concat_contains(head + f + r, p, x);
        lemma_concat_contains(head + f, r, x);
        lemma_concat_contains(head, f, x);
        if head.contains(x) {
            let i = choose|i: int| 0 <= i < head.len() && head[i] == x;
            assert(i == 0 || i == 1);
        }
        if f.contains(x) {
            let i = choose|i: int| 0 <= i < f.len() && f[i] == x;
            assert(f[i].0 == "fl[]"@);
        }
        if s.contains(x) {
            let i = choose|i: int| 0 <= i < s.len() && s[i] == x;
            assert(s[i].0 == "sort[]"@);
        }
        if e.contains(x) {
            let i = choose|i: int| 0 <= i < e.len() && e[i] == x;
            assert(e[i].0 == name);
            assert(q.extra_params.contains_key(name));
        }
    }
    assert forall|v: Seq<char>|
        #[trigger] search_pairs(q, e).contains(("rows"@, v)) <==> (q.rows matches Some(n) && v
            == decimal(n as nat)) by {
        assert((head + f + r + p + s + e).contains(("rows"@, v)) <==> (r.contains(("rows"@, v))
            || p.contains(("rows"@, v))));
        if r.contains(("rows"@, v)) {
            let i = choose|i: int| 0 <= i < r.len() && r[i] == ("rows"@, v);
        }
        if p.contains(("rows"@, v)) {
            let i = choose|i: int| 0 <= i < p.len() && p[i] == ("rows"@, v);
        }
        if let Some(n) = q.rows {
            if v == decimal(n as nat) {
                assert(r[0] == ("rows"@, v));
            }
        }
    }
    assert forall|v: Seq<char>|
        #[trigger] search_pairs(q, e).contains(("page"@, v)) <==> (q.page matches Some(n) && v
            == decimal(n as nat)) by {
        assert((head + f + r + p + s + e).contains(("page"@, v)) <==> (r.contains(("page"@, v))
            || p.contains(("page"@, v))));
        if r.contains(("page"@, v)) {
            let i = choose|i: int| 0 <= i < r.len() && r[i] == ("page"@, v);
        }
        if p.contains(("page"@, v)) {
            let i = choose|i: int| 0 <= i < p.len() && p[i] == ("page"@, v);
        }
        if let Some(n) = q.page {
            if v == decimal(n as nat) {
                assert(p[0] == ("page"@, v));
            }
        }
    }
}

/// The names of the parameters a search sets itself.
pub open spec fn is_search_param_name(name: Seq<char>) -> bool {
    ||| name == "q"@
    ||| name == "output"@
    ||| name == "fl[]"@
    ||| name == "rows"@
    ||| name == "page"@
    ||| name == "sort[]"@
}

/// Every requested field is sent as an `fl[]` parameter and nothing else
/// is; every sort clause is sent as a `sort[]` parameter and nothing else
/// is; and every extra parameter is sent with its value, and no other
/// parameter of another name. (Extra parameters are assumed not to reuse
/// the names the search sets itself.)
pub proof fn lemma_search_pairs_hold_fields_sorts_extras(
    q: SearchQueryView,
    e: Seq<(Seq<char>, Seq<char>)>,
)
    requires
        ordered_entries_of(e, q.extra_params),
        forall|k: Seq<char>| #[trigger] q.extra_params.contains_key(k) ==> !is_search_param_name(k),
    ensures
        forall|v: Seq<char>|
            #[trigger] search_pairs(q, e).contains(("fl[]"@, v)) <==> q.fields.contains(v),
        forall|v: Seq<char>|
            #[trigger] search_pairs(q, e).contains(("sort[]"@, v)) <==> exists|i: int|
                0 <= i < q.sorts.len() && v == sort_param(
                    #[trigger] q.sorts[i].0,
                    q.sorts[i].1,
                ),
        forall|k: Seq<char>, v: Seq<char>|
            !is_search_param_name(k) ==> (#[trigger] search_pairs(q, e).contains((k, v)) <==> (
            q.extra_params.contains_key(k) && q.extra_params[k] == v)),
{
    reveal_strlit("q");
    reveal_strlit("output");
    reveal_strlit("fl[]");
    reveal_strlit("rows");
    reveal_strlit("page");
    reveal_strlit("sort[]");
    let head = seq![("q"@, q.query), ("output"@, "json"@)];
    let f = q.fields.map_values(|x: Seq<char>| ("fl[]"@, x));
    let r = match q.rows {
        Some(n) => seq![("rows"@, decimal(n as nat))],
        None => Seq::empty(),
    };
    let p = match q.page {
        Some(n) => seq![("page"@, decimal(n as nat))],
        None => Seq::empty(),
    };
    let s = q.sorts.map_values(|x: (Seq<char>, SortDirection)| ("sort[]"@, sort_param(x.0, x.1)));
    assert(search_pairs(q, e) == head + f + r + p + s + e);
    assert("rows"@.len() == 4 && "page"@.len() == 4 && "q"@.len() == 1 && "output"@.len() == 6
        && "fl[]"@.len() == 4 && "sort[]"@.len() == 6);
    assert("rows"@[0] != "page"@[0] && "rows"@[0] != "fl[]"@[0] && "page"@[0] != "fl[]"@[0]);
    assert("output"@[0] != "sort[]"@[0]);
    assert forall|x: (Seq<char>, Seq<char>)| #[trigger]
        (head + f + r + p + s + e).contains(x) <==> (head.contains(x) || f.contains(x)
            || r.contains(x) || p.contains(x) || s.contains(x) || e.contains(x)) by {
        lemma_concat_contains(head + f + r + p + s, e, x);
        lemma_concat_contains(head + f + r + p, s, x);
        lemma_concat_contains(head + f + r, p, x);
        lemma_concat_contains(head + f, r, x);
        lemma_concat_contains(head, f, x);
    }
    assert forall|x: (Seq<char>, Seq<char>)| head.contains(x) implies x.0 == "q"@ || x.0
        == "output"@ by {
        let i = choose|i: int| 0 <= i < head.len() && head[i] == x;
        assert(i == 0 || i == 1);
    }
    assert forall|x: (Seq<char>, Seq<char>)| r.contains(x) implies x.0 == "rows"@ by {
        let i = choose|i: int| 0 <= i < r.len() && r[i] == x;
    }
    assert forall|x: (Seq<char>, Seq<char>)| p.contains(x) implies x.0 == "page"@ by {
        let i = choose|i: int| 0 <= i < p.len() && p[i] == x;
    }
    assert forall|x: (Seq<char>, Seq<char>)| f.contains(x) implies x.0 == "fl[]"@
        && q.fields.contains(x.1) by {
        let i = choose|i: int| 0 <= i < f.len() && f[i] == x;
        assert(q.fields[i] == x.1);
    }
    assert forall|x: (Seq<char>, Seq<char>)| s.contains(x) implies x.0 == "sort[]"@ by {
        let i = choose|i: int| 0 <= i < s.len() && s[i] == x;
    }
    assert forall|x: (Seq<char>, Seq<char>)| e.contains(x) implies q.extra_params.contains_key(x.0)
        && q.extra_params[x.0] == x.1 && !is_search_param_name(x.0) by {
        let i = choose|i: int| 0 <= i < e.len() && e[i] == x;
        assert(e[i].0 == x.0);
    }
    assert forall|v: Seq<char>|
        #[trigger] search_pairs(q, e).contains(("fl[]"@, v)) <==> q.fields.contains(v) by {
        if q.fields.contains(v) {
            let i = choose|i: int| 0 <= i < q.fields.len() && q.fields[i] == v;
            assert(f[i] == ("fl[]"@, v));
            assert(f.contains(("fl[]"@, v)));
        }
    }
    assert forall|v: Seq<char>|
        #[trigger] search_pairs(q, e).contains(("sort[]"@, v)) <==> exists|i: int|
            0 <= i < q.sorts.len() && v == sort_param(#[trigger] q.sorts[i].0, q.sorts[i].1) by {
        if s.contains(("sort[]"@, v)) {
            let i = choose|i: int| 0 <= i < s.len() && s[i] == ("sort[]"@, v);
            assert(v == sort_param(q.sorts[i].0, q.sorts[i].1));
        }
        if exists|i: int| 0 <= i < q.sorts.len() && v == sort_param(#[trigger] q.sorts[i].0, q.sorts[i].1) {
            let i = choose|i: int| 0 <= i < q.sorts.len() && v == sort_param(#[trigger] q.sorts[i].0, q.sorts[i].1);
            assert(s[i] == ("sort[]"@, v));
            assert(s.contains(("sort[]"@, v)));
        }
    }
    assert forall|k: Seq<char>, v: Seq<char>|
        !is_search_param_name(k) implies (#[trigger] search_pairs(q, e).contains((k, v)) <==> (
        q.extra_params.contains_key(k) && q.extra_params[k] == v)) by {
        if q.extra_params.contains_key(k) && q.extra_params[k] == v {
            let i = choose|i: int| 0 <= i < e.len() && #[trigger] e[i].0 == k;
            assert(e[i] == (k, v));
            assert(e.contains((k, v)));
        }
    }
}

/// A sequence of key and value views whose keys strictly increase and
/// whose map is `m`: the entries of `m` in key order.
pub open spec fn ordered_entries_of(
    e: Seq<(Seq<char>, Seq<char>)>,
    m: Map<Seq<char>, Seq<char>>,
) -> bool {
    &&& forall|i: int, j: int|
        0 <= i < j < e.len() ==> crate::text::seq_lt(#[trigger] e[i].0, #[trigger] e[j].0)
    &&& forall|k: Seq<char>| #[trigger] m.contains_key(k) <==> exists|i: int| 0 <= i < e.len() && #[trigger] e[i].0 == k
    &&& forall|i: int| 0 <= i < e.len() ==> m[#[trigger] e[i].0] == e[i].1
}

/// Appends characters.
fn extend(out: &mut Vec<char>, more: &Vec<char>)
    ensures
        final(out)@ == old(out)@ + more@,
{
    let n = more.len();
    let mut i: usize = 0;
    let ghost start = out@;
    while i < n
        invariant
            n == more@.len(),
            i <= n,
            out@ == start + more@.take(i as int),
        decreases n - i,
    {
        out.push(more[i]);
        assert(more@.take(i + 1) =~= more@.take(i as int).push(more@[i as int]));
        assert(out@ =~= start + more@.take(i + 1));
        i = i + 1;
    }
    assert(more@.take(n as int) =~= more@);
}

impl SearchQuery {
    #[verifier::type_invariant]
    closed spec fn well_formed(self) -> bool {
        self.extra_params.well_formed()
    }

    /// Creates a raw search query string.
    pub fn new(query: &str) -> (r: Self)
        ensures
            r@ == (SearchQueryView {
                query: query@,
                fields: Seq::empty(),
                rows: None,
                page: None,
                sorts: Seq::empty(),
                extra_params: Map::empty(),
            }),
    {
        let r = SearchQuery {
            query: query.to_owned(),
            fields: Vec::new(),
            rows: None,
            page: None,
            sorts: Vec::new(),
            extra_params: StrMap::new(),
        };
        assert(r@.fields =~= Seq::<Seq<char>>::empty());
        assert(r@.sorts =~= Seq::<(Seq<char>, SortDirection)>::empty());
        r
    }

    /// Creates an identifier-only query: `identifier:` followed by the identifier.
    pub fn identifier(identifier: &str) -> (r: Self)
        ensures
            r@ == (SearchQueryView {
                query: "identifier:"@ + identifier@,
                fields: Seq::empty(),
                rows: None,
                page: None,
                sorts: Seq::empty(),
                extra_params: Map::empty(),
            }),
    {
        let mut q = chars_of("identifier:");
        let id = chars_of(identifier);
        extend(&mut q, &id);
        let text = string_from_chars(&q);
        Self::new(text.as_str())
    }

    /// Starts building a search query.
    pub fn builder(query: &str) -> (r: SearchQueryBuilder)
        ensures
            r@ == Self::new_spec(query@),
    {
        SearchQueryBuilder { inner: Self::new(query) }
    }

    /// The view of a fresh query.
    pub open spec fn new_spec(query: Seq<char>) -> SearchQueryView {
        SearchQueryView {
            query: query,
            fields: Seq::empty(),
            rows: None,
            page: None,
            sorts: Seq::empty(),
            extra_params: Map::empty(),
        }
    }

    /// Returns the raw query string.
    pub fn query(&self) -> (r: &str)
        ensures
            r@ == self@.query,
    {
        self.query.as_str()
    }

    /// Returns the requested fields.
    pub fn fields(&self) -> (r: &Vec<String>)
        ensures
            strings_view(r@) == self@.fields,
    {
        &self.fields
    }

    /// The query parameters of this search, in the order they are sent.
    pub fn query_pairs(&self) -> (r: Vec<(String, String)>)
        ensures
            exists|e: Seq<(Seq<char>, Seq<char>)>|
                ordered_entries_of(e, self@.extra_params) && pairs_view(r@) == search_pairs(
                    self@,
                    e,
                ),
    {
        proof {
            use_type_invariant(self);
        }
        let mut pairs: Vec<(String, String)> = Vec::new();
        pairs.push(("q".to_owned(), self.query.clone()));
        pairs.push(("output".to_owned(), "json".to_owned()));
        let ghost head = seq![("q"@, self@.query), ("output"@, "json"@)];
        assert(pairs_view(pairs@) =~= head);
        let nf = self.fields.len();
        let mut i: usize = 0;
        while i < nf
            invariant
                nf == self.fields@.len(),
                i <= nf,
                pairs_view(pairs@) =~= head + strings_view(self.fields@.take(i as int)).map_values(
                    |f: Seq<char>| ("fl[]"@, f),
                ),
            decreases nf - i,
        {
            let ghost before = pairs@;
            pairs.push(("fl[]".to_owned(), self.fields[i].clone()));
            assert(self.fields@.take(i + 1) =~= self.fields@.take(i as int).push(
                self.fields@[i as int],
            ));
            assert(pairs_view(pairs@) =~= pairs_view(before).push(
                ("fl[]"@, self.fields@[i as int]@),
            ));
            assert(strings_view(self.fields@.take(i + 1)).map_values(|f: Seq<char>| ("fl[]"@, f))
                =~= strings_view(self.fields@.take(i as int)).map_values(
                |f: Seq<char>| ("fl[]"@, f),
            ).push(("fl[]"@, self.fields@[i as int]@)));
            i = i + 1;
        }
        assert(self.fields@.take(nf as int) =~= self.fields@);
        let ghost after_fields = pairs_view(pairs@);
        if let Some(rows) = self.rows {
            pairs.push(("rows".to_owned(), u64_to_decimal(rows as u64)));
        }
        let ghost rows_part = match self@.rows {
            Some(n) => seq![("rows"@, decimal(n as nat))],
            None => Seq::<(Seq<char>, Seq<char>)>::empty(),
        };
        assert(pairs_view(pairs@) =~= after_fields + rows_part);
        let ghost after_rows = pairs_view(pairs@);
        if let Some(page) = self.page {
            pairs.push(("page".to_owned(), u64_to_decimal(page as u64)));
        }
        let ghost page_part = match self@.page {
            Some(n) => seq![("page"@, decimal(n as nat))],
            None => Seq::<(Seq<char>, Seq<char>)>::empty(),
        };
        assert(pairs_view(pairs@) =~= after_rows + page_part);
        let ghost after_page = pairs_view(pairs@);
        let ns = self.sorts.len();
        let mut j: usize = 0;
        while j < ns
            invariant
                ns == self.sorts@.len(),
                j <= ns,
                pairs_view(pairs@) =~= after_page + sorts_view(self.sorts@.take(j as int)).map_values(
                    |s: (Seq<char>, SortDirection)| ("sort[]"@, sort_param(s.0, s.1)),
                ),
            decreases ns - j,
        {
            let ghost before = pairs@;
            let param = self.sorts[j].as_param();
            pairs.push(("sort[]".to_owned(), param));
            assert(self.sorts@.take(j + 1) =~= self.sorts@.take(j as int).push(
                self.sorts@[j as int],
            ));
            assert(pairs_view(pairs@) =~= pairs_view(before).push(("sort[]"@, param@)));
            assert(sorts_view(self.sorts@.take(j + 1)).map_values(
                |s: (Seq<char>, SortDirection)| ("sort[]"@, sort_param(s.0, s.1)),
            ) =~= sorts_view(self.sorts@.take(j as int)).map_values(
                |s: (Seq<char>, SortDirection)| ("sort[]"@, sort_param(s.0, s.1)),
            ).push(("sort[]"@, param@)));
            j = j + 1;
        }
        assert(self.sorts@.take(ns as int) =~= self.sorts@);
        let ghost after_sorts = pairs_view(pairs@);
        let extras = self.extra_params.entries();
        let ne = extras.len();
        let mut k: usize = 0;
        while k < ne
            invariant
                ne == extras@.len(),
                k <= ne,
                pairs_view(pairs@) =~= after_sorts + pairs_view(extras@.take(k as int)),
            decreases ne - k,
        {
            let ghost before = pairs@;
            let (key, value) = &extras[k];
            pairs.push((key.clone(), value.clone()));
            assert(extras@.take(k + 1) =~= extras@.take(k as int).push(extras@[k as int]));
            assert(pairs_view(pairs@) =~= pairs_view(before).push((key@, value@)));
            assert(pairs_view(extras@.take(k + 1)) =~= pairs_view(extras@.take(k as int)).push(
                (key@, value@),
            ));
            k = k + 1;
        }
        assert(extras@.take(ne as int) =~= extras@);
        proof {
            let e = pairs_view(extras@);
            lemma_ordered_entries(extras@);
            assert(pairs_view(pairs@) =~= search_pairs(self@, e));
        }
        pairs
    }

    /// Encodes the query onto a search endpoint URL: the parameters of
    /// [`Self::query_pairs`] are appended to its query, form-encoded.
    pub fn into_url(&self, url: &str) -> (r: Result<String, UrlParseError>)
        ensures
            match r {
                Ok(s) => url_parse(url@) is Ok && exists|e: Seq<(Seq<char>, Seq<char>)>|
                    ordered_entries_of(e, self@.extra_params) && s@ == url_with_query_pairs(
                        url@,
                        search_pairs(self@, e),
                    ),
                Err(err) => url_parse(url@) == Err::<Seq<char>, UrlParseError>(err),
            },
    {
        let pairs = self.query_pairs();
        extend_url_query(url, &pairs)
    }
}

proof fn lemma_ordered_entries(s: Seq<(String, String)>)
    requires
        sorted_keys(s),
    ensures
        ordered_entries_of(pairs_view(s), entries_map(s)),
{
    let e = pairs_view(s);
    let m = entries_map(s);
    assert forall|k: Seq<char>| #[trigger] m.contains_key(k) implies exists|i: int|
        0 <= i < e.len() && #[trigger] e[i].0 == k by {
        let i = crate::strmap::key_index(s, k);
        assert(e[i].0 == k);
    }
    assert forall|i: int| 0 <= i < e.len() implies m[#[trigger] e[i].0] == e[i].1 by {
        crate::strmap::lemma_entries_map_at(s, i);
    }
    assert forall|i: int| 0 <= i < e.len() implies m.contains_key(#[trigger] e[i].0) by {
        crate::strmap::lemma_entries_map_at(s, i);
    }
}

/// Builder for [`SearchQuery`].
pub struct SearchQueryBuilder {
    inner: SearchQuery,
}

impl View for SearchQueryBuilder {
    type V = SearchQueryView;

    closed spec fn view(&self) -> SearchQueryView {
        self.inner@
    }
}

impl SearchQueryBuilder {
    /// Adds a field to the response.
    pub fn field(self, field: &str) -> (r: Self)
        ensures
            r@ == (SearchQueryView { fields: self@.fields.push(field@), ..self@ }),
    {
        let SearchQueryBuilder { inner } = self;
        proof {
            use_type_invariant(&inner);
        }
        let SearchQuery { query, fields, rows, page, sorts, extra_params } = inner;
        let mut fields = fields;
        let ghost before = fields@;
        fields.push(field.to_owned());
        assert(strings_view(fields@) =~= strings_view(before).push(field@));
        SearchQueryBuilder { inner: SearchQuery { query, fields, rows, page, sorts, extra_params } }
    }

    /// Sets the page size.
    pub fn rows(self, rows: u32) -> (r: Self)
        ensures
            r@ == (SearchQueryView { rows: Some(rows), ..self@ }),
    {
        let SearchQueryBuilder { inner } = self;
        proof {
            use_type_invariant(&inner);
        }
        let SearchQuery { query, fields, rows: _, page, sorts, extra_params } = inner;
        SearchQueryBuilder {
            inner: SearchQuery { query, fields, rows: Some(rows), page, sorts, extra_params },
        }
    }

    /// Sets the page number.
    pub fn page(self, page: u32) -> (r: Self)
        ensures
            r@ == (SearchQueryView { page: Some(page), ..self@ }),
    {
        let SearchQueryBuilder { inner } = self;
        proof {
            use_type_invariant(&inner);
        }
        let SearchQuery { query, fields, rows, page: _, sorts, extra_params } = inner;
        SearchQueryBuilder {
            inner: SearchQuery { query, fields, rows, page: Some(page), sorts, extra_params },
        }
    }

    /// Adds a sort clause.
    pub fn sort(self, field: &str, direction: SortDirection) -> (r: Self)
        ensures
            r@ == (SearchQueryView { sorts: self@.sorts.push((field@, direction)), ..self@ }),
    {
        let SearchQueryBuilder { inner } = self;
        proof {
            use_type_invariant(&inner);
        }
        let SearchQuery { query, fields, rows, page, sorts, extra_params } = inner;
        let mut sorts = sorts;
        let ghost before = sorts@;
        sorts.push(SearchSort::new(field, direction));
        assert(sorts_view(sorts@) =~= sorts_view(before).push((field@, direction)));
        SearchQueryBuilder { inner: SearchQuery { query, fields, rows, page, sorts, extra_params } }
    }

    /// Sets a raw extra query parameter, replacing an earlier one with the same key.
    pub fn extra_param(self, key: &str, value: &str) -> (r: Self)
        ensures
            r@ == (SearchQueryView {
                extra_params: self@.extra_params.insert(key@, value@),
                ..self@
            }),
    {
        let SearchQueryBuilder { inner } = self;
        proof {
            use_type_invariant(&inner);
        }
        let SearchQuery { query, fields, rows, page, sorts, extra_params } = inner;
        let mut extra_params = extra_params;
        extra_params.insert(key.to_owned(), value.to_owned());
        SearchQueryBuilder { inner: SearchQuery { query, fields, rows, page, sorts, extra_params } }
    }

    /// Builds the query.
    pub fn build(self) -> (r: SearchQuery)
        ensures
            r@ == self@,
    {
        self.inner
    }
}

} // verus!
