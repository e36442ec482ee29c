//! Gathering the full-size image addresses of paginated collections.
//!
//! The collector decides which pages to ask for and what each answer adds
//! to the result. It does not reach the network itself: the caller hands it
//! `fetch`, which is given the address of a page and returns the body of the
//! response, or `None` where the request failed. Each page is asked for
//! once, collection by collection and, within a collection, page by page.
//! Pages are numbered from zero. A page whose request failed, or whose body
//! is not a page of photo records, adds nothing and stops nothing.

use crate::json::json_text;
use crate::json::Json;
use crate::json::JsonTree;
use crate::schema::full_urls;
use crate::schema::full_urls_of;
use crate::schema::lemma_records_carry_page_urls;
use crate::schema::page_full_urls;
use crate::schema::page_mirrors;
use crate::schema::read_page;
use crate::schema::WelcomeElement;
use crate::text::decimal;
use crate::text::decimal_string;
use crate::text::lemma_decimal_injective;
use vstd::prelude::*;

verus! {

/// The addresses that the body of one response carries; `None` where the
/// body is not JSON or is not a page of photo records.
pub open spec fn body_urls(body: Seq<char>) -> Option<Seq<Seq<char>>> {
    match json_text(body) {
        Some(doc) => page_full_urls(doc),
        None => None,
    }
}

/// Why a page gave no addresses.
#[derive(Debug, Clone, Copy, PartialEq, Eq, Structural)]
pub enum PageError {
    /// The request failed or was answered with a failure status.
    Transport,
    /// The body is not JSON, or is JSON but not a page of photo records.
    Decode,
}

/// What one answer comes to, an answer being the body of the response or
/// `None` for a failed request: the addresses that it carries, or why it
/// carries none.
pub open spec fn answer_urls(answer: Option<Seq<char>>) -> Result<Seq<Seq<char>>, PageError> {
    match answer {
        Some(body) => match body_urls(body) {
            Some(urls) => Ok(urls),
            None => Err(PageError::Decode),
        },
        None => Err(PageError::Transport),
    }
}

/// What one answer adds to the result: its addresses, or nothing.
pub open spec fn page_yield(answer: Option<Seq<char>>) -> Seq<Seq<char>> {
    match answer_urls(answer) {
        Ok(urls) => urls,
        Err(_) => Seq::empty(),
    }
}

/// What reading a page returned, with the addresses as sequences of
/// characters.
pub open spec fn found_view(found: Result<Vec<String>, PageError>) -> Result<
    Seq<Seq<char>>,
    PageError,
> {
    match found {
        Ok(urls) => Ok(urls.deep_view()),
        Err(e) => Err(e),
    }
}

/// What a run of answers adds up to: the yield of each, joined in the
/// order of the answers.
pub open spec fn gathered(answers: Seq<Option<Seq<char>>>) -> Seq<Seq<char>>
    decreases answers.len(),
{
    if answers.len() == 0 {
        Seq::empty()
    } else {
        gathered(answers.drop_last()) + page_yield(answers.last())
    }
}

/// Whether `answer` is something that `fetch` may return for the address
/// `url`.
pub open spec fn fetch_gave<F: Fn(&str) -> Option<String>>(
    fetch: F,
    url: Seq<char>,
    answer: Option<Seq<char>>,
) -> bool {
    exists|u: &str, r: Option<String>|
        u@ == url && #[trigger] call_ensures(fetch, (u,), r) && r.deep_view() == answer
}

/// The full-size addresses of a page document, one for each record and in
/// the order of the records; `None` where `doc` is not a page of photo
/// records.
pub fn page_urls(doc: &Json) -> (r: Option<Vec<String>>)
    ensures
        r.deep_view() == page_full_urls(doc@),
{
    match read_page(doc) {
        Some(records) => {
            proof {
                lemma_records_carry_page_urls(records@, doc@);
            }
            Some(full_urls(&records))
        },
        None => None,
    }
}

/// The full-size addresses that the body of a response carries; `None`
/// where the body is not JSON or is not a page of photo records.
pub fn read_body(body: &str) -> (r: Option<Vec<String>>)
    ensures
        r.deep_view() == body_urls(body@),
{
    match Json::parse(body) {
        Some(doc) => page_urls(&doc),
        None => None,
    }
}

/// Answers joined end to end add up to what each run adds up to, joined.
pub proof fn lemma_gathered_concat(a: Seq<Option<Seq<char>>>, b: Seq<Option<Seq<char>>>)
    ensures
        gathered(a + b) == gathered(a) + gathered(b),
    decreases b.len(),
{
    if b.len() == 0 {
        assert(a + b =~= a);
        assert(gathered(a) + gathered(b) =~= gathered(a));
    } else {
        assert((a + b).drop_last() =~= a + b.drop_last());
        assert((a + b).last() == b.last());
        lemma_gathered_concat(a, b.drop_last());
        assert(gathered(a + b) =~= gathered(a) + gathered(b));
    }
}

/// The addresses of every page stand together in the result, after those of
/// all earlier pages and before those of all later ones.
pub proof fn lemma_gathered_split(answers: Seq<Option<Seq<char>>>, k: int)
    requires
        0 <= k < answers.len(),
    ensures
        gathered(answers) == gathered(answers.take(k)) + page_yield(answers[k]) + gathered(
            answers.skip(k + 1),
        ),
{
    let head = answers.take(k + 1);
    let tail = answers.skip(k + 1);
    assert(answers =~= head + tail);
    lemma_gathered_concat(head, tail);
    assert(head.drop_last() =~= answers.take(k));
    assert(head.last() == answers[k]);
}

/// Where each address stands in the result: record `r` of answer `k` stands
/// `r` places after the addresses of all earlier answers.
pub proof fn lemma_gathered_place(answers: Seq<Option<Seq<char>>>, k: int, r: int)
    requires
        0 <= k < answers.len(),
        0 <= r < page_yield(answers[k]).len(),
    ensures
        gathered(answers.take(k)).len() + r < gathered(answers).len(),
        gathered(answers)[gathered(answers.take(k)).len() + r] == page_yield(answers[k])[r],
{
    lemma_gathered_split(answers, k);
}

/// The addresses of an earlier answer all stand before those of a later
/// one.
pub proof fn lemma_gathered_in_order(answers: Seq<Option<Seq<char>>>, j: int, k: int)
    requires
        0 <= j < k <= answers.len(),
    ensures
        gathered(answers.take(j)).len() + page_yield(answers[j]).len() <= gathered(
            answers.take(k),
        ).len(),
{
    let upto = answers.take(k);
    lemma_gathered_split(upto, j);
    assert(upto.take(j) =~= answers.take(j));
    assert(upto[j] == answers[j]);
}

/// A page whose request failed, or whose body could not be read, takes
/// nothing away from the others: the result is what the remaining answers
/// alone add up to, in their order.
pub proof fn lemma_failed_page_adds_nothing(answers: Seq<Option<Seq<char>>>, k: int)
    requires
        0 <= k < answers.len(),
        answer_urls(answers[k]) is Err,
    ensures
        gathered(answers) == gathered(answers.remove(k)),
{
    lemma_gathered_split(answers, k);
    assert(answers.remove(k) =~= answers.take(k) + answers.skip(k + 1));
    lemma_gathered_concat(answers.take(k), answers.skip(k + 1));
    assert(gathered(answers.take(k)) + page_yield(answers[k]) =~= gathered(answers.take(k)));
}

/// Where no page yields more than `page_size` addresses, the result holds
/// at most `page_size` addresses for each answer.
pub proof fn lemma_gathered_len_bound(answers: Seq<Option<Seq<char>>>, page_size: nat)
    requires
        forall|k: int| 0 <= k < answers.len() ==> page_yield(#[trigger] answers[k]).len() <= page_size,
    ensures
        gathered(answers).len() <= answers.len() * page_size,
    decreases answers.len(),
{
    if answers.len() > 0 {
        let front = answers.drop_last();
        assert forall|k: int| 0 <= k < front.len() implies page_yield(#[trigger] front[k]).len()
            <= page_size by {
            assert(front[k] == answers[k]);
        }
        lemma_gathered_len_bound(front, page_size);
        assert(page_yield(answers.last()).len() <= page_size);
        assert(answers.len() * page_size == front.len() * page_size + page_size)
            by (nonlinear_arith)
            requires
                answers.len() == front.len() + 1,
        ;
    }
}

/// One well-formed page with `records.len()` records yields exactly that
/// many addresses: the `urls.full` member of each record, in the order of
/// the records.
pub proof fn lemma_page_round_trip(
    body: Seq<char>,
    doc: JsonTree,
    records: Seq<WelcomeElement>,
)
    requires
        json_text(body) == Some(doc),
        page_mirrors(records, doc),
    ensures
        gathered(seq![Some(body)]) == full_urls_of(records),
        gathered(seq![Some(body)]).len() == records.len(),
        forall|i: int|
            0 <= i < records.len() ==> gathered(seq![Some(body)])[i] == records[i].urls.full@,
{
    lemma_records_carry_page_urls(records, doc);
    let one = seq![Some(body)];
    assert(one.drop_last() =~= Seq::<Option<Seq<char>>>::empty());
    assert(gathered(one.drop_last()) =~= Seq::<Seq<char>>::empty());
    assert(one.last() == Some(body));
    assert(gathered(one) =~= full_urls_of(records));
}

/// A client of one platform: where its interface lives and the key that
/// it is asked with.
#[derive(Debug)]
pub struct Unsplash<'a> {
    access_key: &'a str,
    base_api: &'a str,
}

impl<'a> Unsplash<'a> {
    /// The access key.
    pub closed spec fn key(&self) -> Seq<char> {
        self.access_key@
    }

    /// The base address of the interface.
    pub closed spec fn base(&self) -> Seq<char> {
        self.base_api@
    }

    /// A client that asks `base_api` with the key `access_key`.
    pub fn new(access_key: &'a str, base_api: &'a str) -> (r: Unsplash<'a>)
        ensures
            r.key() == access_key@,
            r.base() == base_api@,
    {
        Unsplash { access_key, base_api }
    }

    /// The address of page `page` of the collection `collection_id`.
    pub open spec fn request_url(&self, collection_id: Seq<char>, page: nat) -> Seq<char> {
        self.base() + "/collections/"@ + collection_id + "/photos/?client_id="@ + self.key()
            + "&page="@ + decimal(page)
    }

    /// The addresses of the first `pages` pages of one collection.
    pub open spec fn collection_requests(&self, collection_id: Seq<char>, pages: nat) -> Seq<
        Seq<char>,
    > {
        Seq::new(pages, |p: int| self.request_url(collection_id, p as nat))
    }

    /// Every address that a run asks for, in the order of asking: the
    /// collections in the given order and, for each, its pages from zero up.
    pub open spec fn requests(&self, collection_ids: Seq<&str>, pages: nat) -> Seq<Seq<char>>
        decreases collection_ids.len(),
    {
        if collection_ids.len() == 0 {
            Seq::empty()
        } else {
            self.requests(collection_ids.drop_last(), pages) + self.collection_requests(
                collection_ids.last()@,
                pages,
            )
        }
    }

    /// Whether `urls` is what a run over `collection_ids` gathers when
    /// `fetch` answers as it may: there is one answer for each request, each
    /// answer is one that `fetch` may give for the address asked, and `urls`
    /// is what those answers add up to.
    pub open spec fn collected<F: Fn(&str) -> Option<String>>(
        &self,
        collection_ids: Seq<&str>,
        pages: nat,
        fetch: F,
        urls: Seq<Seq<char>>,
    ) -> bool {
        exists|answers: Seq<Option<Seq<char>>>|
            #![trigger gathered(answers)]
            {
                &&& self.answered(collection_ids, pages, fetch, answers)
                &&& urls == gathered(answers)
            }
    }

    /// Whether `answers` holds, request by request, something that `fetch`
    /// may return for the address asked.
    pub open spec fn answered<F: Fn(&str) -> Option<String>>(
        &self,
        collection_ids: Seq<&str>,
        pages: nat,
        fetch: F,
        answers: Seq<Option<Seq<char>>>,
    ) -> bool {
        &&& answers.len() == self.requests(collection_ids, pages).len()
        &&& forall|k: int|
            0 <= k < answers.len() ==> fetch_gave(
                fetch,
                self.requests(collection_ids, pages)[k],
                #[trigger] answers[k],
            )
    }

    /// Builds the address of one page.
    pub fn page_url(&self, collection_id: &str, page: usize) -> (url: String)
        ensures
            url@ == self.request_url(collection_id@, page as nat),
    {
        let number = decimal_string(page);
        let mut url = String::from_str(self.base_api);
        url.append("/collections/");
        url.append(collection_id);
        url.append("/photos/?client_id=");
        url.append(self.access_key);
        url.append("&page=");
        url.append(number.as_str());
        url
    }

    /// Every address that a run asks for, in the order of asking.
    pub fn page_requests(&self, collection_ids: &[&str], pages: usize) -> (urls: Vec<String>)
        ensures
            urls.deep_view() == self.requests(collection_ids@, pages as nat),
    {
        let mut urls: Vec<String> = Vec::new();
        let mut c: usize = 0;
        assert(collection_ids@.take(0) =~= Seq::<&str>::empty());
        while c < collection_ids.len()
            invariant
                c <= collection_ids@.len(),
                urls.deep_view() == self.requests(collection_ids@.take(c as int), pages as nat),
            decreases collection_ids@.len() - c,
        {
            let id = collection_ids[c];
            let ghost before = urls.deep_view();
            let mut page: usize = 0;
            while page < pages
                invariant
                    page <= pages,
                    urls.deep_view() == before + self.collection_requests(id@, pages as nat).take(
                        page as int,
                    ),
                decreases pages - page,
            {
                let ghost row = self.collection_requests(id@, pages as nat);
                let ghost earlier = urls.deep_view();
                let url = self.page_url(id, page);
                urls.push(url);
                assert(urls.deep_view() =~= earlier.push(row[page as int]));
                assert(row.take(page + 1) =~= row.take(page as int).push(row[page as int]));
                page += 1;
            }
            proof {
                let row = self.collection_requests(id@, pages as nat);
                assert(row.take(pages as int) =~= row);
                assert(collection_ids@.take(c + 1).drop_last() =~= collection_ids@.take(c as int));
                assert(collection_ids@.take(c + 1).last() == id);
            }
            c += 1;
        }
        assert(collection_ids@.take(collection_ids@.len() as int) =~= collection_ids@);
        urls
    }

    /// Asks for one page and reads the full-size addresses out of the
    /// answer. The error tells a failed request from a body that is not a
    /// page of photo records.
    pub fn extract_image_url<F: Fn(&str) -> Option<String>>(&self, api_url: &str, fetch: &F) -> (r:
        Result<Vec<String>, PageError>)
        requires
            call_requires(*fetch, (api_url,)),
        ensures
            exists|answer: Option<Seq<char>>|
                #![trigger answer_urls(answer)]
                fetch_gave(*fetch, api_url@, answer) && found_view(r) == answer_urls(answer),
    {
        let response = fetch(api_url);
        assert(fetch_gave(*fetch, api_url@, response.deep_view())) by {
            assert(call_ensures(*fetch, (api_url,), response));
        }
        let r = match response {
            Some(body) => match read_body(body.as_str()) {
                Some(urls) => Ok(urls),
                None => Err(PageError::Decode),
            },
            None => Err(PageError::Transport),
        };
        assert(found_view(r) == answer_urls(response.deep_view()));
        r
    }

    /// Gathers the full-size addresses of the first `pages` pages of each
    /// collection, in the order collection, page, record. `fetch` is called
    /// once for each page, with the address of the page.
    pub fn collect_urls<F: Fn(&str) -> Option<String>>(
        &self,
        collection_ids: &[&str],
        pages: usize,
        fetch: F,
    ) -> (urls: Vec<String>)
        requires
            forall|u: &str| call_requires(fetch, (u,)),
        ensures
            self.collected(collection_ids@, pages as nat, fetch, urls.deep_view()),
    {
        let mut urls: Vec<String> = Vec::new();
        let ghost mut answers: Seq<Option<Seq<char>>> = Seq::empty();
        let mut c: usize = 0;
        assert(collection_ids@.take(0) =~= Seq::<&str>::empty());
        assert(urls.deep_view() =~= gathered(answers));
        while c < collection_ids.len()
            invariant
                c <= collection_ids@.len(),
                forall|u: &str| call_requires(fetch, (u,)),
                self.answered(collection_ids@.take(c as int), pages as nat, fetch, answers),
                urls.deep_view() == gathered(answers),
            decreases collection_ids@.len() - c,
        {
            let id = collection_ids[c];
            let ghost earlier = self.requests(collection_ids@.take(c as int), pages as nat);
            let ghost row = self.collection_requests(id@, pages as nat);
            let mut page: usize = 0;
            while page < pages
                invariant
                    page <= pages,
                    forall|u: &str| call_requires(fetch, (u,)),
                    row == self.collection_requests(id@, pages as nat),
                    answers.len() == earlier.len() + page,
                    forall|k: int|
                        0 <= k < answers.len() ==> fetch_gave(
                            fetch,
                            (earlier + row)[k],
                            #[trigger] answers[k],
                        ),
                    urls.deep_view() == gathered(answers),
                decreases pages - page,
            {
                let api_url = self.page_url(id, page);
                let found = self.extract_image_url(api_url.as_str(), &fetch);
                proof {
                    let answer = choose|answer: Option<Seq<char>>|
                        #![trigger answer_urls(answer)]
                        fetch_gave(fetch, api_url@, answer) && found_view(found) == answer_urls(
                            answer,
                        );
                    let longer = answers.push(answer);
                    assert(longer.drop_last() =~= answers);
                    assert((earlier + row)[answers.len() as int] == api_url@);
                    answers = longer;
                }
                let ghost before = urls.deep_view();
                match found {
                    Ok(mut page_urls) => {
                        let ghost added = page_urls.deep_view();
                        urls.append(&mut page_urls);
                        assert(urls.deep_view() =~= before + added);
                    },
                    Err(_) => {
                        assert(before + Seq::<Seq<char>>::empty() =~= before);
                    },
                }
                page += 1;
            }
            proof {
                assert(collection_ids@.take(c + 1).drop_last() =~= collection_ids@.take(c as int));
                assert(collection_ids@.take(c + 1).last() == id);
            }
            c += 1;
        }
        assert(collection_ids@.take(collection_ids@.len() as int) =~= collection_ids@);
        urls
    }
    /// Different pages of one collection have different addresses.
    pub proof fn lemma_pages_differ(&self, collection_id: Seq<char>, p: nat, q: nat)
        requires
            p != q,
        ensures
            self.request_url(collection_id, p) != self.request_url(collection_id, q),
    {
        if self.request_url(collection_id, p) == self.request_url(collection_id, q) {
            let head = self.base() + "/collections/"@ + collection_id + "/photos/?client_id="@
                + self.key() + "&page="@;
            let a = head + decimal(p);
            let b = head + decimal(q);
            assert(decimal(p) =~= a.subrange(head.len() as int, a.len() as int));
            assert(decimal(q) =~= b.subrange(head.len() as int, b.len() as int));
            lemma_decimal_injective(p, q);
        }
    }

    /// A run asks for `pages` pages of each collection: as many requests
    /// as there are collections, times `pages`.
    pub proof fn lemma_requests_len(&self, collection_ids: Seq<&str>, pages: nat)
        ensures
            self.requests(collection_ids, pages).len() == collection_ids.len() * pages,
        decreases collection_ids.len(),
    {
        if collection_ids.len() > 0 {
            let front = collection_ids.drop_last();
            self.lemma_requests_len(front, pages);
            assert(collection_ids.len() * pages == front.len() * pages + pages)
                by (nonlinear_arith)
                requires
                    collection_ids.len() == front.len() + 1,
            ;
        } else {
            assert(collection_ids.len() * pages == 0) by (nonlinear_arith)
                requires
                    collection_ids.len() == 0,
            ;
        }
    }

    /// The requests go collection by collection and, within a collection,
    /// page by page from zero: page `p` of collection `c` is request number
    /// `c * pages + p`.
    pub proof fn lemma_request_at(&self, collection_ids: Seq<&str>, pages: nat, c: int, p: int)
        requires
            0 <= c < collection_ids.len(),
            0 <= p < pages,
        ensures
            0 <= c * pages + p < self.requests(collection_ids, pages).len(),
            self.requests(collection_ids, pages)[c * pages + p] == self.request_url(
                collection_ids[c]@,
                p as nat,
            ),
        decreases collection_ids.len(),
    {
        let front = collection_ids.drop_last();
        let row = self.collection_requests(collection_ids.last()@, pages);
        self.lemma_requests_len(front, pages);
        self.lemma_requests_len(collection_ids, pages);
        assert(0 <= c * pages) by (nonlinear_arith)
            requires
                0 <= c,
                0 <= pages,
        ;
        if c == collection_ids.len() - 1 {
            assert(c * pages == front.len() * pages);
            assert((self.requests(front, pages) + row)[c * pages + p] == row[p]);
        } else {
            self.lemma_request_at(front, pages, c, p);
            assert(front[c] == collection_ids[c]);
            assert(c * pages + p < front.len() * pages) by (nonlinear_arith)
                requires
                    0 <= c < front.len(),
                    0 <= p < pages,
            ;
        }
        assert(c * pages + p < collection_ids.len() * pages) by (nonlinear_arith)
            requires
                0 <= c < collection_ids.len(),
                0 <= p < pages,
        ;
    }

    /// The result never holds more than one page's worth of addresses for
    /// each request: where no answer of `fetch` yields more than `page_size`
    /// addresses, at most `collection_ids.len() * pages * page_size`.
    pub proof fn lemma_collected_len_bound<F: Fn(&str) -> Option<String>>(
        &self,
        collection_ids: Seq<&str>,
        pages: nat,
        fetch: F,
        urls: Seq<Seq<char>>,
        page_size: nat,
    )
        requires
            self.collected(collection_ids, pages, fetch, urls),
            forall|url: Seq<char>, answer: Option<Seq<char>>| #[trigger]
                fetch_gave(fetch, url, answer) ==> page_yield(answer).len() <= page_size,
        ensures
            urls.len() <= collection_ids.len() * pages * page_size,
    {
        let answers = choose|answers: Seq<Option<Seq<char>>>|
            #![trigger gathered(answers)]
            self.answered(collection_ids, pages, fetch, answers) && urls == gathered(answers);
        assert forall|k: int| 0 <= k < answers.len() implies page_yield(
            #[trigger] answers[k],
        ).len() <= page_size by {
            assert(fetch_gave(fetch, self.requests(collection_ids, pages)[k], answers[k]));
        }
        lemma_gathered_len_bound(answers, page_size);
        self.lemma_requests_len(collection_ids, pages);
    }

    /// Where every request fails, the result is empty.
    pub proof fn lemma_collected_nothing<F: Fn(&str) -> Option<String>>(
        &self,
        collection_ids: Seq<&str>,
        pages: nat,
        fetch: F,
        urls: Seq<Seq<char>>,
    )
        requires
            self.collected(collection_ids, pages, fetch, urls),
            forall|url: Seq<char>, answer: Option<Seq<char>>| #[trigger]
                fetch_gave(fetch, url, answer) ==> answer is None,
        ensures
            urls.len() == 0,
    {
        self.lemma_collected_len_bound(collection_ids, pages, fetch, urls, 0);
        assert(collection_ids.len() * pages * 0 == 0) by (nonlinear_arith);
    }

    /// Two runs over the same collections and pages gather the same
    /// addresses in the same order, where `fetch` has one answer only for
    /// each address.
    pub proof fn lemma_collected_again<F: Fn(&str) -> Option<String>>(
        &self,
        collection_ids: Seq<&str>,
        pages: nat,
        fetch: F,
        first: Seq<Seq<char>>,
        second: Seq<Seq<char>>,
    )
        requires
            self.collected(collection_ids, pages, fetch, first),
            self.collected(collection_ids, pages, fetch, second),
            forall|url: Seq<char>, a: Option<Seq<char>>, b: Option<Seq<char>>|
                #[trigger] fetch_gave(fetch, url, a) && #[trigger] fetch_gave(fetch, url, b) ==> a
                    == b,
        ensures
            first == second,
    {
        let a = choose|answers: Seq<Option<Seq<char>>>|
            #![trigger gathered(answers)]
            self.answered(collection_ids, pages, fetch, answers) && first == gathered(answers);
        let b = choose|answers: Seq<Option<Seq<char>>>|
            #![trigger gathered(answers)]
            self.answered(collection_ids, pages, fetch, answers) && second == gathered(answers);
        assert forall|k: int| 0 <= k < a.len() implies a[k] == b[k] by {
            assert(fetch_gave(fetch, self.requests(collection_ids, pages)[k], a[k]));
            assert(fetch_gave(fetch, self.requests(collection_ids, pages)[k], b[k]));
        }
        assert(a =~= b);
    }
}

} // verus!
