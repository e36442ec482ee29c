//! Downloading a list of images into numbered files.
//!
//! The downloader decides, item by item, what to ask for, where the bytes
//! go and what the outcome is. It reaches neither the network nor the disk
//! itself: the caller hands it `fetch`, which is given an address and
//! returns the body of the response, and `store`, which is given the path
//! of a file and the bytes to put there. Item `i` of the list goes to
//! `{prefix}/{i}.png`, counting from zero; the extension is `.png` whatever
//! the bytes are. A failure ends the item, never the run. The directory must
//! exist, what a file held before is replaced, and `store` is expected to
//! leave no file behind where it fails.

use crate::text::decimal;
use crate::text::lemma_decimal_injective;
use crate::text::decimal_string;
use vstd::prelude::*;

verus! {

/// Why a fetch brought no body.
#[derive(Debug, Clone, Copy, PartialEq, Eq, Structural)]
pub enum FetchError {
    /// The request failed or was answered with a failure status.
    Network,
    /// A response came but its body could not be read.
    Decode,
}

/// What became of one item of the list.
#[derive(Debug, PartialEq, Eq)]
pub enum DownloadResult {
    /// The whole body, `bytes` bytes long, was put into the file at `path`.
    Written { path: String, bytes: usize },
    /// No data downloaded: the fetch failed, and no file was asked for.
    NoData { error: FetchError },
    /// The body came but the file at `path` could not be made or filled.
    FileError { path: String, reason: String },
}

/// A [`DownloadResult`] as a mathematical value.
pub ghost enum Outcome {
    Written { path: Seq<char>, bytes: nat },
    NoData { error: FetchError },
    FileError { path: Seq<char>, reason: Seq<char> },
}

impl View for DownloadResult {
    type V = Outcome;

    open spec fn view(&self) -> Outcome {
        match self {
            DownloadResult::Written { path, bytes } => Outcome::Written {
                path: path@,
                bytes: *bytes as nat,
            },
            DownloadResult::NoData { error } => Outcome::NoData { error: *error },
            DownloadResult::FileError { path, reason } => Outcome::FileError {
                path: path@,
                reason: reason@,
            },
        }
    }
}

impl DeepView for DownloadResult {
    type V = Outcome;

    open spec fn deep_view(&self) -> Outcome {
        self@
    }
}

/// The path of the file for item `i` under the directory `prefix`.
pub open spec fn file_name(prefix: Seq<char>, i: nat) -> Seq<char> {
    prefix + "/"@ + decimal(i) + ".png"@
}

/// Within one directory, different items have different files.
pub proof fn lemma_files_differ(prefix: Seq<char>, i: nat, j: nat)
    requires
        i != j,
    ensures
        file_name(prefix, i) != file_name(prefix, j),
{
    if file_name(prefix, i) == file_name(prefix, j) {
        let head = prefix + "/"@;
        let tail = ".png"@;
        let a = head + decimal(i) + tail;
        let b = head + decimal(j) + tail;
        assert(a.len() == b.len());
        assert(decimal(i) =~= a.subrange(head.len() as int, a.len() - tail.len()));
        assert(decimal(j) =~= b.subrange(head.len() as int, b.len() - tail.len()));
        lemma_decimal_injective(i, j);
    }
}

/// What a fetch returned, with the body as a sequence of bytes.
pub open spec fn fetched_view(fetched: Result<Vec<u8>, FetchError>) -> Result<Seq<u8>, FetchError> {
    match fetched {
        Ok(body) => Ok(body@),
        Err(e) => Err(e),
    }
}

/// What a store returned, with the reason of a failure as a sequence of
/// characters.
pub open spec fn stored_view(stored: Result<(), String>) -> Result<(), Seq<char>> {
    match stored {
        Ok(_) => Ok(()),
        Err(why) => Err(why@),
    }
}

/// The outcome of an item whose file is `path`, given what the fetch
/// returned and, where it returned a body, what the store returned.
pub open spec fn settled(
    path: Seq<char>,
    fetched: Result<Seq<u8>, FetchError>,
    stored: Result<(), Seq<char>>,
) -> Outcome {
    match fetched {
        Err(error) => Outcome::NoData { error },
        Ok(body) => match stored {
            Ok(_) => Outcome::Written { path, bytes: body.len() },
            Err(reason) => Outcome::FileError { path, reason },
        },
    }
}

/// Whether `fetched` is something that `fetch` may return for the address
/// `url`.
pub open spec fn fetch_gave<F: Fn(&str) -> Result<Vec<u8>, FetchError>>(
    fetch: F,
    url: Seq<char>,
    fetched: Result<Seq<u8>, FetchError>,
) -> bool {
    exists|u: &str, r: Result<Vec<u8>, FetchError>|
        u@ == url && #[trigger] call_ensures(fetch, (u,), r) && fetched_view(r) == fetched
}

/// Whether `stored` is something that `store` may return when asked to put
/// `body` into the file at `path`.
pub open spec fn store_gave<W: Fn(&str, &[u8]) -> Result<(), String>>(
    store: W,
    path: Seq<char>,
    body: Seq<u8>,
    stored: Result<(), Seq<char>>,
) -> bool {
    exists|p: &str, b: &[u8], r: Result<(), String>|
        p@ == path && b@ == body && #[trigger] call_ensures(store, (p, b), r) && stored_view(r)
            == stored
}

/// A list of addresses to download and the directory that the files go to.
pub struct Downloader<'a> {
    path_prefix: &'a str,
    urls: Vec<&'a str>,
}

impl<'a> Downloader<'a> {
    /// The directory that the files go to.
    pub closed spec fn prefix(&self) -> Seq<char> {
        self.path_prefix@
    }

    /// The addresses to download, in order.
    pub closed spec fn targets(&self) -> Seq<Seq<char>> {
        Seq::new(self.urls@.len(), |i: int| self.urls@[i]@)
    }

    /// A downloader of `urls` into the directory `path_prefix`.
    pub fn new(path_prefix: &'a str, urls: Vec<&'a str>) -> (r: Downloader<'a>)
        ensures
            r.prefix() == path_prefix@,
            r.targets() == Seq::new(urls@.len(), |i: int| urls@[i]@),
    {
        Downloader { path_prefix, urls }
    }

    /// How many addresses there are.
    pub fn len(&self) -> (n: usize)
        ensures
            n == self.targets().len(),
    {
        self.urls.len()
    }

    /// Whether `outcome` is what item `i`, with the address `url`, may end
    /// in when `fetch` and `store` answer as they may: `fetch` was asked
    /// for `url`; where it returned a body, `store` was asked to put that
    /// body into the file of item `i`; and `outcome` follows from the two.
    pub open spec fn downloaded<
        F: Fn(&str) -> Result<Vec<u8>, FetchError>,
        W: Fn(&str, &[u8]) -> Result<(), String>,
    >(&self, url: Seq<char>, i: nat, fetch: F, store: W, outcome: Outcome) -> bool {
        exists|fetched: Result<Seq<u8>, FetchError>, stored: Result<(), Seq<char>>|
            #![trigger settled(file_name(self.prefix(), i), fetched, stored)]
            {
                &&& fetch_gave(fetch, url, fetched)
                &&& fetched matches Ok(body) ==> store_gave(
                    store,
                    file_name(self.prefix(), i),
                    body,
                    stored,
                )
                &&& outcome == settled(file_name(self.prefix(), i), fetched, stored)
            }
    }

    /// The path of the file for item `i`.
    pub fn file_path(&self, i: usize) -> (path: String)
        ensures
            path@ == file_name(self.prefix(), i as nat),
    {
        let number = decimal_string(i);
        let mut path = String::from_str(self.path_prefix);
        path.append("/");
        path.append(number.as_str());
        path.append(".png");
        path
    }

    /// The outcome of an item whose body of `length` bytes was handed to
    /// the store for the file at `path`, given what the store returned.
    pub fn settle(path: String, length: usize, stored: Result<(), String>) -> (r: DownloadResult)
        ensures
            r@ == (match stored_view(stored) {
                Ok(_) => Outcome::Written { path: path@, bytes: length as nat },
                Err(reason) => Outcome::FileError { path: path@, reason },
            }),
    {
        match stored {
            Ok(_) => DownloadResult::Written { path, bytes: length },
            Err(reason) => DownloadResult::FileError { path, reason },
        }
    }

    /// Downloads one item: fetches `url` and, where a body came, has it
    /// stored in the file of item `i`.
    pub fn download<
        F: Fn(&str) -> Result<Vec<u8>, FetchError>,
        W: Fn(&str, &[u8]) -> Result<(), String>,
    >(&self, url: &str, i: usize, fetch: &F, store: &W) -> (r: DownloadResult)
        requires
            call_requires(*fetch, (url,)),
            forall|p: &str, b: &[u8]| call_requires(*store, (p, b)),
        ensures
            self.downloaded(url@, i as nat, *fetch, *store, r@),
    {
        let fetched = fetch(url);
        let ghost name = file_name(self.prefix(), i as nat);
        assert(fetch_gave(*fetch, url@, fetched_view(fetched))) by {
            assert(call_ensures(*fetch, (url,), fetched));
        }
        match fetched {
            Err(error) => {
                let r = DownloadResult::NoData { error };
                assert(r@ == settled(name, fetched_view(fetched), Ok(())));
                r
            },
            Ok(body) => {
                let path = self.file_path(i);
                let target = path.as_str();
                let bytes = body.as_slice();
                let stored = store(target, bytes);
                assert(store_gave(*store, name, body@, stored_view(stored))) by {
                    assert(call_ensures(*store, (target, bytes), stored));
                }
                let r = Downloader::settle(path, body.len(), stored);
                assert(r@ == settled(name, fetched_view(fetched), stored_view(stored)));
                r
            },
        }
    }

    /// Downloads every item, one after the other and in the order of the
    /// list, and reports one outcome for each.
    pub fn download_all<
        F: Fn(&str) -> Result<Vec<u8>, FetchError>,
        W: Fn(&str, &[u8]) -> Result<(), String>,
    >(&self, fetch: F, store: W) -> (results: Vec<DownloadResult>)
        requires
            forall|u: &str| call_requires(fetch, (u,)),
            forall|p: &str, b: &[u8]| call_requires(store, (p, b)),
        ensures
            results@.len() == self.targets().len(),
            forall|i: int|
                0 <= i < results@.len() ==> self.downloaded(
                    self.targets()[i],
                    i as nat,
                    fetch,
                    store,
                    (#[trigger] results@[i])@,
                ),
    {
        let mut results: Vec<DownloadResult> = Vec::new();
        let mut i: usize = 0;
        while i < self.urls.len()
            invariant
                i <= self.urls@.len(),
                results@.len() == i,
                self.targets().len() == self.urls@.len(),
                forall|u: &str| call_requires(fetch, (u,)),
                forall|p: &str, b: &[u8]| call_requires(store, (p, b)),
                forall|k: int|
                    0 <= k < i ==> self.downloaded(
                        self.targets()[k],
                        k as nat,
                        fetch,
                        store,
                        (#[trigger] results@[k])@,
                    ),
            decreases self.urls@.len() - i,
        {
            let url = self.urls[i];
            assert(self.targets()[i as int] == url@);
            let r = self.download(url, i, &fetch, &store);
            results.push(r);
            i += 1;
        }
        results
    }
    /// Every outcome is one of three, and says what happened: a written
    /// file holds a body that `fetch` returned, whole, and its count is the
    /// length of that body; no data means that `fetch` failed with the
    /// error named; a file error means that a body came and `store` failed
    /// with the reason named. The file is that of the item.
    pub proof fn lemma_outcome_cases<
        F: Fn(&str) -> Result<Vec<u8>, FetchError>,
        W: Fn(&str, &[u8]) -> Result<(), String>,
    >(&self, url: Seq<char>, i: nat, fetch: F, store: W, outcome: Outcome)
        requires
            self.downloaded(url, i, fetch, store, outcome),
        ensures
            match outcome {
                Outcome::Written { path, bytes } => {
                    &&& path == file_name(self.prefix(), i)
                    &&& exists|body: Seq<u8>|
                        #![trigger fetch_gave(fetch, url, Ok(body))]
                        {
                            &&& body.len() == bytes
                            &&& fetch_gave(fetch, url, Ok(body))
                            &&& store_gave(store, path, body, Ok(()))
                        }
                },
                Outcome::NoData { error } => fetch_gave(fetch, url, Err(error)),
                Outcome::FileError { path, reason } => {
                    &&& path == file_name(self.prefix(), i)
                    &&& exists|body: Seq<u8>|
                        #![trigger fetch_gave(fetch, url, Ok(body))]
                        {
                            &&& fetch_gave(fetch, url, Ok(body))
                            &&& store_gave(store, path, body, Err(reason))
                        }
                },
            },
    {
        let (fetched, stored) = choose|
            fetched: Result<Seq<u8>, FetchError>,
            stored: Result<(), Seq<char>>,
        |
            #![trigger settled(file_name(self.prefix(), i), fetched, stored)]
            {
                &&& fetch_gave(fetch, url, fetched)
                &&& fetched matches Ok(body) ==> store_gave(
                    store,
                    file_name(self.prefix(), i),
                    body,
                    stored,
                )
                &&& outcome == settled(file_name(self.prefix(), i), fetched, stored)
            };
        match fetched {
            Ok(body) => {
                assert(fetch_gave(fetch, url, Ok(body)));
                match stored {
                    Ok(_) => {
                        assert(stored == Ok::<(), Seq<char>>(()));
                    },
                    Err(_) => {},
                }
            },
            Err(_) => {},
        }
    }
}

} // verus!
