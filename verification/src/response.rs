//! Responses, and the cache of those that the development server gave.
use vstd::prelude::*;
use crate::fields::{header_fields, Fields};
use crate::text::same_text;

verus! {

/// A response to a web view's request.
#[derive(Debug)]
pub struct Response {
    pub status: u16,
    pub headers: http::HeaderMap,
    pub body: Vec<u8>,
}

/// What a response says.
#[verifier::ext_equal]
pub struct ResponseView {
    pub status: u16,
    pub headers: Fields,
    pub body: Seq<u8>,
}

impl View for Response {
    type V = ResponseView;

    open spec fn view(&self) -> ResponseView {
        ResponseView { status: self.status, headers: header_fields(self.headers), body: self.body@ }
    }
}

/// A response of the development server as it is kept for later.
#[derive(Debug)]
pub struct CachedResponse {
    pub status: u16,
    pub headers: http::HeaderMap,
    pub body: Vec<u8>,
}

impl View for CachedResponse {
    type V = ResponseView;

    open spec fn view(&self) -> ResponseView {
        ResponseView { status: self.status, headers: header_fields(self.headers), body: self.body@ }
    }
}

/// The kept responses, at most one for each URL.
#[derive(Debug)]
pub struct ResponseCache {
    entries: Vec<(String, CachedResponse)>,
}

spec fn is_entry(entries: Seq<(String, CachedResponse)>, url: Seq<char>, i: int) -> bool {
    0 <= i < entries.len() && entries[i].0@ == url
}

impl View for ResponseCache {
    type V = Map<Seq<char>, ResponseView>;

    closed spec fn view(&self) -> Map<Seq<char>, ResponseView> {
        Map::new(
            |url: Seq<char>| exists|i: int| is_entry(self.entries@, url, i),
            |url: Seq<char>| self.entries@[choose|i: int| is_entry(self.entries@, url, i)].1@,
        )
    }
}

impl ResponseCache {
    /// No URL is kept twice.
    pub closed spec fn wf(&self) -> bool {
        forall|i: int, j: int|
            0 <= i < j < self.entries@.len() ==> (#[trigger] self.entries@[i]).0@ != (
            #[trigger] self.entries@[j]).0@
    }

    /// An empty cache.
    pub fn new() -> (cache: ResponseCache)
        ensures
            cache.wf(),
            cache@ == Map::<Seq<char>, ResponseView>::empty(),
    {
        let cache = ResponseCache { entries: Vec::new() };
        proof {
            assert(cache@ =~= Map::empty());
        }
        cache
    }

    proof fn lemma_entry(&self, i: int)
        requires
            self.wf(),
            0 <= i < self.entries@.len(),
        ensures
            self@.dom().contains(self.entries@[i].0@),
            self@[self.entries@[i].0@] == self.entries@[i].1@,
    {
        let url = self.entries@[i].0@;
        assert(is_entry(self.entries@, url, i));
        let k = choose|k: int| is_entry(self.entries@, url, k);
        assert(is_entry(self.entries@, url, k));
        if k < i {
            assert(self.entries@[k].0@ != self.entries@[i].0@);
        } else if i < k {
            assert(self.entries@[i].0@ != self.entries@[k].0@);
        }
    }

    fn position(&self, url: &str) -> (place: Option<usize>)
        ensures
            match place {
                Some(i) => i < self.entries@.len() && self.entries@[i as int].0@ == url@,
                None => forall|i: int|
                    0 <= i < self.entries@.len() ==> (#[trigger] self.entries@[i]).0@ != url@,
            },
    {
        let mut i: usize = 0;
        while i < self.entries.len()
            invariant
                i <= self.entries@.len(),
                forall|j: int| 0 <= j < i ==> (#[trigger] self.entries@[j]).0@ != url@,
            decreases self.entries@.len() - i,
        {
            if same_text(self.entries[i].0.as_str(), url) {
                return Some(i);
            }
            i = i + 1;
        }
        None
    }

    /// The response that is kept for a URL.
    pub fn get(&self, url: &str) -> (kept: Option<&CachedResponse>)
        requires
            self.wf(),
        ensures
            match kept {
                Some(response) => self@.dom().contains(url@) && response@ == self@[url@],
                None => !self@.dom().contains(url@),
            },
    {
        match self.position(url) {
            Some(i) => {
                proof {
                    self.lemma_entry(i as int);
                }
                Some(&self.entries[i].1)
            },
            None => None,
        }
    }

    /// Keeps a response for a URL, in place of the one that was kept before.
    pub fn insert(&mut self, url: String, response: CachedResponse)
        requires
            old(self).wf(),
        ensures
            final(self).wf(),
            final(self)@ == old(self)@.insert(url@, response@),
    {
        let ghost before = *self;
        let ghost key = url@;
        let place = self.position(url.as_str());
        match place {
            Some(i) => {
                self.entries.set(i, (url, response));
            },
            None => {
                self.entries.push((url, response));
            },
        }
        proof {
            let at = match place {
                Some(i) => i as int,
                None => before.entries@.len() as int,
            };
            assert(self.entries@[at].0@ == key);
            assert(self.wf());
            assert forall|k: Seq<char>|
                self@.dom().contains(k) <==> before@.insert(key, response@).dom().contains(k) by {
                if exists|i: int| is_entry(self.entries@, k, i) {
                    let i = choose|i: int| is_entry(self.entries@, k, i);
                    if i != at {
                        assert(is_entry(before.entries@, k, i));
                    }
                }
                if exists|i: int| is_entry(before.entries@, k, i) {
                    let i = choose|i: int| is_entry(before.entries@, k, i);
                    assert(is_entry(self.entries@, k, i));
                }
                if k == key {
                    assert(is_entry(self.entries@, k, at));
                }
            }
            assert forall|k: Seq<char>| self@.dom().contains(k) implies self@[k]
                == before@.insert(key, response@)[k] by {
                let i = choose|i: int| is_entry(self.entries@, k, i);
                self.lemma_entry(i);
                if k == key {
                    self.lemma_entry(at);
                } else {
                    before.lemma_entry(i);
                }
            }
            assert(self@ =~= before@.insert(key, response@));
        }
    }
}

} // verus!
