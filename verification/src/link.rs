//! Links to the world outside the store: URLs.

use vstd::prelude::*;
use vstd::string::*;
use crate::text::{split, split_text};

verus! {

/// The URL that `url::Url::parse` reads from `text`, written out again:
/// `None` where `text` is no URL.
pub uninterp spec fn parsed_url(text: Seq<char>) -> Option<Seq<char>>;

/// Whether `text` is a URL.
pub open spec fn is_url(text: Seq<char>) -> bool {
    parsed_url(text) is Some
}

/// Calls `url::Url::parse` on `text` and, where that succeeds, turns the URL
/// into the string that it stands for. Parsing looks at `text` alone and
/// returns an error for every text that is no absolute URL; nothing is proved
/// of which texts those are.
#[verifier::external_body]
pub(crate) fn parse_url(text: &str) -> (r: Option<String>)
    ensures
        r.is_some() == parsed_url(text@).is_some(),
        r matches Some(s) ==> s@ == parsed_url(text@).unwrap(),
{
    match url::Url::parse(text) {
        Ok(url) => Some(String::from(url)),
        Err(_) => None,
    }
}

/// The URLs among `parts`, each as it is written out, in order.
pub open spec fn urls_among(parts: Seq<Seq<char>>) -> Seq<Seq<char>>
    decreases parts.len(),
{
    if parts.len() == 0 {
        Seq::empty()
    } else {
        match parsed_url(parts.last()) {
            Some(url) => urls_among(parts.drop_last()).push(url),
            None => urls_among(parts.drop_last()),
        }
    }
}

/// The texts among `parts` that are no URLs, in order.
pub open spec fn rejected_among(parts: Seq<Seq<char>>) -> Seq<Seq<char>>
    decreases parts.len(),
{
    if parts.len() == 0 {
        Seq::empty()
    } else {
        match parsed_url(parts.last()) {
            Some(_) => rejected_among(parts.drop_last()),
            None => rejected_among(parts.drop_last()).push(parts.last()),
        }
    }
}

/// The texts that the strings of `v` hold.
pub open spec fn texts(v: Seq<String>) -> Seq<Seq<char>> {
    Seq::new(v.len(), |i: int| v[i]@)
}

/// Puts the part `part` of a list where it belongs, given what it reads as
/// as a URL: the URL among `urls`, or the part among `rejected`.
pub fn sort_link(part: &str, url: Option<String>, urls: &mut Vec<String>, rejected: &mut Vec<String>)
    ensures
        match url {
            Some(u) => texts(final(urls)@) == texts(old(urls)@).push(u@) && final(rejected)@
                == old(rejected)@,
            None => texts(final(rejected)@) == texts(old(rejected)@).push(part@) && final(urls)@
                == old(urls)@,
        },
{
    match url {
        Some(u) => {
            urls.push(u);
        },
        None => {
            rejected.push(String::from_str(part));
        },
    }
}

/// The URLs of the list `list`, whose parts stand between commas: each part
/// that is a URL, written out, in order; and the parts that are none, in
/// order.
pub fn parse_links(list: &str) -> (r: (Vec<String>, Vec<String>))
    ensures
        texts(r.0@) == urls_among(split(list@, ',')),
        texts(r.1@) == rejected_among(split(list@, ',')),
{
    let parts = split_text(list, ',');
    let ghost all = split(list@, ',');
    let mut urls: Vec<String> = Vec::new();
    let mut rejected: Vec<String> = Vec::new();
    let mut i: usize = 0;
    while i < parts.len()
        invariant
            i <= parts@.len(),
            parts@.len() == all.len(),
            forall|k: int| 0 <= k < parts@.len() ==> (#[trigger] parts@[k])@ == all[k],
            texts(urls@) == urls_among(all.take(i as int)),
            texts(rejected@) == rejected_among(all.take(i as int)),
        decreases parts@.len() - i,
    {
        proof {
            assert(all.take(i + 1).drop_last() =~= all.take(i as int));
        }
        sort_link(parts[i], parse_url(parts[i]), &mut urls, &mut rejected);
        i = i + 1;
    }
    proof {
        assert(all.take(all.len() as int) =~= all);
    }
    (urls, rejected)
}

} // verus!
