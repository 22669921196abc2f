use imag::bookmark::{BookmarkCollection, BookmarkErrorKind, Link};
use imag::error::Cause;
use imag::hook::accessor::{HookDataAccessor, HookDataAccessorProvider, StoreIdAccessor};
use imag::hook::error::HookResult;
use imag::hook::Hook;
use imag::link::{parse_links, sort_link};
use imag::store::Store;
use imag::storeid::{ModulePath, StoreId};
use imag::value::Value;

struct NoHook;

impl StoreIdAccessor for NoHook {
    fn access(&self, _id: &StoreId) -> HookResult<()> {
        Ok(())
    }
}

impl HookDataAccessorProvider for NoHook {
    fn accessor(&self) -> HookDataAccessor<'_> {
        HookDataAccessor::StoreIdAccess(self)
    }
}

impl Hook for NoHook {
    fn name(&self) -> &'static str {
        "none"
    }

    fn set_config(&mut self, _cfg: &Value) {}
}

fn module() -> ModulePath {
    ModulePath::new("bookmark", "0.2.0").unwrap()
}

fn texts(links: &[Link]) -> Vec<&str> {
    links.iter().map(|l| l.as_str()).collect()
}

#[test]
fn link_names_a_url() {
    let url = Link::from(String::from("HTTPS://Example.NET")).into_url().unwrap();
    assert_eq!(url, "https://example.net/");
    let e = Link::from(String::from("no url")).into_url().unwrap_err();
    assert_eq!(e.err_type(), BookmarkErrorKind::LinkParsingError);
    assert_eq!(Link::as_url(Some(String::from("u"))).unwrap(), "u");
    assert!(Link::as_url(None).is_err());
}

#[test]
fn add_link_wraps_the_parsing_error() {
    assert_eq!(BookmarkCollection::add_link(Link::from(String::from("http://a.b/c"))).unwrap(), "http://a.b/c");
    let e = BookmarkCollection::add_link(Link::from(String::from("://"))).unwrap_err();
    assert_eq!(e.err_type(), BookmarkErrorKind::LinkError);
    assert_eq!(e.cause().unwrap().to_text(), "[Link parsing error]");
    let e = BookmarkCollection::remove_link(Link::from(String::new())).unwrap_err();
    assert_eq!(e.err_type(), BookmarkErrorKind::LinkError);
    assert!(BookmarkCollection::remove_link(Link::from(String::from("ftp://x/"))).is_ok());
}

#[test]
fn linked_wraps_the_failure_twice() {
    assert!(BookmarkCollection::linked(Ok(())).is_ok());
    let e = BookmarkCollection::linked(Err(Cause::new(String::from("store")))).unwrap_err();
    assert_eq!(e.err_type(), BookmarkErrorKind::LinkError);
    let inner = e.cause().unwrap();
    assert_eq!(inner.to_text(), "[Error while linking]");
    assert_eq!(inner.cause().unwrap().to_text(), "store");
}

#[test]
fn links_matching_keeps_the_order() {
    let links = vec![
        String::from("https://example.org/a"),
        String::from("http://other.net/"),
        String::from("https://example.org/b"),
    ];
    let r = regex::Regex::new("example\\.org").unwrap();
    let kept = BookmarkCollection::get_links_matching(links.clone(), r);
    assert_eq!(texts(&kept), vec!["https://example.org/a", "https://example.org/b"]);
    let none = regex::Regex::new("^$").unwrap();
    assert!(BookmarkCollection::get_links_matching(links.clone(), none).is_empty());
    let all = regex::Regex::new("").unwrap();
    assert_eq!(BookmarkCollection::get_links_matching(links, all).len(), 3);
}

#[test]
fn keep_flagged_goes_by_the_flags() {
    let links = vec![String::from("a"), String::from("b"), String::from("c")];
    let kept = BookmarkCollection::keep_flagged(links.clone(), &vec![false, true, true]);
    assert_eq!(texts(&kept), vec!["b", "c"]);
    assert!(BookmarkCollection::keep_flagged(links, &vec![true]).is_empty());
}

#[test]
fn collections_are_entries_of_the_store() {
    let mut store: Store<NoHook> = Store::new(String::from("/store"));
    let mut sink = Vec::new();
    assert_eq!(BookmarkCollection::id(&module(), "work").as_str(), "bookmark/work~0.2.0");
    let mut c = BookmarkCollection::new(&mut store, &module(), "work", &mut sink).unwrap();
    assert_eq!(c.entry().get_key().as_str(), "bookmark/work~0.2.0");
    c.entry_mut().entry_mut().get_content_mut().push_str("x");
    assert_eq!(c.entry().entry().get_content(), "x");
    let e = BookmarkCollection::new(&mut store, &module(), "work", &mut sink).unwrap_err();
    assert_eq!(e.err_type(), BookmarkErrorKind::StoreReadError);
    assert_eq!(e.cause().unwrap().to_text(), "[Entry already exists]");
    let e = BookmarkCollection::pre_get(&store, &module(), "work", &mut sink).unwrap_err();
    assert_eq!(e.err_type(), BookmarkErrorKind::StoreReadError);
    let e = BookmarkCollection::delete(&store, &module(), "work", &mut sink).unwrap_err();
    assert_eq!(e.cause().unwrap().to_text(), "[ID locked]");
    store.release(c.into_entry());

    let ticket = BookmarkCollection::pre_get(&store, &module(), "work", &mut sink).unwrap();
    let c = BookmarkCollection::get(&mut store, ticket, Ok(None), &mut sink).unwrap();
    store.release(c.into_entry());
    let ticket = BookmarkCollection::pre_get(&store, &module(), "home", &mut sink).unwrap();
    let e = BookmarkCollection::get(&mut store, ticket, Ok(None), &mut sink).unwrap_err();
    assert_eq!(e.err_type(), BookmarkErrorKind::CollectionNotFound);
    let ticket = BookmarkCollection::delete(&store, &module(), "work", &mut sink).unwrap();
    assert!(store.delete(ticket, Ok(()), &mut sink).is_ok());
    assert_eq!(BookmarkCollection::found(Ok(None)).unwrap_err().err_type(), BookmarkErrorKind::CollectionNotFound);
}

#[test]
fn parse_links_sorts_the_parts_of_a_list() {
    let (urls, rejected) = parse_links("https://a.example/,nonsense,HTTP://B.example/x y,,mailto:me@example.org");
    assert_eq!(urls, vec!["https://a.example/", "http://b.example/x%20y", "mailto:me@example.org"]);
    assert_eq!(rejected, vec!["nonsense", ""]);
    let (urls, rejected) = parse_links("");
    assert!(urls.is_empty());
    assert_eq!(rejected, vec![""]);
}

#[test]
fn sort_link_puts_each_part_in_its_place() {
    let mut urls = Vec::new();
    let mut rejected = Vec::new();
    sort_link("a", Some(String::from("url")), &mut urls, &mut rejected);
    sort_link("b", None, &mut urls, &mut rejected);
    assert_eq!(urls, vec!["url"]);
    assert_eq!(rejected, vec!["b"]);
}
