//! Collections of bookmarks: entries of the store that hold links to the
//! world outside.

use vstd::prelude::*;
use vstd::string::*;
use crate::entry::{Entry, EntryView, FileLockEntry};
use crate::error::{Cause, Error, ErrorKind};
use crate::hook::aspect::added;
use crate::hook::error::HookError;
use crate::hook::Hook;
use crate::link::{parse_url, parsed_url, texts};
use crate::store::{DeleteTicket, NoCustomData, RetrieveTicket, Store, StoreError};
use crate::storeid::{module_entry_path, IntoStoreId, ModuleEntryPath, ModulePath, StoreId};

verus! {

#[verifier::external_type_specification]
#[verifier::external_body]
pub struct ExRegex(regex::Regex);

/// Calls `regex::Regex::is_match`: whether the expression `r` matches
/// anywhere in `text`.
#[verifier::external_body]
fn regex_is_match(r: &regex::Regex, text: &str) -> (found: bool) {
    r.is_match(text)
}

/// The kinds of error that working with bookmarks gives.
#[derive(Clone, Copy, Debug, PartialEq, Eq, Structural)]
pub enum BookmarkErrorKind {
    StoreReadError,
    LinkError,
    LinkParsingError,
    LinkingError,
    CollectionNotFound,
}

impl ErrorKind for BookmarkErrorKind {
    open spec fn text(&self) -> Seq<char> {
        match self {
            BookmarkErrorKind::StoreReadError => "Store read error"@,
            BookmarkErrorKind::LinkError => "Link error"@,
            BookmarkErrorKind::LinkParsingError => "Link parsing error"@,
            BookmarkErrorKind::LinkingError => "Error while linking"@,
            BookmarkErrorKind::CollectionNotFound => "Link-Collection not found"@,
        }
    }

    fn as_str(&self) -> (s: &'static str) {
        match self {
            BookmarkErrorKind::StoreReadError => "Store read error",
            BookmarkErrorKind::LinkError => "Link error",
            BookmarkErrorKind::LinkParsingError => "Link parsing error",
            BookmarkErrorKind::LinkingError => "Error while linking",
            BookmarkErrorKind::CollectionNotFound => "Link-Collection not found",
        }
    }
}

/// An error of working with bookmarks.
pub type BookmarkError = Error<BookmarkErrorKind, NoCustomData>;

/// Whether `e` is the error of kind `kind` that the error `cause` of the
/// store caused.
pub open spec fn from_store(e: BookmarkError, kind: BookmarkErrorKind, cause: StoreError) -> bool {
    &&& e.kind() == kind
    &&& e.payload() is None
    &&& e.source() is Some
    &&& cause.is_cause(e.source().unwrap())
}

/// Whether `r` is what the store gave, `inner`, with an error of the store as
/// the cause of an error of kind `StoreReadError`.
pub open spec fn store_read<T>(inner: Result<T, StoreError>, r: Result<T, BookmarkError>) -> bool {
    match inner {
        Ok(v) => r == Ok::<T, BookmarkError>(v),
        Err(cause) => r matches Err(e) && from_store(e, BookmarkErrorKind::StoreReadError, cause),
    }
}

/// Whether `r` is the collection that the entry that the store gave,
/// `inner`, holds, with an error of the store as the cause of an error of
/// kind `StoreReadError`.
pub open spec fn collected(
    inner: Result<FileLockEntry, StoreError>,
    r: Result<BookmarkCollection, BookmarkError>,
) -> bool {
    match inner {
        Ok(fle) => r matches Ok(c) && c@ == fle@ && c.key() == fle.key(),
        Err(cause) => r matches Err(e) && from_store(e, BookmarkErrorKind::StoreReadError, cause),
    }
}

/// Whether `r` is what `BookmarkCollection::found` gives for `got`.
pub open spec fn found_collection(
    got: Result<Option<FileLockEntry>, StoreError>,
    r: Result<BookmarkCollection, BookmarkError>,
) -> bool {
    match got {
        Ok(Some(fle)) => r matches Ok(c) && c@ == fle@ && c.key() == fle.key(),
        Ok(None) => r matches Err(e) && e.is_bare(BookmarkErrorKind::CollectionNotFound),
        Err(cause) => r matches Err(e) && from_store(e, BookmarkErrorKind::StoreReadError, cause),
    }
}

/// The error of kind `StoreReadError` that `cause` caused.
fn store_read_error(cause: StoreError) -> (e: BookmarkError)
    ensures
        from_store(e, BookmarkErrorKind::StoreReadError, cause),
{
    Error::new(BookmarkErrorKind::StoreReadError, Some(Box::new(cause.into_cause())))
}

/// A link as the user wrote it.
#[derive(Debug)]
pub struct Link {
    text: String,
}

impl View for Link {
    type V = Seq<char>;

    closed spec fn view(&self) -> Seq<char> {
        self.text@
    }
}

impl Link {
    /// The link that `text` writes.
    pub fn from(text: String) -> (l: Link)
        ensures
            l@ == text@,
    {
        Link { text }
    }

    /// The text of the link.
    pub fn as_str(&self) -> (s: &str)
        ensures
            s@ == self@,
    {
        self.text.as_str()
    }

    /// The URL that the link names, given what its text reads as: a link
    /// whose text is no URL is a `LinkParsingError`.
    pub fn as_url(url: Option<String>) -> (r: Result<String, BookmarkError>)
        ensures
            match url {
                Some(u) => r == Ok::<String, BookmarkError>(u),
                None => r matches Err(e) && e.is_bare(BookmarkErrorKind::LinkParsingError),
            },
    {
        match url {
            Some(u) => Ok(u),
            None => Err(Error::new(BookmarkErrorKind::LinkParsingError, None)),
        }
    }

    /// The URL that the link names, written out.
    pub fn into_url(self) -> (r: Result<String, BookmarkError>)
        ensures
            match parsed_url(self@) {
                Some(u) => r matches Ok(url) && url@ == u,
                None => r matches Err(e) && e.is_bare(BookmarkErrorKind::LinkParsingError),
            },
    {
        Link::as_url(parse_url(self.text.as_str()))
    }
}

/// Whether `e` is the error of kind `LinkError` that came of the error
/// `inner` of working with bookmarks.
pub open spec fn is_link_error(e: BookmarkError, inner: BookmarkError) -> bool {
    &&& e.kind() == BookmarkErrorKind::LinkError
    &&& e.payload() is None
    &&& e.source() is Some
    &&& inner.is_cause(e.source().unwrap())
}

/// Whether `e` is the error of a link whose text is no URL: of kind
/// `LinkError`, caused by an error of kind `LinkParsingError`.
pub open spec fn is_no_url(e: BookmarkError) -> bool {
    exists|inner: BookmarkError| #[trigger]
        is_link_error(e, inner) && inner.is_bare(BookmarkErrorKind::LinkParsingError)
}

/// Whether `e` is the error of linking that failed for the reason `c`: of
/// kind `LinkError`, caused by an error of kind `LinkingError` whose cause is
/// `c`.
pub open spec fn is_linking_failure(e: BookmarkError, c: Cause) -> bool {
    exists|inner: BookmarkError| #[trigger]
        is_link_error(e, inner) && inner.kind() == BookmarkErrorKind::LinkingError && inner.source()
            == Some(c) && inner.payload() is None
}

/// The links among `links` for which `flags` says so, in order; none where
/// there is not one flag for each link.
pub open spec fn flagged(links: Seq<Seq<char>>, flags: Seq<bool>) -> Seq<Seq<char>>
    decreases links.len(),
{
    if links.len() == 0 || flags.len() != links.len() {
        Seq::empty()
    } else if flags.last() {
        flagged(links.drop_last(), flags.drop_last()).push(links.last())
    } else {
        flagged(links.drop_last(), flags.drop_last())
    }
}

/// A collection of bookmarks: the entry of the store that holds them.
#[derive(Debug)]
pub struct BookmarkCollection {
    fle: FileLockEntry,
}

impl View for BookmarkCollection {
    type V = EntryView;

    closed spec fn view(&self) -> EntryView {
        self.fle@
    }
}

impl BookmarkCollection {
    /// The identifier under which the store handed the entry out.
    pub closed spec fn key(&self) -> Seq<char> {
        self.fle.key()
    }

    /// The identifier of the collection `name` among the entries of
    /// `module`.
    pub fn id(module: &ModulePath, name: &str) -> (id: StoreId)
        ensures
            id@ == module_entry_path(module.module(), name@, module.version()),
    {
        ModuleEntryPath::new(module, name).into_storeid()
    }

    /// Creates the collection `name` among the entries of `module` in
    /// `store`. Where the store refuses, its error is the cause of the error.
    pub fn new<H: Hook>(
        store: &mut Store<H>,
        module: &ModulePath,
        name: &str,
        sink: &mut Vec<HookError>,
    ) -> (r: Result<BookmarkCollection, BookmarkError>)
        ensures
            final(store).same_setup(old(store)),
            old(sink)@.is_prefix_of(final(sink)@),
            exists|inner: Result<FileLockEntry, StoreError>| #[trigger]
                old(store).created(
                    final(store),
                    module_entry_path(module.module(), name@, module.version()),
                    inner,
                    added(old(sink)@, final(sink)@),
                ) && collected(inner, r),
            r matches Ok(c) ==> {
                &&& c.key() == module_entry_path(module.module(), name@, module.version())
                &&& !old(store).known().contains(c.key())
                &&& final(store).took_in(old(store), c.key())
            },
            r matches Err(e) ==> e.kind() == BookmarkErrorKind::StoreReadError,
            old(store).known().contains(
                module_entry_path(module.module(), name@, module.version()),
            ) ==> r is Err && final(store).same_entries(old(store)),
    {
        let inner = store.create(BookmarkCollection::id(module, name), sink);
        let ghost given = inner;
        let r = match inner {
            Ok(fle) => Ok(BookmarkCollection { fle }),
            Err(e) => Err(store_read_error(e)),
        };
        proof {
            assert(collected(given, r));
        }
        r
    }

    /// Asks `store` for leave to load the collection `name` among the
    /// entries of `module`.
    pub fn pre_get<H: Hook>(
        store: &Store<H>,
        module: &ModulePath,
        name: &str,
        sink: &mut Vec<HookError>,
    ) -> (r: Result<RetrieveTicket, BookmarkError>)
        ensures
            old(sink)@.is_prefix_of(final(sink)@),
            exists|inner: Result<RetrieveTicket, StoreError>| #[trigger]
                store.pre_retrieved(
                    module_entry_path(module.module(), name@, module.version()),
                    inner,
                    added(old(sink)@, final(sink)@),
                ) && store_read(inner, r),
            r matches Ok(t) ==> t.id() == module_entry_path(
                module.module(),
                name@,
                module.version(),
            ) && !store.borrowed().contains(t.id()),
            r matches Err(e) ==> e.kind() == BookmarkErrorKind::StoreReadError,
    {
        let inner = store.pre_retrieve(BookmarkCollection::id(module, name), sink);
        let ghost given = inner;
        let r = match inner {
            Ok(t) => Ok(t),
            Err(e) => Err(store_read_error(e)),
        };
        proof {
            assert(store_read(given, r));
        }
        r
    }

    /// What getting a collection from the store gave: the collection, an
    /// error of kind `CollectionNotFound` where there is none, or an error
    /// with the error of the store as its cause.
    pub fn found(got: Result<Option<FileLockEntry>, StoreError>) -> (r: Result<
        BookmarkCollection,
        BookmarkError,
    >)
        ensures
            found_collection(got, r),
    {
        match got {
            Ok(Some(fle)) => Ok(BookmarkCollection { fle }),
            Ok(None) => Err(Error::new(BookmarkErrorKind::CollectionNotFound, None)),
            Err(e) => Err(store_read_error(e)),
        }
    }

    /// The collection for which `ticket` was given, as it was loaded. A
    /// collection that has no file and that the store does not know is not
    /// found.
    pub fn get<H: Hook>(
        store: &mut Store<H>,
        ticket: RetrieveTicket,
        loaded: Result<Option<Entry>, StoreError>,
        sink: &mut Vec<HookError>,
    ) -> (r: Result<BookmarkCollection, BookmarkError>)
        ensures
            final(store).same_setup(old(store)),
            old(sink)@.is_prefix_of(final(sink)@),
            exists|inner: Result<Option<FileLockEntry>, StoreError>| #[trigger]
                old(store).got(
                    final(store),
                    ticket.id(),
                    loaded,
                    inner,
                    added(old(sink)@, final(sink)@),
                ) && found_collection(inner, r),
            (loaded matches Ok(None)) && !old(store).known().contains(ticket.id()) ==> {
                &&& r matches Err(e) && e.is_bare(BookmarkErrorKind::CollectionNotFound)
                &&& final(store).same_entries(old(store))
            },
            r matches Ok(c) ==> c.key() == ticket.id(),
    {
        let inner = store.get(ticket, loaded, sink);
        let ghost given = inner;
        let r = BookmarkCollection::found(inner);
        proof {
            assert(found_collection(given, r));
        }
        r
    }

    /// Asks `store` for leave to remove the collection `name` among the
    /// entries of `module`.
    pub fn delete<H: Hook>(
        store: &Store<H>,
        module: &ModulePath,
        name: &str,
        sink: &mut Vec<HookError>,
    ) -> (r: Result<DeleteTicket, BookmarkError>)
        ensures
            old(sink)@.is_prefix_of(final(sink)@),
            exists|inner: Result<DeleteTicket, StoreError>| #[trigger]
                store.pre_deleted(
                    module_entry_path(module.module(), name@, module.version()),
                    inner,
                    added(old(sink)@, final(sink)@),
                ) && store_read(inner, r),
            r matches Ok(t) ==> t.id() == module_entry_path(
                module.module(),
                name@,
                module.version(),
            ) && store.known().contains(t.id()) && !store.borrowed().contains(t.id()),
            r matches Err(e) ==> e.kind() == BookmarkErrorKind::StoreReadError,
    {
        let inner = store.pre_delete(BookmarkCollection::id(module, name), sink);
        let ghost given = inner;
        let r = match inner {
            Ok(t) => Ok(t),
            Err(e) => Err(store_read_error(e)),
        };
        proof {
            assert(store_read(given, r));
        }
        r
    }

    /// The entry that holds the collection.
    pub fn entry(&self) -> (fle: &FileLockEntry)
        ensures
            fle@ == self@,
            fle.key() == self.key(),
    {
        &self.fle
    }

    /// The entry that holds the collection, to be changed in place.
    pub fn entry_mut(&mut self) -> (fle: &mut FileLockEntry)
        ensures
            fle@ == old(self)@,
            fle.key() == old(self).key(),
            final(self)@ == final(fle)@,
            final(self).key() == final(fle).key(),
    {
        &mut self.fle
    }

    /// The entry that holds the collection, given up by it.
    pub fn into_entry(self) -> (fle: FileLockEntry)
        ensures
            fle@ == self@,
            fle.key() == self.key(),
    {
        self.fle
    }

    /// The URL to link to for the link `l`. A link that names no URL gives
    /// an error of kind `LinkError`, caused by the `LinkParsingError`.
    pub fn add_link(l: Link) -> (r: Result<String, BookmarkError>)
        ensures
            match parsed_url(l@) {
                Some(u) => r matches Ok(url) && url@ == u,
                None => r matches Err(e) && is_no_url(e),
            },
    {
        BookmarkCollection::no_url_or(l.into_url())
    }

    /// The URL whose link to remove for the link `l`. A link that names no
    /// URL gives an error of kind `LinkError`, caused by the
    /// `LinkParsingError`.
    pub fn remove_link(l: Link) -> (r: Result<String, BookmarkError>)
        ensures
            match parsed_url(l@) {
                Some(u) => r matches Ok(url) && url@ == u,
                None => r matches Err(e) && is_no_url(e),
            },
    {
        BookmarkCollection::no_url_or(l.into_url())
    }

    /// What reading a link as a URL gave, with the error wrapped into one of
    /// kind `LinkError`.
    fn no_url_or(url: Result<String, BookmarkError>) -> (r: Result<String, BookmarkError>)
        ensures
            match url {
                Ok(u) => r == Ok::<String, BookmarkError>(u),
                Err(inner) => r matches Err(e) && is_link_error(e, inner),
            },
    {
        BookmarkCollection::link_result(url)
    }

    /// What working on a link gives: what it gave, with an error wrapped
    /// into one of kind `LinkError`.
    pub fn link_result<T>(inner: Result<T, BookmarkError>) -> (r: Result<T, BookmarkError>)
        ensures
            match inner {
                Ok(v) => r == Ok::<T, BookmarkError>(v),
                Err(cause) => r matches Err(e) && is_link_error(e, cause),
            },
    {
        match inner {
            Ok(v) => Ok(v),
            Err(cause) => Err(
                Error::new(BookmarkErrorKind::LinkError, Some(Box::new(cause.into_cause()))),
            ),
        }
    }

    /// What linking gave, given how the link was set or taken away: a
    /// failure there gives an error of kind `LinkError`, caused by a
    /// `LinkingError` with the failure as its cause.
    pub fn linked(done: Result<(), Cause>) -> (r: Result<(), BookmarkError>)
        ensures
            match done {
                Ok(_) => r is Ok,
                Err(c) => r matches Err(e) && is_linking_failure(e, c),
            },
    {
        match done {
            Ok(_) => Ok(()),
            Err(c) => {
                let inner: BookmarkError = Error::new(
                    BookmarkErrorKind::LinkingError,
                    Some(Box::new(c)),
                );
                let ghost cause = inner;
                let r = BookmarkCollection::link_result(Err(inner));
                proof {
                    assert(is_link_error(r->Err_0, cause));
                }
                r
            },
        }
    }

    /// The links among `links` for which `flags` says so, in order; none
    /// where there is not one flag for each link.
    pub fn keep_flagged(links: Vec<String>, flags: &Vec<bool>) -> (kept: Vec<Link>)
        ensures
            Seq::new(kept@.len(), |i: int| kept@[i]@) == flagged(texts(links@), flags@),
    {
        let ghost all = texts(links@);
        let mut links = links;
        let mut kept: Vec<Link> = Vec::new();
        let n = links.len();
        if flags.len() != n {
            return kept;
        }
        let mut i: usize = 0;
        while i < n
            invariant
                n == links@.len(),
                n == flags@.len(),
                all.len() == n,
                i <= n,
                forall|k: int| i <= k < n ==> (#[trigger] links@[k])@ == all[k],
                Seq::new(kept@.len(), |k: int| kept@[k]@) == flagged(
                    all.take(i as int),
                    flags@.take(i as int),
                ),
            decreases n - i,
        {
            proof {
                assert(all.take(i + 1).drop_last() =~= all.take(i as int));
                assert(flags@.take(i + 1).drop_last() =~= flags@.take(i as int));
            }
            if flags[i] {
                let mut text = String::new();
                core::mem::swap(&mut links[i], &mut text);
                kept.push(Link::from(text));
            }
            i = i + 1;
        }
        proof {
            assert(all.take(n as int) =~= all);
            assert(flags@.take(n as int) =~= flags@);
        }
        kept
    }

    /// The links among `links` that the expression `r` matches, in order.
    pub fn get_links_matching(links: Vec<String>, r: regex::Regex) -> (kept: Vec<Link>)
        ensures
            exists|flags: Seq<bool>|
                flags.len() == links@.len() && Seq::new(kept@.len(), |i: int| kept@[i]@)
                    == #[trigger] flagged(texts(links@), flags),
    {
        let mut flags: Vec<bool> = Vec::new();
        let mut i: usize = 0;
        while i < links.len()
            invariant
                i <= links@.len(),
                flags@.len() == i,
            decreases links@.len() - i,
        {
            flags.push(regex_is_match(&r, links[i].as_str()));
            i = i + 1;
        }
        BookmarkCollection::keep_flagged(links, &flags)
    }
}

} // verus!
