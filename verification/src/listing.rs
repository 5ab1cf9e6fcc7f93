//! Listing the objects of a bucket, page by page.

use crate::error;
use crate::error::{checked_content_length, S3Error, S3ErrorView};
use crate::object;
use crate::object::{
    normalize_restore_status_from_list, CommonPrefixInfo, ObjectInfo, ObjectInfoView,
    RestoreStatus,
};
use crate::request;
use crate::request::{describe_prefix, owned, Call, CallView, Request, RequestView};
use crate::time::Timestamp;
use vstd::prelude::*;

verus! {

/// What a listing says of one object.
#[derive(Clone, Debug)]
pub struct ListedObject {
    pub key: Option<String>,
    pub size: Option<i64>,
    pub last_modified: Option<Timestamp>,
    pub storage_class: Option<String>,
    pub restore_status: Option<RestoreStatus>,
}

/// One page of a listing, as the service sends it.
#[derive(Clone, Debug)]
pub struct ListPage {
    pub contents: Vec<ListedObject>,
    pub common_prefixes: Vec<Option<String>>,
    pub is_truncated: Option<bool>,
    pub next_continuation_token: Option<String>,
}

/// The objects and common prefixes of a page or a listing, as the contracts see them.
pub open spec fn listing_result(
    r: Result<(Vec<ObjectInfo>, Vec<CommonPrefixInfo>), S3Error>,
) -> Result<(Seq<ObjectInfoView>, Seq<Seq<char>>), S3ErrorView> {
    match r {
        Ok((objects, prefixes)) => Ok((objects.deep_view(), prefixes.deep_view())),
        Err(e) => Err(e@),
    }
}

/// The metadata of a listed object. A key, a valid size and a time of modification have to be
/// there.
pub open spec fn listed_object(listed: ListedObject) -> Result<ObjectInfoView, S3ErrorView> {
    match listed.key {
        None => Err(S3ErrorView::FieldNotExist("key"@)),
        Some(key) => match error::content_length(listed.size) {
            Err(e) => Err(e),
            Ok(size) => match listed.last_modified {
                None => Err(S3ErrorView::FieldNotExist("timestamp"@)),
                Some(timestamp) => Ok(
                    ObjectInfoView {
                        key: key@,
                        size,
                        timestamp,
                        storage_class: listed.storage_class.deep_view(),
                        restore_status: object::listed_restore_status(listed.restore_status),
                    },
                ),
            },
        },
    }
}

/// The metadata of listed objects, or what is wrong with the first of them that is not valid.
pub open spec fn listed_objects(listed: Seq<ListedObject>) -> Result<
    Seq<ObjectInfoView>,
    S3ErrorView,
>
    decreases listed.len(),
{
    if listed.len() == 0 {
        Ok(Seq::empty())
    } else {
        match listed_objects(listed.drop_last()) {
            Err(e) => Err(e),
            Ok(objects) => match listed_object(listed.last()) {
                Err(e) => Err(e),
                Ok(object) => Ok(objects.push(object)),
            },
        }
    }
}

/// Every common prefix of a page is there.
pub open spec fn are_present(prefixes: Seq<Option<String>>) -> bool {
    forall|i: int| 0 <= i < prefixes.len() ==> #[trigger] prefixes[i] is Some
}

/// The common prefixes of a page, which all have to be there.
pub open spec fn listed_prefixes(prefixes: Seq<Option<String>>) -> Result<
    Seq<Seq<char>>,
    S3ErrorView,
> {
    if are_present(prefixes) {
        Ok(prefixes.map_values(|prefix: Option<String>| prefix.unwrap()@))
    } else {
        Err(S3ErrorView::FieldNotExist("prefix"@))
    }
}

impl ListPage {
    /// The objects and common prefixes of the page.
    pub open spec fn listed(self) -> Result<(Seq<ObjectInfoView>, Seq<Seq<char>>), S3ErrorView> {
        match listed_objects(self.contents@) {
            Err(e) => Err(e),
            Ok(objects) => match listed_prefixes(self.common_prefixes@) {
                Err(e) => Err(e),
                Ok(prefixes) => Ok((objects, prefixes)),
            },
        }
    }

    /// The token to ask for the next page with, if there is one: the page says that the listing
    /// goes on, and where.
    pub open spec fn token(self) -> Option<Seq<char>> {
        match self.next_continuation_token {
            Some(token) => if self.is_truncated == Some(true) && token@.len() > 0 {
                Some(token@)
            } else {
                None
            },
            None => None,
        }
    }
}

/// The metadata of a listed object.
fn convert_object(listed: &ListedObject) -> (info: Result<ObjectInfo, S3Error>)
    ensures
        object::object_result(info) == listed_object(*listed),
{
    let key = match &listed.key {
        Some(key) => key.clone(),
        None => {
            return Err(S3Error::FieldNotExist("key"));
        },
    };
    let size: u64 = match checked_content_length(listed.size) {
        Ok(size) => size,
        Err(e) => {
            return Err(e);
        },
    };
    let timestamp = match listed.last_modified {
        Some(timestamp) => timestamp,
        None => {
            return Err(S3Error::FieldNotExist("timestamp"));
        },
    };
    Ok(
        ObjectInfo {
            key,
            size,
            timestamp,
            storage_class: listed.storage_class.clone(),
            restore_status: normalize_restore_status_from_list(listed.restore_status),
        },
    )
}

/// What is wrong with some of the listed objects is wrong with all of them together.
proof fn lemma_first_error_stays(listed: Seq<ListedObject>, n: int)
    requires
        0 <= n <= listed.len(),
        listed_objects(listed.take(n)) is Err,
    ensures
        listed_objects(listed) == listed_objects(listed.take(n)),
    decreases listed.len(),
{
    if n < listed.len() {
        assert(listed.drop_last().take(n) =~= listed.take(n));
        lemma_first_error_stays(listed.drop_last(), n);
    } else {
        assert(listed.take(n) =~= listed);
    }
}

/// The objects and common prefixes of a page.
pub fn page_to_object_and_prefix_lists(page: &ListPage) -> (lists: Result<
    (Vec<ObjectInfo>, Vec<CommonPrefixInfo>),
    S3Error,
>)
    ensures
        listing_result(lists) == page.listed(),
{
    let mut objects: Vec<ObjectInfo> = Vec::new();
    let mut i: usize = 0;
    assert(objects.deep_view() =~= Seq::<ObjectInfoView>::empty());
    while i < page.contents.len()
        invariant
            i <= page.contents@.len(),
            listed_objects(page.contents@.take(i as int)) == Ok::<Seq<ObjectInfoView>, S3ErrorView>(
                objects.deep_view(),
            ),
        decreases page.contents@.len() - i,
    {
        let ghost before = objects.deep_view();
        let ghost longer = page.contents@.take(i as int + 1);
        assert(longer.drop_last() =~= page.contents@.take(i as int));
        match convert_object(&page.contents[i]) {
            Ok(object) => {
                objects.push(object);
                assert(objects.deep_view() =~= before.push(object@));
            },
            Err(e) => {
                proof {
                    lemma_first_error_stays(page.contents@, i as int + 1);
                }
                return Err(e);
            },
        }
        i = i + 1;
    }
    assert(page.contents@.take(i as int) =~= page.contents@);

    let mut prefixes: Vec<CommonPrefixInfo> = Vec::new();
    let mut j: usize = 0;
    while j < page.common_prefixes.len()
        invariant
            j <= page.common_prefixes@.len(),
            prefixes@.len() == j,
            forall|k: int|
                0 <= k < j ==> #[trigger] page.common_prefixes@[k] is Some
                    && page.common_prefixes@[k].unwrap()@ == prefixes@[k].prefix@,
            listed_objects(page.contents@) == Ok::<Seq<ObjectInfoView>, S3ErrorView>(
                objects.deep_view(),
            ),
        decreases page.common_prefixes@.len() - j,
    {
        match &page.common_prefixes[j] {
            Some(prefix) => {
                prefixes.push(CommonPrefixInfo { prefix: prefix.clone() });
            },
            None => {
                assert(page.common_prefixes@[j as int] is None);
                return Err(S3Error::FieldNotExist("prefix"));
            },
        }
        j = j + 1;
    }
    assert(prefixes.deep_view() =~= page.common_prefixes@.map_values(
        |prefix: Option<String>| prefix.unwrap()@,
    ));
    Ok((objects, prefixes))
}

/// A listing that is asked for page by page. Each page is a request of its own, so that a failed
/// request leaves the iteration where it was.
#[derive(Debug)]
pub struct ListObjectsV2PageIter {
    bucket: String,
    prefix: String,
    delimiter: Option<String>,
    /// `None` before the first page; `Some(None)` after the last page; else the token to ask for
    /// the next page with.
    continuation_token: Option<Option<String>>,
}

/// The model of [`ListObjectsV2PageIter`].
pub struct ListObjectsV2PageIterView {
    pub bucket: Seq<char>,
    pub prefix: Seq<char>,
    pub delimiter: Option<Seq<char>>,
    pub continuation_token: Option<Option<Seq<char>>>,
}

impl View for ListObjectsV2PageIter {
    type V = ListObjectsV2PageIterView;

    closed spec fn view(&self) -> ListObjectsV2PageIterView {
        ListObjectsV2PageIterView {
            bucket: self.bucket@,
            prefix: self.prefix@,
            delimiter: self.delimiter.deep_view(),
            continuation_token: self.continuation_token.deep_view(),
        }
    }
}

impl ListObjectsV2PageIterView {
    /// The request for the next page, if there is one.
    pub open spec fn next_call(self) -> Option<CallView> {
        match self.continuation_token {
            Some(None) => None,
            token => Some(
                CallView {
                    request: RequestView::ListObjectsV2 {
                        bucket: self.bucket,
                        prefix: self.prefix,
                        delimiter: self.delimiter,
                        continuation_token: match token {
                            Some(token) => token,
                            None => None,
                        },
                    },
                    context: request::prefix_context(
                        "list_objects_v2_paginate_pages"@,
                        self.bucket,
                        self.prefix,
                    ),
                    retried: true,
                },
            ),
        }
    }

    /// Where the iteration stands once a page has come.
    pub open spec fn after(self, page: ListPage) -> ListObjectsV2PageIterView {
        ListObjectsV2PageIterView { continuation_token: Some(page.token()), ..self }
    }
}

impl ListObjectsV2PageIter {
    /// An iteration that has not fetched a page yet.
    pub fn new(bucket: &str, prefix: &str, delimiter: Option<&str>) -> (iter: Self)
        ensures
            iter@ == (ListObjectsV2PageIterView {
                bucket: bucket@,
                prefix: prefix@,
                delimiter: delimiter.deep_view(),
                continuation_token: None,
            }),
    {
        ListObjectsV2PageIter {
            bucket: bucket.to_owned(),
            prefix: prefix.to_owned(),
            delimiter: owned(delimiter),
            continuation_token: None,
        }
    }

    /// The request for the next page, or `None` when there are no more pages. It is retried by
    /// itself, not the listing as a whole.
    pub fn next_page(&self) -> (call: Option<Call>)
        ensures
            match call {
                Some(call) => self@.next_call() == Some(call@),
                None => self@.next_call() is None,
            },
    {
        let token: Option<String> = match &self.continuation_token {
            Some(None) => {
                return None;
            },
            Some(Some(token)) => Some(token.clone()),
            None => None,
        };
        Some(
            Call {
                request: Request::ListObjectsV2 {
                    bucket: self.bucket.clone(),
                    prefix: self.prefix.clone(),
                    delimiter: self.delimiter.clone(),
                    continuation_token: token,
                },
                context: describe_prefix(
                    "list_objects_v2_paginate_pages",
                    self.bucket.as_str(),
                    self.prefix.as_str(),
                ),
                retried: true,
            },
        )
    }

    /// Takes in a page that has come, and gives what it lists. The iteration moves on to the page
    /// after it, also if what it lists is not valid.
    pub fn receive(&mut self, page: &ListPage) -> (lists: Result<
        (Vec<ObjectInfo>, Vec<CommonPrefixInfo>),
        S3Error,
    >)
        ensures
            final(self)@ == old(self)@.after(*page),
            listing_result(lists) == page.listed(),
    {
        let truncated: bool = match page.is_truncated {
            Some(truncated) => truncated,
            None => false,
        };
        let token: Option<String> = match &page.next_continuation_token {
            Some(token) => {
                if truncated && !token.as_str().is_empty() {
                    Some(token.clone())
                } else {
                    None
                }
            },
            None => None,
        };
        self.continuation_token = Some(token);
        page_to_object_and_prefix_lists(page)
    }
}

/// What has been listed so far, over several pages.
#[derive(Debug)]
pub struct Listing {
    pub objects: Vec<ObjectInfo>,
    pub common_prefixes: Vec<CommonPrefixInfo>,
}

/// What pages list together: their objects and common prefixes one after the other, or what is
/// wrong with the first page that is not valid.
pub open spec fn listed_pages(pages: Seq<ListPage>) -> Result<
    (Seq<ObjectInfoView>, Seq<Seq<char>>),
    S3ErrorView,
>
    decreases pages.len(),
{
    if pages.len() == 0 {
        Ok((Seq::empty(), Seq::empty()))
    } else {
        match listed_pages(pages.drop_last()) {
            Err(e) => Err(e),
            Ok((objects, prefixes)) => match pages.last().listed() {
                Err(e) => Err(e),
                Ok((more_objects, more_prefixes)) => Ok(
                    (objects + more_objects, prefixes + more_prefixes),
                ),
            },
        }
    }
}

impl Listing {
    /// The objects and common prefixes listed so far, as the contracts see them.
    pub open spec fn lists(self) -> (Seq<ObjectInfoView>, Seq<Seq<char>>) {
        (self.objects.deep_view(), self.common_prefixes.deep_view())
    }

    /// A listing of no page.
    pub fn new() -> (listing: Self)
        ensures
            listed_pages(Seq::empty()) == Ok::<
                (Seq<ObjectInfoView>, Seq<Seq<char>>),
                S3ErrorView,
            >(listing.lists()),
    {
        let listing = Listing { objects: Vec::new(), common_prefixes: Vec::new() };
        assert(listing.objects.deep_view() =~= Seq::<ObjectInfoView>::empty());
        assert(listing.common_prefixes.deep_view() =~= Seq::<Seq<char>>::empty());
        listing
    }

    /// Adds what a page lists. Nothing is added if the page is not valid.
    pub fn add_page(&mut self, page: &ListPage) -> (added: Result<(), S3Error>)
        ensures
            match page.listed() {
                Ok((objects, prefixes)) => added is Ok && final(self).lists() == (
                    old(self).lists().0 + objects,
                    old(self).lists().1 + prefixes,
                ),
                Err(error) => error::result_view(added) == Err::<(), S3ErrorView>(error)
                    && final(self).lists() == old(self).lists(),
            },
            forall|pages: Seq<ListPage>|
                listed_pages(pages) == Ok::<(Seq<ObjectInfoView>, Seq<Seq<char>>), S3ErrorView>(
                    old(self).lists(),
                ) ==> #[trigger] listed_pages(pages.push(*page)) == (match added {
                    Ok(_) => Ok(final(self).lists()),
                    Err(e) => Err(e@),
                }),
    {
        let ghost before = *self;
        match page_to_object_and_prefix_lists(page) {
            Ok((objects, prefixes)) => {
                let mut objects = objects;
                let mut prefixes = prefixes;
                let ghost (more_objects, more_prefixes) = (
                    objects.deep_view(),
                    prefixes.deep_view(),
                );
                self.objects.append(&mut objects);
                self.common_prefixes.append(&mut prefixes);
                proof {
                    assert(self.objects.deep_view() =~= before.objects.deep_view()
                        + more_objects);
                    assert(self.common_prefixes.deep_view()
                        =~= before.common_prefixes.deep_view() + more_prefixes);
                    assert(forall|pages: Seq<ListPage>|
                        #[trigger] pages.push(*page).drop_last() =~= pages);
                }
                Ok(())
            },
            Err(e) => {
                assert(forall|pages: Seq<ListPage>|
                    #[trigger] pages.push(*page).drop_last() =~= pages);
                Err(e)
            },
        }
    }
}

/// Where an iteration stands once pages have come.
pub open spec fn iterated(
    iter: ListObjectsV2PageIterView,
    pages: Seq<ListPage>,
) -> ListObjectsV2PageIterView
    decreases pages.len(),
{
    if pages.len() == 0 {
        iter
    } else {
        iterated(iter, pages.drop_last()).after(pages.last())
    }
}

/// An iteration asks for the first page without a token and for every further page with the token
/// of the page before it, otherwise always in the same way. Once a page came that names no further
/// one, it asks for none.
pub proof fn lemma_iteration_follows_tokens(
    start: ListObjectsV2PageIterView,
    pages: Seq<ListPage>,
)
    requires
        start.continuation_token is None,
    ensures
        iterated(start, pages).next_call() == (if pages.len() > 0 && pages.last().token() is None {
            None
        } else {
            Some(
                CallView {
                    request: RequestView::ListObjectsV2 {
                        bucket: start.bucket,
                        prefix: start.prefix,
                        delimiter: start.delimiter,
                        continuation_token: if pages.len() == 0 {
                            None
                        } else {
                            pages.last().token()
                        },
                    },
                    context: request::prefix_context(
                        "list_objects_v2_paginate_pages"@,
                        start.bucket,
                        start.prefix,
                    ),
                    retried: true,
                },
            )
        }),
{
    lemma_iteration_keeps_target(start, pages);
}

/// An iteration stays with what it lists.
proof fn lemma_iteration_keeps_target(start: ListObjectsV2PageIterView, pages: Seq<ListPage>)
    ensures
        iterated(start, pages).bucket == start.bucket,
        iterated(start, pages).prefix == start.prefix,
        iterated(start, pages).delimiter == start.delimiter,
    decreases pages.len(),
{
    if pages.len() > 0 {
        lemma_iteration_keeps_target(start, pages.drop_last());
    }
}

/// The metadata says of an object what its entry in a listing says.
pub open spec fn is_entry_of(info: ObjectInfoView, listed: ListedObject) -> bool {
    &&& listed.key matches Some(key) && info.key == key@
    &&& listed.size matches Some(size) && info.size == size
    &&& listed.last_modified == Some(info.timestamp)
    &&& info.storage_class == listed.storage_class.deep_view()
    &&& info.restore_status == object::listed_restore_status(listed.restore_status)
}

/// The entry has what it takes to describe an object: a key, a size that is not negative, and a
/// time of modification.
pub open spec fn is_complete(listed: ListedObject) -> bool {
    &&& listed.key is Some
    &&& listed.size matches Some(size) && size >= 0
    &&& listed.last_modified is Some
}

/// What is wrong with an entry that is not complete: the first of its key, its size and its time of
/// modification that is not as it should be.
pub open spec fn is_fault_of(error: S3ErrorView, listed: ListedObject) -> bool {
    if listed.key is None {
        error == S3ErrorView::FieldNotExist("key"@)
    } else {
        match listed.size {
            None => error == S3ErrorView::FieldNotExist("content_length"@),
            Some(size) => if size < 0 {
                error is ValidationError
            } else {
                listed.last_modified is None && error == S3ErrorView::FieldNotExist("timestamp"@)
            },
        }
    }
}

/// The entries of a page give one object each, in order, or the fault of the first that is not
/// complete.
proof fn lemma_entries_give_objects(listed: Seq<ListedObject>)
    ensures
        match listed_objects(listed) {
            Ok(objects) => objects.len() == listed.len() && forall|i: int|
                0 <= i < listed.len() ==> is_complete(#[trigger] listed[i]) && is_entry_of(
                    objects[i],
                    listed[i],
                ),
            Err(error) => exists|i: int|
                0 <= i < listed.len() && !is_complete(#[trigger] listed[i]) && is_fault_of(
                    error,
                    listed[i],
                ) && forall|k: int| 0 <= k < i ==> is_complete(#[trigger] listed[k]),
        },
    decreases listed.len(),
{
    if listed.len() > 0 {
        let before = listed.drop_last();
        lemma_entries_give_objects(before);
        assert(forall|i: int| 0 <= i < before.len() ==> before[i] == listed[i]);
        match listed_objects(before) {
            Ok(objects) => {
                assert forall|k: int| 0 <= k < before.len() implies is_complete(
                    #[trigger] listed[k],
                ) && is_entry_of(objects[k], listed[k]) by {
                    assert(is_complete(before[k]));
                }
                assert(listed.last() == listed[listed.len() - 1]);
            },
            Err(error) => {
                let i = choose|i: int|
                    0 <= i < before.len() && !is_complete(#[trigger] before[i]) && is_fault_of(
                        error,
                        before[i],
                    ) && forall|k: int| 0 <= k < i ==> is_complete(#[trigger] before[k]);
                assert(!is_complete(listed[i]));
                assert forall|k: int| 0 <= k < i implies is_complete(#[trigger] listed[k]) by {
                    assert(is_complete(before[k]));
                }
            },
        }
    }
}

/// A page lists one object for each of its entries and one common prefix for each of its prefixes,
/// in order, with the key, the size, the time of modification, the storage class and the restore
/// status that the entry declares. It is refused exactly if some entry is not complete or some
/// prefix is missing, and the error is that of the first such entry, or else of the prefixes.
pub proof fn lemma_page_lists_what_the_service_sent(page: ListPage)
    ensures
        match page.listed() {
            Ok((objects, prefixes)) => {
                &&& objects.len() == page.contents@.len()
                &&& forall|i: int|
                    0 <= i < page.contents@.len() ==> is_complete(#[trigger] page.contents@[i])
                        && is_entry_of(objects[i], page.contents@[i])
                &&& prefixes.len() == page.common_prefixes@.len()
                &&& forall|i: int|
                    0 <= i < prefixes.len() ==> (
                    #[trigger] page.common_prefixes@[i] matches Some(prefix) && prefixes[i]
                        == prefix@)
            },
            Err(error) => {
                ||| exists|i: int|
                    0 <= i < page.contents@.len() && !is_complete(#[trigger] page.contents@[i])
                        && is_fault_of(error, page.contents@[i]) && forall|k: int|
                        0 <= k < i ==> is_complete(#[trigger] page.contents@[k])
                ||| error == S3ErrorView::FieldNotExist("prefix"@) && (forall|i: int|
                    0 <= i < page.contents@.len() ==> is_complete(#[trigger] page.contents@[i]))
                    && (exists|i: int|
                    0 <= i < page.common_prefixes@.len()
                        && #[trigger] page.common_prefixes@[i] is None)
            },
        },
{
    lemma_entries_give_objects(page.contents@);
}

/// An object is described in the same way by a listing and by the response to a HEAD or GET request
/// that say the same of it.
pub proof fn lemma_listing_and_response_agree(
    key: Seq<char>,
    listed: ListedObject,
    head: object::ObjectHead,
)
    requires
        listed.key.deep_view() == Some(key),
        listed.size is Some,
        listed.size == head.content_length,
        listed.last_modified == head.last_modified,
        listed.storage_class.deep_view() == head.storage_class.deep_view(),
        object::say_the_same(listed.restore_status, head.restore.deep_view()),
    ensures
        listed_object(listed) == object::described_object(key, head),
{
    object::lemma_restore_status_depends_on_what_is_said(
        listed.restore_status,
        head.restore.deep_view(),
    );
}

/// What pages list together holds the objects and prefixes of each page, one page after the other:
/// as many as all pages have, and those of the last page at the end.
pub proof fn lemma_pages_are_listed_one_after_another(pages: Seq<ListPage>, page: ListPage)
    ensures
        match (listed_pages(pages), page.listed(), listed_pages(pages.push(page))) {
            (Ok((objects, prefixes)), Ok((more_objects, more_prefixes)), Ok((all, all_prefixes))) => {
                &&& all.len() == objects.len() + more_objects.len()
                &&& all.take(objects.len() as int) == objects
                &&& all.skip(objects.len() as int) == more_objects
                &&& all_prefixes.len() == prefixes.len() + more_prefixes.len()
                &&& all_prefixes.take(prefixes.len() as int) == prefixes
                &&& all_prefixes.skip(prefixes.len() as int) == more_prefixes
            },
            (Ok(_), Err(error), Err(reported)) => reported == error,
            (Err(error), _, Err(reported)) => reported == error,
            _ => false,
        },
        listed_pages(Seq::empty()) matches Ok((objects, prefixes)) && objects.len() == 0
            && prefixes.len() == 0,
{
    let all = pages.push(page);
    assert(all.drop_last() =~= pages);
    assert(all.last() == page);
    if let (Ok((objects, prefixes)), Ok((more, more_prefixes))) = (
        listed_pages(pages),
        page.listed(),
    ) {
        assert((objects + more).take(objects.len() as int) =~= objects);
        assert((objects + more).skip(objects.len() as int) =~= more);
        assert((prefixes + more_prefixes).take(prefixes.len() as int) =~= prefixes);
        assert((prefixes + more_prefixes).skip(prefixes.len() as int) =~= more_prefixes);
    }
}

/// A listing goes on after a page exactly if the page says that it is not the last one and gives a
/// token that is not empty, and then with that token, in the bucket and under the prefix that were
/// asked for.
pub proof fn lemma_listing_goes_on_where_the_page_says(
    iter: ListObjectsV2PageIterView,
    page: ListPage,
)
    ensures
        match iter.after(page).next_call() {
            Some(call) => {
                &&& page.is_truncated == Some(true)
                &&& page.next_continuation_token matches Some(token) && token@.len() > 0
                    && call.request == (RequestView::ListObjectsV2 {
                    bucket: iter.bucket,
                    prefix: iter.prefix,
                    delimiter: iter.delimiter,
                    continuation_token: Some(token@),
                })
                &&& call.retried
            },
            None => page.is_truncated != Some(true) || page.next_continuation_token is None
                || page.next_continuation_token.unwrap()@.len() == 0,
        },
{
}

} // verus!
