//! The request builder.
//!
//! A [`RequestBuilder`] is either empty or holds one [`RequestComponents`]
//! snapshot. Each of `method`, `url` and `header` consumes the builder and
//! returns a new one whose snapshot differs from the old one, or from the
//! default snapshot where there was none, in that one field. What the
//! updates do is written once, on [`BuilderView`]; the executable functions
//! are proved against it, and so are the rules the updates obey.

use crate::header::{fold_pairs, lemma_fold_pairs_concat, Header, HeaderMap};
use crate::method::Method;
use crate::text::str_eq;
use crate::url::Url;
use vstd::prelude::*;
use vstd::std_specs::cmp::PartialEqSpecImpl;
use vstd::string::StringExecFns;

verus! {

/// What a snapshot holds: the method, the URL's text, and the headers as a
/// map from names to values.
pub struct ComponentsView {
    pub method: Method,
    pub url: Seq<char>,
    pub header: Map<Seq<char>, Seq<char>>,
}

/// The snapshot that stands in for a missing one: `GET`, the empty URL and
/// no headers.
pub open spec fn default_components() -> ComponentsView {
    ComponentsView { method: Method::Get, url: Seq::empty(), header: Map::empty() }
}

/// The headers after `name: value` was added to `existing`: a value that
/// `existing` has for `name` stays and `value` is dropped; a name without a
/// value is mapped to `value`. The other names are mapped as before.
pub open spec fn merge_header(
    existing: Map<Seq<char>, Seq<char>>,
    name: Seq<char>,
    value: Seq<char>,
) -> Map<Seq<char>, Seq<char>> {
    if existing.contains_key(name) {
        existing
    } else {
        existing.insert(name, value)
    }
}

/// What a builder holds: a snapshot once a field was set, and a body.
pub struct BuilderView {
    pub components: Option<ComponentsView>,
    pub body: Option<Seq<char>>,
}

impl BuilderView {
    /// The builder that nothing was set on.
    pub open spec fn empty() -> BuilderView {
        BuilderView { components: None, body: None }
    }

    /// The snapshot that the next update starts from: the builder's own, or
    /// the default one where the builder is empty.
    pub open spec fn snapshot(self) -> ComponentsView {
        match self.components {
            Some(components) => components,
            None => default_components(),
        }
    }

    /// The builder after `method` was set.
    pub open spec fn with_method(self, method: Method) -> BuilderView {
        BuilderView {
            components: Some(ComponentsView { method, ..self.snapshot() }),
            body: self.body,
        }
    }

    /// The builder after the URL was set to the text `url`.
    pub open spec fn with_url(self, url: Seq<char>) -> BuilderView {
        BuilderView { components: Some(ComponentsView { url, ..self.snapshot() }), body: self.body }
    }

    /// The builder after the header `name: value` was added.
    pub open spec fn with_header(self, name: Seq<char>, value: Seq<char>) -> BuilderView {
        BuilderView {
            components: Some(
                ComponentsView {
                    header: merge_header(self.snapshot().header, name, value),
                    ..self.snapshot()
                },
            ),
            body: self.body,
        }
    }
}

/// `merge_header` is what inserting the new pair alone into an empty map
/// and the existing pairs after it gives: where both have the name, the
/// existing pair is inserted last and decides.
pub proof fn lemma_merge_header_is_union(
    existing: Map<Seq<char>, Seq<char>>,
    name: Seq<char>,
    value: Seq<char>,
)
    ensures
        merge_header(existing, name, value) == Map::<Seq<char>, Seq<char>>::empty().insert(
            name,
            value,
        ).union_prefer_right(existing),
{
    let union = Map::<Seq<char>, Seq<char>>::empty().insert(name, value).union_prefer_right(
        existing,
    );
    assert(merge_header(existing, name, value) =~= union);
}

/// An empty builder has no snapshot. Its first update gives it one, in
/// which the two fields that were not set are those of the default
/// snapshot: `GET`, the empty URL, no headers.
pub proof fn lemma_first_update(
    method: Method,
    url: Seq<char>,
    name: Seq<char>,
    value: Seq<char>,
)
    ensures
        BuilderView::empty().components is None,
        BuilderView::empty().with_method(method).components == Some(
            ComponentsView { method, url: Seq::empty(), header: Map::empty() },
        ),
        BuilderView::empty().with_url(url).components == Some(
            ComponentsView { method: Method::Get, url, header: Map::empty() },
        ),
        BuilderView::empty().with_header(name, value).components == Some(
            ComponentsView {
                method: Method::Get,
                url: Seq::empty(),
                header: Map::<Seq<char>, Seq<char>>::empty().insert(name, value),
            },
        ),
{
}

/// Every update leaves the builder with a snapshot, replaces the one field
/// it is about, and hands on the other two fields and the body as they
/// stood in the snapshot it started from.
pub proof fn lemma_update_replaces_one_field(
    builder: BuilderView,
    method: Method,
    url: Seq<char>,
    name: Seq<char>,
    value: Seq<char>,
)
    ensures
        builder.with_method(method).components == Some(
            ComponentsView {
                method,
                url: builder.snapshot().url,
                header: builder.snapshot().header,
            },
        ),
        builder.with_url(url).components == Some(
            ComponentsView {
                method: builder.snapshot().method,
                url,
                header: builder.snapshot().header,
            },
        ),
        builder.with_header(name, value).components == Some(
            ComponentsView {
                method: builder.snapshot().method,
                url: builder.snapshot().url,
                header: merge_header(builder.snapshot().header, name, value),
            },
        ),
        builder.with_method(method).body == builder.body,
        builder.with_url(url).body == builder.body,
        builder.with_header(name, value).body == builder.body,
{
}

/// Of two methods set one after the other, the second is the builder's
/// method, as if the first had never been set.
pub proof fn lemma_method_last_wins(builder: BuilderView, first: Method, second: Method)
    ensures
        builder.with_method(first).with_method(second).snapshot().method == second,
        builder.with_method(first).with_method(second) == builder.with_method(second),
{
}

/// Of two URLs set one after the other, the second is the builder's URL, as
/// if the first had never been set.
pub proof fn lemma_url_last_wins(builder: BuilderView, first: Seq<char>, second: Seq<char>)
    ensures
        builder.with_url(first).with_url(second).snapshot().url == second,
        builder.with_url(first).with_url(second) == builder.with_url(second),
{
}

/// Setting the method and setting the URL do not touch each other: in
/// either order they give the same builder.
pub proof fn lemma_method_and_url_commute(builder: BuilderView, method: Method, url: Seq<char>)
    ensures
        builder.with_method(method).with_url(url) == builder.with_url(url).with_method(method),
{
}

/// After a header was added its name has a value: the one it had before,
/// or else the one just given. Every other name is mapped as before.
pub proof fn lemma_header_lookup(builder: BuilderView, name: Seq<char>, value: Seq<char>)
    ensures
        ({
            let before = builder.snapshot().header;
            let after = builder.with_header(name, value).snapshot().header;
            &&& after.dom() == before.dom().insert(name)
            &&& after[name] == if before.contains_key(name) {
                before[name]
            } else {
                value
            }
            &&& forall|other: Seq<char>| before.contains_key(other) ==> after[other] == before[other]
        }),
{
    let before = builder.snapshot().header;
    let after = builder.with_header(name, value).snapshot().header;
    assert(after.dom() =~= before.dom().insert(name));
}

/// Where one name is given two values one after the other, the first one
/// stays: the second call changes nothing.
pub proof fn lemma_header_first_wins(
    builder: BuilderView,
    name: Seq<char>,
    first: Seq<char>,
    second: Seq<char>,
)
    ensures
        builder.with_header(name, first).with_header(name, second) == builder.with_header(
            name,
            first,
        ),
        !builder.snapshot().header.contains_key(name) ==> builder.with_header(
            name,
            first,
        ).with_header(name, second).snapshot().header[name] == first,
{
}

/// Headers of two different names are both kept, each with its own value
/// unless the builder had one for its name already, and the order in which
/// the two are added makes no difference.
pub proof fn lemma_distinct_headers_accumulate(
    builder: BuilderView,
    name_a: Seq<char>,
    value_a: Seq<char>,
    name_b: Seq<char>,
    value_b: Seq<char>,
)
    requires
        name_a != name_b,
    ensures
        ({
            let before = builder.snapshot().header;
            let after = builder.with_header(name_a, value_a).with_header(
                name_b,
                value_b,
            ).snapshot().header;
            &&& after.dom() == before.dom().insert(name_a).insert(name_b)
            &&& !before.contains_key(name_a) ==> after[name_a] == value_a
            &&& !before.contains_key(name_b) ==> after[name_b] == value_b
        }),
        builder.with_header(name_a, value_a).with_header(name_b, value_b) == builder.with_header(
            name_b,
            value_b,
        ).with_header(name_a, value_a),
{
    let before = builder.snapshot().header;
    let a = builder.with_header(name_a, value_a);
    let b = builder.with_header(name_b, value_b);
    let ab = a.with_header(name_b, value_b);
    let ba = b.with_header(name_a, value_a);
    assert(ab.snapshot().header =~= ba.snapshot().header);
    assert(ab.snapshot().header.dom() =~= before.dom().insert(name_a).insert(name_b));
}

/// A snapshot of what a builder has accumulated: method, URL and headers.
#[derive(Debug)]
pub struct RequestComponents {
    pub method: Method,
    pub url: Url,
    pub header: Header,
}

impl View for RequestComponents {
    type V = ComponentsView;

    open spec fn view(&self) -> ComponentsView {
        ComponentsView { method: self.method, url: self.url@, header: self.header@ }
    }
}

impl Default for RequestComponents {
    /// `GET`, the empty URL and no headers.
    fn default() -> (components: Self)
        ensures
            components@ == default_components(),
    {
        proof {
            reveal_strlit("");
        }
        let url = Url::new("");
        assert(url@ =~= Seq::<char>::empty());
        RequestComponents { method: Method::Get, url, header: Header::from(HeaderMap::new()) }
    }
}

impl Clone for RequestComponents {
    fn clone(&self) -> (components: Self)
        ensures
            components@ == self@,
    {
        RequestComponents {
            method: self.method,
            url: self.url.clone(),
            header: self.header.clone(),
        }
    }
}

impl PartialEq for RequestComponents {
    fn eq(&self, other: &Self) -> (same: bool) {
        self.method == other.method && self.url == other.url && self.header == other.header
    }
}

impl PartialEqSpecImpl for RequestComponents {
    open spec fn obeys_eq_spec() -> bool {
        true
    }

    open spec fn eq_spec(&self, other: &Self) -> bool {
        self@ == other@
    }
}

impl Eq for RequestComponents {

}

/// Accumulates a method, a URL and headers, one update at a time.
#[derive(Debug)]
pub struct RequestBuilder {
    components: Option<RequestComponents>,
    body: Option<String>,
}

impl View for RequestBuilder {
    type V = BuilderView;

    closed spec fn view(&self) -> BuilderView {
        BuilderView {
            components: match self.components {
                Some(components) => Some(components@),
                None => None,
            },
            body: match self.body {
                Some(body) => Some(body@),
                None => None,
            },
        }
    }
}

impl RequestBuilder {
    /// A builder on which nothing is set.
    pub fn new() -> (builder: Self)
        ensures
            builder@ == BuilderView::empty(),
    {
        RequestBuilder { components: None, body: None }
    }

    /// A copy of the builder's snapshot; `None` until a field has been set.
    pub fn components(&self) -> (snapshot: Option<RequestComponents>)
        ensures
            match snapshot {
                Some(components) => self@.components == Some(components@),
                None => self@.components is None,
            },
    {
        match &self.components {
            Some(components) => Some(components.clone()),
            None => None,
        }
    }

    /// Takes the builder apart into the snapshot that the next update
    /// starts from, and the body.
    fn into_parts(self) -> (parts: (RequestComponents, Option<String>))
        ensures
            parts.0@ == self@.snapshot(),
            match parts.1 {
                Some(body) => self@.body == Some(body@),
                None => self@.body is None,
            },
    {
        let RequestBuilder { components, body } = self;
        let current = match components {
            Some(components) => components,
            None => RequestComponents::default(),
        };
        (current, body)
    }

    /// Sets the method. The URL and the headers stay as they were; on an
    /// empty builder they are those of the default snapshot.
    pub fn method(self, method: Method) -> (builder: Self)
        ensures
            builder@ == self@.with_method(method),
    {
        let (current, body) = self.into_parts();
        let components = RequestComponents { method, url: current.url, header: current.header };
        RequestBuilder { components: Some(components), body }
    }

    /// Sets the URL to `url`, split into its parts. The method and the
    /// headers stay as they were; on an empty builder they are those of the
    /// default snapshot.
    pub fn url(self, url: &str) -> (builder: Self)
        ensures
            builder@ == self@.with_url(url@),
    {
        let url = Url::new(url);
        let (current, body) = self.into_parts();
        let components = RequestComponents { method: current.method, url, header: current.header };
        RequestBuilder { components: Some(components), body }
    }

    /// Adds the header `name: value`. The new pair and then the pairs of
    /// the current headers are inserted, in that order, into a fresh map:
    /// where `name` already has a value, that value stays. The method and
    /// the URL stay as they were; on an empty builder they are those of the
    /// default snapshot.
    pub fn header(self, name: &str, value: &str) -> (builder: Self)
        ensures
            builder@ == self@.with_header(name@, value@),
    {
        let mut added = HeaderMap::new();
        added.insert(String::from_str(name), String::from_str(value));
        let (current, body) = self.into_parts();
        let RequestComponents { method, url, header: existing } = current;
        let mut pairs = added.into_pairs();
        let mut others = HeaderMap::from(existing).into_pairs();
        let ghost first = pairs.deep_view();
        let ghost second = others.deep_view();
        pairs.append(&mut others);
        proof {
            assert(pairs.deep_view() =~= first + second);
            lemma_fold_pairs_concat(first, second);
            lemma_merge_header_is_union(fold_pairs(second), name@, value@);
        }
        let merged = Header::from(HeaderMap::from_pairs(pairs));
        let components = RequestComponents { method, url, header: merged };
        RequestBuilder { components: Some(components), body }
    }
}

impl Default for RequestBuilder {
    /// A builder on which nothing is set.
    fn default() -> (builder: Self)
        ensures
            builder@ == BuilderView::empty(),
    {
        RequestBuilder::new()
    }
}

impl Clone for RequestBuilder {
    fn clone(&self) -> (builder: Self)
        ensures
            builder@ == self@,
    {
        RequestBuilder {
            components: match &self.components {
                Some(components) => Some(components.clone()),
                None => None,
            },
            body: match &self.body {
                Some(body) => Some(body.clone()),
                None => None,
            },
        }
    }
}

impl PartialEq for RequestBuilder {
    fn eq(&self, other: &Self) -> (same: bool) {
        let same_components = match (&self.components, &other.components) {
            (Some(mine), Some(theirs)) => mine == theirs,
            (None, None) => true,
            _ => false,
        };
        let same_body = match (&self.body, &other.body) {
            (Some(mine), Some(theirs)) => str_eq(mine.as_str(), theirs.as_str()),
            (None, None) => true,
            _ => false,
        };
        same_components && same_body
    }
}

impl PartialEqSpecImpl for RequestBuilder {
    open spec fn obeys_eq_spec() -> bool {
        true
    }

    open spec fn eq_spec(&self, other: &Self) -> bool {
        self@ == other@
    }
}

impl Eq for RequestBuilder {

}

/// A request: a finished snapshot together with a body.
#[derive(Debug)]
pub struct Request {
    components: RequestComponents,
    body: String,
}

/// What a request holds: a snapshot and the text of the body.
pub struct RequestView {
    pub components: ComponentsView,
    pub body: Seq<char>,
}

impl View for Request {
    type V = RequestView;

    closed spec fn view(&self) -> RequestView {
        RequestView { components: self.components@, body: self.body@ }
    }
}

impl Clone for Request {
    fn clone(&self) -> (request: Self)
        ensures
            request@ == self@,
    {
        Request { components: self.components.clone(), body: self.body.clone() }
    }
}

impl PartialEq for Request {
    fn eq(&self, other: &Self) -> (same: bool) {
        self.components == other.components && str_eq(self.body.as_str(), other.body.as_str())
    }
}

impl PartialEqSpecImpl for Request {
    open spec fn obeys_eq_spec() -> bool {
        true
    }

    open spec fn eq_spec(&self, other: &Self) -> bool {
        self@ == other@
    }
}

impl Eq for Request {

}

impl Request {
    /// A builder on which nothing is set.
    pub fn builder() -> (builder: RequestBuilder)
        ensures
            builder@ == BuilderView::empty(),
    {
        RequestBuilder::default()
    }

    /// A builder for a `GET` request to `url`.
    pub fn get(url: &str) -> (builder: RequestBuilder)
        ensures
            builder@ == BuilderView::empty().with_method(Method::Get).with_url(url@),
    {
        Request::builder().method(Method::Get).url(url)
    }

    /// A builder for a `POST` request to `url`.
    pub fn post(url: &str) -> (builder: RequestBuilder)
        ensures
            builder@ == BuilderView::empty().with_method(Method::Post).with_url(url@),
    {
        Request::builder().method(Method::Post).url(url)
    }

    /// A builder for a `PUT` request to `url`.
    pub fn put(url: &str) -> (builder: RequestBuilder)
        ensures
            builder@ == BuilderView::empty().with_method(Method::Put).with_url(url@),
    {
        Request::builder().method(Method::Put).url(url)
    }

    /// A builder for a `DELETE` request to `url`.
    pub fn delete(url: &str) -> (builder: RequestBuilder)
        ensures
            builder@ == BuilderView::empty().with_method(Method::Delete).with_url(url@),
    {
        Request::builder().method(Method::Delete).url(url)
    }
}

} // verus!
