//! The normalized form of a URL by which duplicates are recognized.

use crate::parsed_url::{ParsedUrl, UrlParts};
use crate::text::{
    bytes_before, compare_bytes, decimal_text, lemma_bytes_before_total, push_decimal,
};
use std::cmp::Ordering;
use vstd::prelude::*;
use vstd::seq_lib::lemma_flatten_concat;
use vstd::utf8::{encode_utf8, encode_utf8_decode_utf8};

verus! {

/// The host as it enters the key: nothing where the URL has none.
pub open spec fn host_text(host: Option<Seq<char>>) -> Seq<char> {
    match host {
        Some(h) => h,
        None => Seq::empty(),
    }
}

/// The port as it enters the key: in base ten, nothing where the URL has none.
pub open spec fn port_text(port: Option<u16>) -> Seq<char> {
    match port {
        Some(p) => decimal_text(p as nat),
        None => Seq::empty(),
    }
}

/// The key of a URL: scheme, host, port, path and the names of the query
/// parameters, joined without separators. Query values and the fragment do
/// not enter it.
pub open spec fn history_key(url: UrlParts) -> Seq<char> {
    url.scheme + host_text(url.host) + port_text(url.port) + url.path
        + url.query_names().flatten()
}

/// A processed URL: like the URL itself, but without query values and
/// fragment. Two URLs are duplicates of each other when their items are equal.
#[derive(Debug, Eq, Ord, Hash)]
pub struct UrlHistoryItem {
    serialization: String,
}

impl View for UrlHistoryItem {
    type V = Seq<char>;

    closed spec fn view(&self) -> Seq<char> {
        self.serialization@
    }
}

impl DeepView for UrlHistoryItem {
    type V = Seq<char>;

    open spec fn deep_view(&self) -> Seq<char> {
        self@
    }
}

impl UrlHistoryItem {
    /// The key as text.
    pub fn as_str(&self) -> (text: &str)
        ensures
            text@ == self@,
    {
        self.serialization.as_str()
    }
}

/// An item is told by its text alone, and no value of it can be named from a
/// text in a specification: what `from` returns is stated on `from` itself.
impl vstd::std_specs::convert::FromSpecImpl<ParsedUrl> for UrlHistoryItem {
    open spec fn obeys_from_spec() -> bool {
        false
    }

    open spec fn from_spec(url: ParsedUrl) -> UrlHistoryItem {
        arbitrary()
    }
}

impl From<ParsedUrl> for UrlHistoryItem {
    /// Builds the key of `url`.
    fn from(url: ParsedUrl) -> (item: UrlHistoryItem)
        ensures
            item@ == history_key(url@),
    {
        let mut serialization = String::new();
        serialization.append(url.scheme.as_str());
        if let Some(host) = &url.host {
            serialization.append(host.as_str());
        }
        if let Some(port) = url.port {
            push_decimal(&mut serialization, port);
        }
        serialization.append(url.path.as_str());
        let ghost head = serialization@;
        let ghost names = url@.query_names();
        let mut i: usize = 0;
        while i < url.query.len()
            invariant
                i <= url.query.len(),
                names == url@.query_names(),
                serialization@ == head + names.take(i as int).flatten(),
            decreases url.query.len() - i,
        {
            proof {
                assert(names.take(i + 1) == names.take(i as int).push(names[i as int]));
                names.take(i as int).lemma_flatten_push(names[i as int]);
            }
            serialization.append(url.query[i].name.as_str());
            i = i + 1;
        }
        proof {
            assert(names.take(i as int) == names);
        }
        UrlHistoryItem { serialization }
    }
}

impl PartialEq for UrlHistoryItem {
    fn eq(&self, other: &Self) -> (equal: bool) {
        self.serialization == other.serialization
    }
}

impl vstd::std_specs::cmp::PartialEqSpecImpl for UrlHistoryItem {
    open spec fn obeys_eq_spec() -> bool {
        true
    }

    open spec fn eq_spec(&self, other: &Self) -> bool {
        self@ == other@
    }
}

/// How two texts compare: as their UTF-8 encodings do, byte by byte.
pub open spec fn text_order(a: Seq<char>, b: Seq<char>) -> Ordering {
    if bytes_before(encode_utf8(a), encode_utf8(b)) {
        Ordering::Less
    } else if bytes_before(encode_utf8(b), encode_utf8(a)) {
        Ordering::Greater
    } else {
        Ordering::Equal
    }
}

impl PartialOrd for UrlHistoryItem {
    fn partial_cmp(&self, other: &Self) -> (order: Option<Ordering>) {
        let order = compare_bytes(
            self.serialization.as_str().as_bytes(),
            other.serialization.as_str().as_bytes(),
        );
        if order < 0 {
            Some(Ordering::Less)
        } else if order > 0 {
            Some(Ordering::Greater)
        } else {
            Some(Ordering::Equal)
        }
    }
}

impl vstd::std_specs::cmp::PartialOrdSpecImpl for UrlHistoryItem {
    open spec fn obeys_partial_cmp_spec() -> bool {
        true
    }

    open spec fn partial_cmp_spec(&self, other: &Self) -> Option<Ordering> {
        Some(text_order(self@, other@))
    }
}

/// Two texts compare as equal exactly where they are the same text, and
/// swapping them swaps less and greater: items are ordered as they are
/// told apart.
pub proof fn lemma_text_order_agrees_with_equality(a: Seq<char>, b: Seq<char>)
    ensures
        text_order(a, b) == Ordering::Equal <==> a == b,
        text_order(a, b) == Ordering::Less <==> text_order(b, a) == Ordering::Greater,
{
    lemma_bytes_before_total(encode_utf8(b), encode_utf8(a));
    encode_utf8_decode_utf8(a);
    encode_utf8_decode_utf8(b);
}

/// A list of texts joined is what precedes its `i`-th text, that text, and
/// what follows it.
proof fn lemma_flatten_around(names: Seq<Seq<char>>, i: int)
    requires
        0 <= i < names.len(),
    ensures
        names.flatten() == names.take(i).flatten() + names[i] + names.skip(i + 1).flatten(),
{
    assert(names == names.take(i) + seq![names[i]] + names.skip(i + 1));
    lemma_flatten_concat(names.take(i) + seq![names[i]], names.skip(i + 1));
    lemma_flatten_concat(names.take(i), seq![names[i]]);
    seq![names[i]].lemma_flatten_one_element();
}

/// The key depends on nothing but the scheme, host, port, path and query
/// names: two URLs that agree on these have the same key, so that the key of
/// one URL comes out the same each time it is computed.
pub proof fn lemma_key_determined_by_parts(a: UrlParts, b: UrlParts)
    requires
        a.scheme == b.scheme,
        a.host == b.host,
        a.port == b.port,
        a.path == b.path,
        a.query_names() == b.query_names(),
    ensures
        history_key(a) == history_key(b),
{
}

/// Two URLs that differ in their fragment only have the same key.
pub proof fn lemma_key_ignores_fragment(url: UrlParts, fragment: Option<Seq<char>>)
    ensures
        history_key(url.with_fragment(fragment)) == history_key(url),
{
}

/// Two URLs that differ in the value of one query parameter only have the
/// same key.
pub proof fn lemma_key_ignores_query_value(url: UrlParts, i: int, value: Seq<char>)
    requires
        0 <= i < url.query.len(),
    ensures
        history_key(url.with_query(url.query.update(i, (url.query[i].0, value)))) == history_key(
            url,
        ),
{
    let changed = url.with_query(url.query.update(i, (url.query[i].0, value)));
    assert(changed.query_names() =~= url.query_names());
}

/// Two URLs that differ in the name of one query parameter have different
/// keys.
pub proof fn lemma_key_tells_query_names_apart(url: UrlParts, i: int, name: Seq<char>)
    requires
        0 <= i < url.query.len(),
        name != url.query[i].0,
    ensures
        history_key(url.with_query(url.query.update(i, (name, url.query[i].1)))) != history_key(
            url,
        ),
{
    let changed = url.with_query(url.query.update(i, (name, url.query[i].1)));
    let names = url.query_names();
    let renamed = changed.query_names();
    assert(renamed.take(i) =~= names.take(i));
    assert(renamed.skip(i + 1) =~= names.skip(i + 1));
    lemma_flatten_around(names, i);
    lemma_flatten_around(renamed, i);
    let head = url.scheme + host_text(url.host) + port_text(url.port) + url.path
        + names.take(i).flatten();
    let tail = names.skip(i + 1).flatten();
    assert(history_key(changed) =~= head + name + tail);
    if history_key(changed) == history_key(url) {
        assert forall|k: int| 0 <= k < name.len() implies name[k] == names[i][k] by {
            assert((head + name + tail)[head.len() + k] == name[k]);
        }
        assert(name =~= names[i]);
    }
}

/// Adding a query parameter with a name that is not empty changes the key.
pub proof fn lemma_key_tells_added_parameter(
    url: UrlParts,
    i: int,
    param: (Seq<char>, Seq<char>),
)
    requires
        0 <= i <= url.query.len(),
        param.0.len() > 0,
    ensures
        history_key(url.with_query(url.query.insert(i, param))) != history_key(url),
{
    let changed = url.with_query(url.query.insert(i, param));
    let names = url.query_names();
    let longer = changed.query_names();
    assert(longer.take(i) =~= names.take(i));
    assert(longer.skip(i + 1) =~= names.skip(i));
    lemma_flatten_around(longer, i);
    assert(names == names.take(i) + names.skip(i));
    lemma_flatten_concat(names.take(i), names.skip(i));
    assert(history_key(changed).len() == history_key(url).len() + param.0.len());
}

/// Removing a query parameter with a name that is not empty changes the key.
pub proof fn lemma_key_tells_removed_parameter(url: UrlParts, i: int)
    requires
        0 <= i < url.query.len(),
        url.query[i].0.len() > 0,
    ensures
        history_key(url.with_query(url.query.remove(i))) != history_key(url),
{
    let changed = url.with_query(url.query.remove(i));
    assert(changed.query.insert(i, url.query[i]) =~= url.query);
    lemma_key_tells_added_parameter(changed, i, url.query[i]);
}

} // verus!
