//! The parts of a URL that the filter reads, and the parser that yields them.

use url::Url;
use vstd::prelude::*;

verus! {

/// One `name=value` pair of a query string, decoded.
#[derive(Debug)]
pub struct QueryParam {
    pub name: String,
    pub value: String,
}

/// A URL taken apart into its components. The query values and the fragment
/// are carried along, though the filter reads neither.
#[derive(Debug)]
pub struct ParsedUrl {
    /// Lower-cased, without the `:` delimiter.
    pub scheme: String,
    pub host: Option<String>,
    /// Absent where the URL gives no port or gives the default port of its
    /// scheme.
    pub port: Option<u16>,
    pub path: String,
    /// The query parameters in the order in which the URL lists them.
    pub query: Vec<QueryParam>,
    /// What follows `#`, if anything.
    pub fragment: Option<String>,
}

/// Mathematical model of a [`ParsedUrl`]. A query parameter is the pair of
/// its name and its value.
pub struct UrlParts {
    pub scheme: Seq<char>,
    pub host: Option<Seq<char>>,
    pub port: Option<u16>,
    pub path: Seq<char>,
    pub query: Seq<(Seq<char>, Seq<char>)>,
    pub fragment: Option<Seq<char>>,
}

impl DeepView for QueryParam {
    type V = (Seq<char>, Seq<char>);

    open spec fn deep_view(&self) -> (Seq<char>, Seq<char>) {
        (self.name@, self.value@)
    }
}

impl DeepView for ParsedUrl {
    type V = UrlParts;

    open spec fn deep_view(&self) -> UrlParts {
        UrlParts {
            scheme: self.scheme@,
            host: self.host.deep_view(),
            port: self.port,
            path: self.path@,
            query: self.query.deep_view(),
            fragment: self.fragment.deep_view(),
        }
    }
}

impl View for ParsedUrl {
    type V = UrlParts;

    open spec fn view(&self) -> UrlParts {
        self.deep_view()
    }
}

impl UrlParts {
    /// The names of the query parameters, in order.
    pub open spec fn query_names(self) -> Seq<Seq<char>> {
        self.query.map_values(|p: (Seq<char>, Seq<char>)| p.0)
    }

    /// This URL with another fragment, or none.
    pub open spec fn with_fragment(self, fragment: Option<Seq<char>>) -> UrlParts {
        UrlParts { fragment, ..self }
    }

    /// This URL with other query parameters.
    pub open spec fn with_query(self, query: Seq<(Seq<char>, Seq<char>)>) -> UrlParts {
        UrlParts { query, ..self }
    }
}

/// What `url::Url::parse` makes of `input`: the components of the URL, or
/// `None` where `input` is not an absolute URL.
pub uninterp spec fn url_parse(input: Seq<char>) -> Option<UrlParts>;

/// Parses `line` with `url::Url::parse` and copies out what the parsed URL
/// gives as its `scheme`, `host_str`, `port`, `path`, `query_pairs` and
/// `fragment`; `None` where the parser returns an error. Of the parser
/// nothing is claimed but that its result is a function of its input.
#[verifier::external_body]
pub(crate) fn parse_url(line: &str) -> (parsed: Option<ParsedUrl>)
    ensures
        parsed.deep_view() == url_parse(line@),
{
    match Url::parse(line) {
        Ok(u) => Some(ParsedUrl {
            scheme: u.scheme().to_string(),
            host: u.host_str().map(String::from),
            port: u.port(),
            path: u.path().to_string(),
            query: u
                .query_pairs()
                .map(|(n, v)| QueryParam { name: n.into_owned(), value: v.into_owned() })
                .collect(),
            fragment: u.fragment().map(String::from),
        }),
        Err(_) => None,
    }
}

} // verus!
