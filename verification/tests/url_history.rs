use std::collections::hash_map::DefaultHasher;
use std::hash::{Hash, Hasher};

use declutter::config::Config;
use declutter::filter::declutter_url;
use declutter::parsed_url::{ParsedUrl, QueryParam};
use declutter::url_history::UrlHistoryItem;

fn param(name: &str, value: &str) -> QueryParam {
    QueryParam { name: name.to_string(), value: value.to_string() }
}

fn sample(query: Vec<QueryParam>, fragment: Option<&str>) -> ParsedUrl {
    ParsedUrl {
        scheme: "https".to_string(),
        host: Some("a.com".to_string()),
        port: Some(8080),
        path: "/x.html".to_string(),
        query,
        fragment: fragment.map(|f| f.to_string()),
    }
}

fn open_config() -> Config {
    Config {
        allow_extensions: Vec::new(),
        deny_extensions: Vec::new(),
        allow_duplicates: true,
        quiet: true,
    }
}

fn key_of(line: &str) -> String {
    let item = declutter_url(line, &Vec::new(), &open_config());
    item.expect("the line is a URL").as_str().to_string()
}

fn hash_of(item: &UrlHistoryItem) -> u64 {
    let mut hasher = DefaultHasher::new();
    item.hash(&mut hasher);
    hasher.finish()
}

#[test]
fn key_joins_scheme_host_port_path_and_names() {
    let item = UrlHistoryItem::from(sample(vec![param("b", "1"), param("c", "2")], Some("top")));
    assert_eq!(item.as_str(), "httpsa.com8080/x.htmlbc");
}

#[test]
fn key_without_host_port_and_query() {
    let url = ParsedUrl {
        scheme: "mailto".to_string(),
        host: None,
        port: None,
        path: "john@example.com".to_string(),
        query: Vec::new(),
        fragment: None,
    };
    assert_eq!(UrlHistoryItem::from(url).as_str(), "mailtojohn@example.com");
}

#[test]
fn key_of_an_empty_url() {
    let url = ParsedUrl {
        scheme: String::new(),
        host: None,
        port: None,
        path: String::new(),
        query: Vec::new(),
        fragment: None,
    };
    assert_eq!(UrlHistoryItem::from(url).as_str(), "");
}

#[test]
fn port_is_written_in_base_ten() {
    for (port, text) in [(0u16, "0"), (7, "7"), (80, "80"), (8080, "8080"), (65535, "65535")] {
        let url = ParsedUrl {
            scheme: "s".to_string(),
            host: Some("h".to_string()),
            port: Some(port),
            path: "/".to_string(),
            query: Vec::new(),
            fragment: None,
        };
        assert_eq!(UrlHistoryItem::from(url).as_str(), format!("sh{}/", text));
    }
}

#[test]
fn key_is_the_same_each_time() {
    let first = UrlHistoryItem::from(sample(vec![param("id", "1")], None));
    let second = UrlHistoryItem::from(sample(vec![param("id", "1")], None));
    assert_eq!(first, second);
    assert_eq!(first.as_str(), second.as_str());
    assert_eq!(key_of("https://a.com/x?id=1"), key_of("https://a.com/x?id=1"));
}

#[test]
fn key_ignores_the_fragment() {
    let plain = UrlHistoryItem::from(sample(vec![param("id", "1")], None));
    let marked = UrlHistoryItem::from(sample(vec![param("id", "1")], Some("section")));
    assert_eq!(plain, marked);
    assert_eq!(key_of("https://a.com/x#one"), key_of("https://a.com/x#two"));
    assert_eq!(key_of("https://a.com/x#one"), key_of("https://a.com/x"));
}

#[test]
fn key_ignores_query_values() {
    let one = UrlHistoryItem::from(sample(vec![param("id", "1"), param("p", "a")], None));
    let two = UrlHistoryItem::from(sample(vec![param("id", "2"), param("p", "a")], None));
    assert_eq!(one, two);
    assert_eq!(key_of("https://a.com/x?id=1"), key_of("https://a.com/x?id=2"));
}

#[test]
fn key_tells_query_names_apart() {
    let one = UrlHistoryItem::from(sample(vec![param("id", "1")], None));
    let other = UrlHistoryItem::from(sample(vec![param("no", "1")], None));
    assert_ne!(one, other);
    assert_ne!(key_of("https://a.com/x?id=1"), key_of("https://a.com/x?no=1"));
}

#[test]
fn key_tells_added_and_removed_parameters() {
    let bare = UrlHistoryItem::from(sample(Vec::new(), None));
    let one = UrlHistoryItem::from(sample(vec![param("id", "1")], None));
    let two = UrlHistoryItem::from(sample(vec![param("id", "1"), param("p", "a")], None));
    assert_ne!(bare, one);
    assert_ne!(one, two);
    assert_ne!(key_of("https://a.com/x"), key_of("https://a.com/x?utm=1"));
}

#[test]
fn parameter_with_empty_name_leaves_the_key_alone() {
    let bare = UrlHistoryItem::from(sample(Vec::new(), None));
    let nameless = UrlHistoryItem::from(sample(vec![param("", "1")], None));
    assert_eq!(bare, nameless);
    assert_eq!(key_of("https://a.com/x"), key_of("https://a.com/x?=1"));
}

#[test]
fn key_of_a_parsed_line() {
    assert_eq!(key_of("https://a.com:8080/x.html?b=1&c=2#frag"), "httpsa.com8080/x.htmlbc");
    assert_eq!(key_of("https://a.com"), "httpsa.com/");
    assert_eq!(key_of("HTTPS://A.com/Path"), "httpsa.com/Path");
    assert_eq!(key_of("mailto:john@example.com"), "mailtojohn@example.com");
}

#[test]
fn default_port_does_not_enter_the_key() {
    assert_eq!(key_of("https://a.com:443/x"), "httpsa.com/x");
    assert_eq!(key_of("http://a.com:443/x"), "httpa.com443/x");
}

#[test]
fn query_names_enter_the_key_decoded() {
    assert_eq!(key_of("https://a.com/x?a%20b=1&c+d=2"), "httpsa.com/xa bc d");
    assert_eq!(key_of("https://a.com/x?flag&k="), "httpsa.com/xflagk");
}

#[test]
fn items_compare_like_their_text() {
    let a = UrlHistoryItem::from(sample(vec![param("a", "")], None));
    let b = UrlHistoryItem::from(sample(vec![param("b", "")], None));
    let a_again = UrlHistoryItem::from(sample(vec![param("a", "other")], Some("f")));
    assert!(a == a_again);
    assert!(a != b);
    assert!(a < b);
    assert!(b > a);
    assert!(a <= a_again && a >= a_again);
    assert_eq!(a.cmp(&b), std::cmp::Ordering::Less);
    assert_eq!(a.partial_cmp(&a_again), Some(std::cmp::Ordering::Equal));
    assert_eq!(a.cmp(&b), a.as_str().cmp(b.as_str()));
}

#[test]
fn shorter_item_sorts_before_its_extension() {
    let short = UrlHistoryItem::from(sample(Vec::new(), None));
    let long = UrlHistoryItem::from(sample(vec![param("z", "")], None));
    assert!(short < long);
    assert_eq!(long.partial_cmp(&short), Some(std::cmp::Ordering::Greater));
}

#[test]
fn items_order_by_bytes() {
    let item = |path: &str| {
        UrlHistoryItem::from(ParsedUrl {
            scheme: String::new(),
            host: None,
            port: None,
            path: path.to_string(),
            query: Vec::new(),
            fragment: None,
        })
    };
    assert!(item("Z") < item("a"));
    assert!(item("z") < item("\u{e9}"));
    assert!(item("\u{ffff}") < item("\u{10000}"));
    assert_eq!(item("\u{e9}").cmp(&item("z")), "\u{e9}".cmp("z"));
}

#[test]
fn equal_items_hash_alike() {
    let a = UrlHistoryItem::from(sample(vec![param("a", "1")], None));
    let a_again = UrlHistoryItem::from(sample(vec![param("a", "2")], Some("f")));
    assert_eq!(hash_of(&a), hash_of(&a_again));
    let mut hasher = DefaultHasher::new();
    a.as_str().to_string().hash(&mut hasher);
    assert_eq!(hash_of(&a), hasher.finish());
}

#[test]
fn item_converts_with_into() {
    let item: UrlHistoryItem = sample(Vec::new(), None).into();
    assert_eq!(item.as_str(), "httpsa.com8080/x.html");
}
