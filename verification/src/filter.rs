//! The filter: which lines of a list of URLs are let through.

use crate::config::{Config, ConfigView};
use crate::extension::{spec_path_extension, url_parse_extension};
use crate::parsed_url::{parse_url, url_parse, ParsedUrl, UrlParts};
use crate::url_history::{history_key, UrlHistoryItem};
use vstd::prelude::*;

verus! {

/// Whether a URL with extension `ext` passes the allow-list and the
/// deny-list. A URL without extension passes both. An extension passes the
/// allow-list where the list is empty or holds it, and passes the deny-list
/// where the list does not hold it.
pub open spec fn extension_passes(cfg: ConfigView, ext: Option<Seq<char>>) -> bool {
    match ext {
        None => true,
        Some(e) => (cfg.allow_extensions.len() == 0 || cfg.allow_extensions.contains(e))
            && !cfg.deny_extensions.contains(e),
    }
}

/// What becomes of one line: the key under which it is accepted, or `None`
/// where the line is no URL, its extension does not pass, or duplicates are
/// denied and its key is in `history` already.
pub open spec fn declutter_outcome(
    parsed: Option<UrlParts>,
    history: Seq<Seq<char>>,
    cfg: ConfigView,
) -> Option<Seq<char>> {
    match parsed {
        None => None,
        Some(url) => if !extension_passes(cfg, spec_path_extension(url.path)) {
            None
        } else if !cfg.allow_duplicates && history.contains(history_key(url)) {
            None
        } else {
            Some(history_key(url))
        },
    }
}

/// A history after a line with the given outcome: longer by the line's key
/// where the line is accepted, unchanged where it is rejected.
pub open spec fn recorded(history: Seq<Seq<char>>, outcome: Option<Seq<char>>) -> Seq<Seq<char>> {
    match outcome {
        Some(key) => history.push(key),
        None => history,
    }
}

/// The state of a run: the keys of the lines accepted so far, and those lines.
pub struct RunState {
    pub history: Seq<Seq<char>>,
    pub output: Seq<Seq<char>>,
}

/// The state after `line` is fed to a run in state `state`.
pub open spec fn declutter_step(state: RunState, line: Seq<char>, cfg: ConfigView) -> RunState {
    let outcome = declutter_outcome(url_parse(line), state.history, cfg);
    RunState {
        history: recorded(state.history, outcome),
        output: if outcome is Some {
            state.output.push(line)
        } else {
            state.output
        },
    }
}

/// The state after `lines` are fed, first to last, to a run that starts with
/// an empty history.
pub open spec fn declutter_run(lines: Seq<Seq<char>>, cfg: ConfigView) -> RunState
    decreases lines.len(),
{
    if lines.len() == 0 {
        RunState { history: Seq::empty(), output: Seq::empty() }
    } else {
        declutter_step(declutter_run(lines.drop_last(), cfg), lines.last(), cfg)
    }
}

fn list_contains(list: &Vec<String>, text: &String) -> (found: bool)
    ensures
        found == list.deep_view().contains(text@),
{
    let mut i: usize = 0;
    while i < list.len()
        invariant
            i <= list.len(),
            forall|j: int| 0 <= j < i ==> list.deep_view()[j] != text@,
        decreases list.len() - i,
    {
        if list[i] == *text {
            assert(list.deep_view()[i as int] == text@);
            return true;
        }
        i = i + 1;
    }
    false
}

fn history_contains(history: &Vec<UrlHistoryItem>, item: &UrlHistoryItem) -> (found: bool)
    ensures
        found == history.deep_view().contains(item@),
{
    let mut i: usize = 0;
    while i < history.len()
        invariant
            i <= history.len(),
            forall|j: int| 0 <= j < i ==> history.deep_view()[j] != item@,
        decreases history.len() - i,
    {
        if history[i] == *item {
            assert(history.deep_view()[i as int] == item@);
            return true;
        }
        i = i + 1;
    }
    false
}

/// Decides on a line from what the parser made of it: `Some` with the line's
/// history item where the line is accepted, `None` where it is rejected.
/// The allow-list is consulted first, then the deny-list, then the history.
/// `history` is left as it is; the caller records the item.
pub fn declutter_parsed(
    parsed: Option<ParsedUrl>,
    history: &Vec<UrlHistoryItem>,
    cfg: &Config,
) -> (item: Option<UrlHistoryItem>)
    ensures
        item.deep_view() == declutter_outcome(parsed.deep_view(), history.deep_view(), cfg@),
{
    match parsed {
        None => None,
        Some(url) => {
            if let Some(extension) = url_parse_extension(&url) {
                if !cfg.allow_extensions.is_empty() && !list_contains(
                    &cfg.allow_extensions,
                    &extension,
                ) {
                    return None;
                } else if list_contains(&cfg.deny_extensions, &extension) {
                    return None;
                }
            }
            let item = UrlHistoryItem::from(url);
            if !cfg.allow_duplicates && history_contains(history, &item) {
                return None;
            }
            Some(item)
        },
    }
}

/// Decides on one line of input: `Some` with the line's history item where
/// the line is a URL and is accepted, `None` where it is rejected.
/// `history` is left as it is; the caller records the item.
pub fn declutter_url(url: &str, history: &Vec<UrlHistoryItem>, cfg: &Config) -> (item: Option<
    UrlHistoryItem,
>)
    ensures
        item.deep_view() == declutter_outcome(url_parse(url@), history.deep_view(), cfg@),
{
    declutter_parsed(parse_url(url), history, cfg)
}

/// Feeds one line to a run: returns whether the line is to be emitted, and
/// records its key in `history` if so.
pub fn declutter_line(line: &str, history: &mut Vec<UrlHistoryItem>, cfg: &Config) -> (emit: bool)
    ensures
        emit == (declutter_outcome(url_parse(line@), old(history).deep_view(), cfg@) is Some),
        final(history).deep_view() == recorded(
            old(history).deep_view(),
            declutter_outcome(url_parse(line@), old(history).deep_view(), cfg@),
        ),
{
    match declutter_url(line, history, cfg) {
        Some(item) => {
            history.push(item);
            true
        },
        None => false,
    }
}

/// Filters `lines`: returns, in their order and unchanged, the lines that are
/// accepted when the lines are fed one after the other to a run that starts
/// with an empty history.
pub fn declutter(cfg: &Config, lines: &Vec<String>) -> (output: Vec<String>)
    ensures
        output.deep_view() == declutter_run(lines.deep_view(), cfg@).output,
{
    let mut history: Vec<UrlHistoryItem> = Vec::new();
    let mut output: Vec<String> = Vec::new();
    let mut i: usize = 0;
    assert(history.deep_view() =~= Seq::empty());
    assert(output.deep_view() =~= Seq::empty());
    while i < lines.len()
        invariant
            i <= lines.len(),
            declutter_run(lines.deep_view().take(i as int), cfg@) == (RunState {
                history: history.deep_view(),
                output: output.deep_view(),
            }),
        decreases lines.len() - i,
    {
        proof {
            let fed = lines.deep_view().take(i + 1);
            assert(fed.drop_last() == lines.deep_view().take(i as int));
        }
        if declutter_line(lines[i].as_str(), &mut history, cfg) {
            let ghost emitted = output.deep_view();
            output.push(lines[i].clone());
            assert(output.deep_view() =~= emitted.push(lines@[i as int]@));
        }
        i = i + 1;
    }
    assert(lines.deep_view().take(i as int) == lines.deep_view());
    output
}

/// A line that is no URL leaves a run as it was: nothing is emitted and the
/// history is not touched.
pub proof fn lemma_unparseable_line_changes_nothing(
    state: RunState,
    line: Seq<char>,
    cfg: ConfigView,
)
    requires
        url_parse(line) is None,
    ensures
        declutter_step(state, line, cfg) == state,
{
}

/// An extension on the deny-list is rejected whatever the allow-list holds,
/// and a URL without extension passes both lists.
pub proof fn lemma_deny_list_overrides_allow_list(cfg: ConfigView, ext: Seq<char>)
    ensures
        cfg.deny_extensions.contains(ext) ==> !extension_passes(cfg, Some(ext)),
        extension_passes(cfg, None),
{
}

/// Where duplicates are allowed, what becomes of a line does not depend on
/// the history: a line that is accepted once is accepted every time.
pub proof fn lemma_allowed_duplicates_ignore_history(
    parsed: Option<UrlParts>,
    earlier: Seq<Seq<char>>,
    later: Seq<Seq<char>>,
    cfg: ConfigView,
)
    requires
        cfg.allow_duplicates,
    ensures
        declutter_outcome(parsed, earlier, cfg) == declutter_outcome(parsed, later, cfg),
{
}

/// Whether `line` is a URL whose extension passes the lists of `cfg`.
pub open spec fn passes_without_history(line: Seq<char>, cfg: ConfigView) -> bool {
    url_parse(line) matches Some(url) && extension_passes(cfg, spec_path_extension(url.path))
}

/// Where duplicates are allowed, a run emits every line that is a URL with a
/// passing extension, as often as the input holds it and in the order of the
/// input.
pub proof fn lemma_allowed_duplicates_emit_each_time(lines: Seq<Seq<char>>, cfg: ConfigView)
    requires
        cfg.allow_duplicates,
    ensures
        declutter_run(lines, cfg).output == lines.filter(
            |line: Seq<char>| passes_without_history(line, cfg),
        ),
    decreases lines.len(),
{
    reveal(Seq::filter);
    if lines.len() > 0 {
        lemma_allowed_duplicates_emit_each_time(lines.drop_last(), cfg);
    }
}

/// The positions in `lines` of the lines that a run accepts, in rising order.
pub open spec fn accepted_positions(lines: Seq<Seq<char>>, cfg: ConfigView) -> Seq<int>
    decreases lines.len(),
{
    if lines.len() == 0 {
        Seq::empty()
    } else {
        let before = accepted_positions(lines.drop_last(), cfg);
        let state = declutter_run(lines.drop_last(), cfg);
        if declutter_outcome(url_parse(lines.last()), state.history, cfg) is Some {
            before.push(lines.len() - 1)
        } else {
            before
        }
    }
}

/// The output of a run is made of lines of its input, each as it was given,
/// in the order of the input: the `k`-th emitted line is the input line at
/// the `k`-th accepted position, and these positions rise. The history holds
/// one key for each emitted line, that of the line.
pub proof fn lemma_output_keeps_input_order(lines: Seq<Seq<char>>, cfg: ConfigView)
    ensures
        declutter_run(lines, cfg).output.len() == accepted_positions(lines, cfg).len(),
        declutter_run(lines, cfg).history.len() == accepted_positions(lines, cfg).len(),
        forall|k: int|
            0 <= k < accepted_positions(lines, cfg).len() ==> {
                let at = #[trigger] accepted_positions(lines, cfg)[k];
                &&& 0 <= at < lines.len()
                &&& declutter_run(lines, cfg).output[k] == lines[at]
                &&& url_parse(lines[at]) is Some
                &&& declutter_run(lines, cfg).history[k] == history_key(
                    url_parse(lines[at]).unwrap(),
                )
            },
        forall|j: int, k: int|
            0 <= j < k < accepted_positions(lines, cfg).len() ==> accepted_positions(lines, cfg)[j]
                < accepted_positions(lines, cfg)[k],
    decreases lines.len(),
{
    if lines.len() > 0 {
        lemma_output_keeps_input_order(lines.drop_last(), cfg);
    }
}

/// Where duplicates are denied, no key enters the history twice: any two
/// emitted lines have different keys.
pub proof fn lemma_denied_duplicates_keep_keys_apart(lines: Seq<Seq<char>>, cfg: ConfigView)
    requires
        !cfg.allow_duplicates,
    ensures
        forall|j: int, k: int|
            0 <= j < k < declutter_run(lines, cfg).history.len() ==> declutter_run(
                lines,
                cfg,
            ).history[j] != declutter_run(lines, cfg).history[k],
    decreases lines.len(),
{
    if lines.len() > 0 {
        lemma_denied_duplicates_keep_keys_apart(lines.drop_last(), cfg);
        let before = declutter_run(lines.drop_last(), cfg).history;
        let after = declutter_run(lines, cfg).history;
        assert forall|j: int, k: int| 0 <= j < k < after.len() implies after[j] != after[k] by {
            if k == before.len() {
                assert(!before.contains(after[k]));
            }
        }
    }
}

/// The key of a line that is a URL.
pub open spec fn line_key(line: Seq<char>) -> Seq<char> {
    history_key(url_parse(line).unwrap())
}

/// A position is among the accepted ones exactly where the line at it is
/// accepted by the run that the lines before it have made.
pub proof fn lemma_accepted_position(lines: Seq<Seq<char>>, cfg: ConfigView, i: int)
    requires
        0 <= i < lines.len(),
    ensures
        accepted_positions(lines, cfg).contains(i) <==> declutter_outcome(
            url_parse(lines[i]),
            declutter_run(lines.take(i), cfg).history,
            cfg,
        ) is Some,
    decreases lines.len(),
{
    let before = accepted_positions(lines.drop_last(), cfg);
    lemma_output_keeps_input_order(lines.drop_last(), cfg);
    let after = accepted_positions(lines, cfg);
    if i == lines.len() - 1 {
        // The positions accepted before are smaller than `i`.
        assert(lines.take(i) == lines.drop_last());
        assert(!before.contains(i));
        if after != before {
            assert(after.last() == i);
        }
    } else {
        // Whether `i` is accepted was settled before the last line was fed.
        lemma_accepted_position(lines.drop_last(), cfg, i);
        assert(lines.drop_last().take(i) == lines.take(i));
        if before.contains(i) {
            let k = choose|k: int| 0 <= k < before.len() && before[k] == i;
            assert(after[k] == i);
        }
        if after.contains(i) {
            let k = choose|k: int| 0 <= k < after.len() && after[k] == i;
            assert(before[k] == i);
        }
    }
}

/// Where duplicates are denied, the history of a run holds the keys of the
/// lines fed so far that are URLs with a passing extension, and no others.
pub proof fn lemma_history_holds_keys_of_passing_lines(
    lines: Seq<Seq<char>>,
    cfg: ConfigView,
    key: Seq<char>,
)
    requires
        !cfg.allow_duplicates,
    ensures
        declutter_run(lines, cfg).history.contains(key) <==> exists|j: int|
            0 <= j < lines.len() && #[trigger] passes_without_history(lines[j], cfg) && line_key(
                lines[j],
            ) == key,
    decreases lines.len(),
{
    if lines.len() > 0 {
        let rest = lines.drop_last();
        let last = lines.len() - 1;
        let before = declutter_run(rest, cfg).history;
        let after = declutter_run(lines, cfg).history;
        lemma_history_holds_keys_of_passing_lines(rest, cfg, key);
        if after.contains(key) {
            if before.contains(key) {
                // The key was recorded for one of the earlier lines.
                let j = choose|j: int|
                    0 <= j < rest.len() && #[trigger] passes_without_history(rest[j], cfg)
                        && line_key(rest[j]) == key;
                assert(passes_without_history(lines[j], cfg));
            } else {
                // The key was recorded for the last line.
                let k = choose|k: int| 0 <= k < after.len() && after[k] == key;
                assert(k == before.len());
                assert(passes_without_history(lines[last], cfg));
            }
        }
        if exists|j: int|
            0 <= j < lines.len() && #[trigger] passes_without_history(lines[j], cfg) && line_key(
                lines[j],
            ) == key {
            let j = choose|j: int|
                0 <= j < lines.len() && #[trigger] passes_without_history(lines[j], cfg)
                    && line_key(lines[j]) == key;
            if j < last {
                assert(passes_without_history(rest[j], cfg));
            }
            if before.contains(key) {
                let k = choose|k: int| 0 <= k < before.len() && before[k] == key;
                assert(after[k] == key);
            } else {
                assert(after[before.len() as int] == key);
            }
        }
    }
}

/// Where duplicates are denied, a run emits of the URLs with a passing
/// extension the first line of each key, and nothing else: a line is emitted
/// exactly where it is such a URL and no such URL before it has its key.
pub proof fn lemma_denied_duplicates_emit_first_of_each_key(
    lines: Seq<Seq<char>>,
    cfg: ConfigView,
    i: int,
)
    requires
        !cfg.allow_duplicates,
        0 <= i < lines.len(),
    ensures
        accepted_positions(lines, cfg).contains(i) <==> passes_without_history(lines[i], cfg)
            && forall|j: int|
            0 <= j < i && #[trigger] passes_without_history(lines[j], cfg) ==> line_key(lines[j])
                != line_key(lines[i]),
{
    lemma_accepted_position(lines, cfg, i);
    lemma_history_holds_keys_of_passing_lines(lines.take(i), cfg, line_key(lines[i]));
    let fed = lines.take(i);
    let seen = declutter_run(fed, cfg).history.contains(line_key(lines[i]));
    if seen {
        let j = choose|j: int|
            0 <= j < fed.len() && #[trigger] passes_without_history(fed[j], cfg) && line_key(
                fed[j],
            ) == line_key(lines[i]);
        assert(passes_without_history(lines[j], cfg));
    } else {
        assert forall|j: int|
            0 <= j < i && #[trigger] passes_without_history(lines[j], cfg) implies line_key(
            lines[j],
        ) != line_key(lines[i]) by {
            assert(passes_without_history(fed[j], cfg));
        }
    }
}

/// A run only ever grows: what it has emitted and recorded after a part of
/// its input stays, in place, when the rest of the input is fed.
pub proof fn lemma_run_grows(lines: Seq<Seq<char>>, fed: int, cfg: ConfigView)
    requires
        0 <= fed <= lines.len(),
    ensures
        declutter_run(lines.take(fed), cfg).output.is_prefix_of(declutter_run(lines, cfg).output),
        declutter_run(lines.take(fed), cfg).history.is_prefix_of(
            declutter_run(lines, cfg).history,
        ),
    decreases lines.len(),
{
    if fed == lines.len() {
        assert(lines.take(fed) == lines);
    } else {
        lemma_run_grows(lines.drop_last(), fed, cfg);
        assert(lines.drop_last().take(fed) == lines.take(fed));
    }
}

} // verus!
