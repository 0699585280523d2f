//! Rendering a page of search results for a terminal or for machines.
use vstd::prelude::*;
use crate::error::{ErrorView, MinistoreError};
use crate::json::{
    json_text, jv, jv_items, jv_members, lemma_jv_items, lemma_jv_members, obj_insert, pretty_text, JView,
    JsonValue,
};
use crate::query::planner::strings_view;
use crate::schema::{lookup, sorted_names};
use crate::search::SearchResultPage;
use crate::number::{eq_ignore_ascii_case, eq_ignore_case};
use crate::text::{concat, debug_quote, debug_str, nat_decimal, str_eq, u128_decimal, usize_decimal};

verus! {

/// Representation produced by `format_search_results`.
#[derive(Debug, Clone, Copy, PartialEq, Eq, Structural)]
pub enum SearchOutputFormat {
    Pretty,
    Paths,
    Json,
}

/// The format a name selects, ignoring ASCII case: `pretty` (or nothing),
/// `paths` or `json`.
pub open spec fn format_named(name: Seq<char>) -> Result<SearchOutputFormat, ErrorView> {
    if name.len() == 0 || eq_ignore_case(name, "pretty"@) {
        Ok(SearchOutputFormat::Pretty)
    } else if eq_ignore_case(name, "paths"@) {
        Ok(SearchOutputFormat::Paths)
    } else if eq_ignore_case(name, "json"@) {
        Ok(SearchOutputFormat::Json)
    } else {
        Err(ErrorView::InvalidArgument("unknown search output format "@ + debug_str(name)
            + "; expected pretty, paths, or json"@))
    }
}

impl SearchOutputFormat {
    /// The format a name selects, ignoring case.
    pub fn parse(value: &str) -> (r: Result<SearchOutputFormat, MinistoreError>)
        ensures
            match (r, format_named(value@)) {
                (Ok(f), Ok(g)) => f == g,
                (Err(e), Err(x)) => e@ == x,
                _ => false,
            },
    {
        if value.unicode_len() == 0 || eq_ignore_ascii_case(value, "pretty") {
            Ok(SearchOutputFormat::Pretty)
        } else if eq_ignore_ascii_case(value, "paths") {
            Ok(SearchOutputFormat::Paths)
        } else if eq_ignore_ascii_case(value, "json") {
            Ok(SearchOutputFormat::Json)
        } else {
            let mut m = concat("unknown search output format ", debug_quote(value).as_str());
            m.append("; expected pretty, paths, or json");
            Err(MinistoreError::InvalidArgument(m))
        }
    }
}

impl std::str::FromStr for SearchOutputFormat {
    type Err = MinistoreError;

    fn from_str(value: &str) -> (r: Result<Self, MinistoreError>)
        ensures
            match (r, format_named(value@)) {
                (Ok(f), Ok(g)) => f == g,
                (Err(e), Err(x)) => e@ == x,
                _ => false,
            },
    {
        SearchOutputFormat::parse(value)
    }
}

/// Options for rendering a search page.
#[derive(Debug, Clone)]
pub struct SearchOutputOptions {
    pub format: SearchOutputFormat,
    /// The time the search took, in whole milliseconds.
    pub elapsed: Option<u128>,
}

impl Default for SearchOutputOptions {
    fn default() -> (o: Self)
        ensures
            o.format == SearchOutputFormat::Pretty,
            o.elapsed is None,
    {
        SearchOutputOptions { format: SearchOutputFormat::Pretty, elapsed: None }
    }
}

/// How a value reads in the pretty format: a string as its text, anything
/// else as compact JSON.
pub open spec fn human(v: JView) -> Seq<char> {
    match v {
        JView::Str(s) => s,
        _ => json_text(v),
    }
}

/// The path an item is listed under.
pub open spec fn item_path(item: JView) -> Option<Seq<char>> {
    match item {
        JView::Object(o) => match lookup(o, "path"@) {
            Some(JView::Str(p)) => Some(p),
            _ => None,
        },
        _ => None,
    }
}

/// `  name: value` for each member but `path`.
pub open spec fn member_lines(o: Seq<(Seq<char>, JView)>) -> Seq<char>
    decreases o.len(),
{
    if o.len() == 0 {
        seq![]
    } else if o.last().0 == "path"@ {
        member_lines(o.drop_last())
    } else {
        member_lines(o.drop_last()) + "  "@ + o.last().0 + ": "@ + human(o.last().1) + "\n"@
    }
}

pub open spec fn item_block(item: JView) -> Seq<char> {
    let p = match item_path(item) {
        Some(p) => p,
        None => "(no path)"@,
    };
    "- "@ + p + "\n"@ + match item {
        JView::Object(o) => member_lines(o),
        _ => seq![],
    }
}

pub open spec fn item_blocks(items: Seq<JView>) -> Seq<char>
    decreases items.len(),
{
    if items.len() == 0 {
        seq![]
    } else {
        item_blocks(items.drop_last()) + item_block(items.last())
    }
}

pub open spec fn step_lines(steps: Seq<Seq<char>>) -> Seq<char>
    decreases steps.len(),
{
    if steps.len() == 0 {
        seq![]
    } else {
        step_lines(steps.drop_last()) + "  "@ + steps.last() + "\n"@
    }
}

/// The page as a view: items, next cursor, whether more follow, explanation.
pub struct PageView {
    pub items: Seq<JView>,
    pub next_cursor: Option<Seq<char>>,
    pub has_more: bool,
    pub explain_sql: Option<Seq<char>>,
    pub explain_steps: Option<Seq<Seq<char>>>,
}

pub open spec fn page_view(p: SearchResultPage) -> PageView {
    PageView {
        items: jv_items(p.items@),
        next_cursor: match p.next_cursor {
            Some(c) => Some(c@),
            None => None,
        },
        has_more: p.has_more,
        explain_sql: match p.explain_sql {
            Some(c) => Some(c@),
            None => None,
        },
        explain_steps: match p.explain_steps {
            Some(v) => Some(strings_view(v@)),
            None => None,
        },
    }
}

pub open spec fn pretty_head(n: nat, elapsed_ms: Option<nat>) -> Seq<char> {
    "Found "@ + nat_decimal(n) + (if n == 1 { " item"@ } else { " items"@ }) + (match elapsed_ms {
        Some(ms) => " in "@ + nat_decimal(ms) + "ms"@,
        None => seq![],
    }) + "\n"@
}

pub open spec fn pretty_tail(p: PageView) -> Seq<char> {
    (match p.next_cursor {
        Some(c) => "\nNext cursor: "@ + c + "\n"@,
        None => if p.has_more { "\nMore results available\n"@ } else { seq![] },
    }) + (match p.explain_steps {
        Some(steps) => if steps.len() > 0 { "\nExplanation:\n"@ + step_lines(steps) } else { seq![] },
        None => seq![],
    }) + (match p.explain_sql {
        Some(sql) => "\nSQL: "@ + sql + "\n"@,
        None => seq![],
    })
}

/// The pretty rendering: a count (and time), each item with its members, the
/// next cursor or a note that more results exist, and the explanation.
pub open spec fn pretty_page(p: PageView, elapsed_ms: Option<nat>) -> Seq<char> {
    pretty_head(p.items.len(), elapsed_ms) + item_blocks(p.items) + pretty_tail(p)
}

/// The paths rendering: one line per item that has a path.
pub open spec fn path_lines(items: Seq<JView>) -> Seq<char>
    decreases items.len(),
{
    if items.len() == 0 {
        seq![]
    } else {
        path_lines(items.drop_last()) + match item_path(items.last()) {
            Some(p) => p + "\n"@,
            None => seq![],
        }
    }
}


/// How a value reads in the pretty format.
pub fn human_value(value: &JsonValue) -> (r: String)
    ensures
        r@ == human(value@),
{
    match value {
        JsonValue::String(s) => s.clone(),
        _ => value.to_json_string(),
    }
}

fn path_of(item: &JsonValue) -> (r: Option<String>)
    ensures
        match (r, item_path(item@)) {
            (Some(a), Some(b)) => a@ == b,
            (None, None) => true,
            _ => false,
        },
{
    match item.get("path") {
        Some(v) => match v.as_str() {
            Some(p) => Some(p.clone()),
            None => None,
        },
        None => None,
    }
}

fn item_block_text(item: &JsonValue) -> (r: String)
    ensures
        r@ == item_block(item@),
{
    let p = match path_of(item) {
        Some(p) => p,
        None => String::from_str("(no path)"),
    };
    let mut out = concat("- ", p.as_str());
    out.append("\n");
    match item {
        JsonValue::Object(o) => {
            let ghost mv = jv_members(o@);
            proof {
                lemma_jv_members(o@);
            }
            let ghost head = out@;
            let mut i: usize = 0;
            while i < o.len()
                invariant
                    i <= o.len(),
                    mv == jv_members(o@),
                    mv.len() == o.len(),
                    forall|j: int| 0 <= j < o.len() ==> #[trigger] mv[j] == (o@[j].0@, jv(o@[j].1)),
                    out@ == head + member_lines(mv.take(i as int)),
                decreases o.len() - i,
            {
                assert(mv.take(i + 1).drop_last() == mv.take(i as int));
                assert(mv.take(i + 1).last() == mv[i as int]);
                if !str_eq(o[i].0.as_str(), "path") {
                    out.append("  ");
                    out.append(o[i].0.as_str());
                    out.append(": ");
                    out.append(human_value(&o[i].1).as_str());
                    out.append("\n");
                }
                i += 1;
            }
            assert(mv.take(o.len() as int) == mv);
        },
        _ => {},
    }
    out
}

fn pretty_head_text(n: usize, elapsed_ms: Option<u128>) -> (r: String)
    ensures
        r@ == pretty_head(n as nat, match elapsed_ms {
            Some(ms) => Some(ms as nat),
            None => None,
        }),
{
    let mut out = concat("Found ", usize_decimal(n).as_str());
    if n == 1 {
        out.append(" item");
    } else {
        out.append(" items");
    }
    match elapsed_ms {
        Some(ms) => {
            out.append(" in ");
            out.append(u128_decimal(ms).as_str());
            out.append("ms");
        },
        None => {},
    }
    out.append("\n");
    out
}

fn item_blocks_text(items: &Vec<JsonValue>) -> (r: String)
    ensures
        r@ == item_blocks(jv_items(items@)),
{
    proof {
        lemma_jv_items(items@);
    }
    let ghost iv = jv_items(items@);
    let mut out = String::new();
    let mut i: usize = 0;
    while i < items.len()
        invariant
            i <= items.len(),
            iv == jv_items(items@),
            iv.len() == items.len(),
            forall|j: int| 0 <= j < items.len() ==> #[trigger] iv[j] == jv(items@[j]),
            out@ == item_blocks(iv.take(i as int)),
        decreases items.len() - i,
    {
        assert(iv.take(i + 1).drop_last() == iv.take(i as int));
        assert(iv.take(i + 1).last() == iv[i as int]);
        out.append(item_block_text(&items[i]).as_str());
        i += 1;
    }
    assert(iv.take(items.len() as int) == iv);
    out
}

fn pretty_tail_text(page: &SearchResultPage) -> (r: String)
    ensures
        r@ == pretty_tail(page_view(*page)),
{
    let mut out = String::new();
    match &page.next_cursor {
        Some(c) => {
            out.append("\nNext cursor: ");
            out.append(c.as_str());
            out.append("\n");
        },
        None => {
            if page.has_more {
                out.append("\nMore results available\n");
            }
        },
    }
    match &page.explain_steps {
        Some(steps) => {
            if steps.len() > 0 {
                out.append("\nExplanation:\n");
                let ghost head2 = out@;
                let ghost stv = strings_view(steps@);
                let mut k: usize = 0;
                while k < steps.len()
                    invariant
                        k <= steps.len(),
                        stv == strings_view(steps@),
                        out@ == head2 + step_lines(stv.take(k as int)),
                    decreases steps.len() - k,
                {
                    assert(stv.take(k + 1).drop_last() == stv.take(k as int));
                    assert(stv.take(k + 1).last() == steps@[k as int]@);
                    out.append("  ");
                    out.append(steps[k].as_str());
                    out.append("\n");
                    k += 1;
                }
                assert(stv.take(steps.len() as int) == stv);
            }
        },
        None => {},
    }
    match &page.explain_sql {
        Some(sql) => {
            out.append("\nSQL: ");
            out.append(sql.as_str());
            out.append("\n");
        },
        None => {},
    }
    out
}

/// Render a page in the pretty format, with the time it took in milliseconds
/// where given.
pub fn format_pretty_ms(page: &SearchResultPage, elapsed_ms: Option<u128>) -> (r: String)
    ensures
        r@ == pretty_page(page_view(*page), match elapsed_ms {
            Some(ms) => Some(ms as nat),
            None => None,
        }),
{
    proof {
        lemma_jv_items(page.items@);
    }
    let mut out = pretty_head_text(page.items.len(), elapsed_ms);
    out.append(item_blocks_text(&page.items).as_str());
    out.append(pretty_tail_text(page).as_str());
    out
}

/// Render a page as one path per line.
pub fn format_paths(page: &SearchResultPage) -> (r: String)
    ensures
        r@ == path_lines(page_view(*page).items),
{
    proof {
        lemma_jv_items(page.items@);
    }
    let ghost iv = jv_items(page.items@);
    let mut out = String::new();
    let mut i: usize = 0;
    while i < page.items.len()
        invariant
            i <= page.items.len(),
            iv == jv_items(page.items@),
            iv.len() == page.items.len(),
            forall|j: int| 0 <= j < page.items.len() ==> #[trigger] iv[j] == jv(page.items@[j]),
            out@ == path_lines(iv.take(i as int)),
        decreases page.items.len() - i,
    {
        assert(iv.take(i + 1).drop_last() == iv.take(i as int));
        assert(iv.take(i + 1).last() == iv[i as int]);
        match path_of(&page.items[i]) {
            Some(p) => {
                out.append(p.as_str());
                out.append("\n");
            },
            None => {},
        }
        i += 1;
    }
    assert(iv.take(page.items.len() as int) == iv);
    out
}

/// The JSON envelope of a page, members in key order: the explanation when
/// present, `has_more`, the items, and the next cursor when present.
pub open spec fn envelope(p: PageView) -> Seq<(Seq<char>, JView)> {
    (match p.explain_sql {
        Some(sql) => seq![("explain_sql"@, JView::Str(sql))],
        None => seq![],
    }) + (match p.explain_steps {
        Some(steps) => seq![("explain_steps"@, JView::Array(steps.map_values(|x: Seq<char>| JView::Str(x))))],
        None => seq![],
    }) + seq![("has_more"@, JView::Bool(p.has_more)), ("items"@, JView::Array(p.items))] + (match p.next_cursor {
        Some(c) => seq![("next_cursor"@, JView::Str(c))],
        None => seq![],
    })
}

fn copy_items(items: &Vec<JsonValue>) -> (r: Vec<JsonValue>)
    ensures
        jv_items(r@) == jv_items(items@),
{
    proof {
        lemma_jv_items(items@);
    }
    let mut r: Vec<JsonValue> = Vec::new();
    let mut i: usize = 0;
    while i < items.len()
        invariant
            i <= items.len(),
            jv_items(items@).len() == items.len(),
            forall|j: int| 0 <= j < items.len() ==> #[trigger] jv_items(items@)[j] == jv(items@[j]),
            jv_items(r@) == jv_items(items@).take(i as int),
        decreases items.len() - i,
    {
        let ghost before = r@;
        let x = items[i].copy();
        r.push(x);
        assert(r@.drop_last() == before);
        assert(jv_items(items@).take(i + 1) =~= jv_items(items@).take(i as int).push(jv(items@[i as int])));
        i += 1;
    }
    assert(jv_items(items@).take(items.len() as int) =~= jv_items(items@));
    r
}

/// Render a page as an indented JSON envelope followed by a line feed.
pub fn format_json(page: &SearchResultPage) -> (r: Result<String, MinistoreError>)
    ensures
        r is Ok && r->Ok_0@ == pretty_text(JView::Object(envelope(page_view(*page))), 0) + "\n"@,
{
    let ghost pv = page_view(*page);
    let mut env: Vec<(String, JsonValue)> = Vec::new();
    match &page.explain_sql {
        Some(sql) => env.push((String::from_str("explain_sql"), JsonValue::String(sql.clone()))),
        None => {},
    }
    match &page.explain_steps {
        Some(steps) => {
            let mut arr: Vec<JsonValue> = Vec::new();
            assert(strings_view(steps@).take(0).map_values(|x: Seq<char>| JView::Str(x)) =~= seq![]);
            let mut k: usize = 0;
            while k < steps.len()
                invariant
                    k <= steps.len(),
                    jv_items(arr@) == strings_view(steps@).take(k as int).map_values(|x: Seq<char>| JView::Str(x)),
                decreases steps.len() - k,
            {
                let ghost before = arr@;
                let ghost sk = steps@[k as int]@;
                let v = JsonValue::String(steps[k].clone());
                assert(jv(v) == JView::Str(sk));
                arr.push(v);
                assert(arr@.drop_last() == before);
                assert(jv_items(arr@) == jv_items(before).push(JView::Str(sk)));
                assert(strings_view(steps@).take(k + 1).map_values(|x: Seq<char>| JView::Str(x)) =~= strings_view(steps@).take(k as int).map_values(|x: Seq<char>| JView::Str(x)).push(JView::Str(steps@[k as int]@)));
                k += 1;
            }
            assert(strings_view(steps@).take(steps.len() as int) =~= strings_view(steps@));
            env.push((String::from_str("explain_steps"), JsonValue::Array(arr)));
        },
        None => {},
    }
    env.push((String::from_str("has_more"), JsonValue::Bool(page.has_more)));
    env.push((String::from_str("items"), JsonValue::Array(copy_items(&page.items))));
    match &page.next_cursor {
        Some(c) => env.push((String::from_str("next_cursor"), JsonValue::String(c.clone()))),
        None => {},
    }
    proof {
        lemma_jv_members(env@);
        assert(jv_members(env@) =~= envelope(pv));
    }
    let mut out = JsonValue::Object(env).to_json_pretty();
    out.append("\n");
    Ok(out)
}

/// Render a page in the chosen format; the pretty format gives the time taken
/// in whole milliseconds where the options carry it.
pub fn format_search_results(page: &SearchResultPage, options: &SearchOutputOptions) -> (r: Result<String, MinistoreError>)
    ensures
        r is Ok,
        options.format == SearchOutputFormat::Paths ==> r->Ok_0@ == path_lines(page_view(*page).items),
        options.format == SearchOutputFormat::Json ==> r->Ok_0@ == pretty_text(JView::Object(envelope(page_view(*page))), 0) + "\n"@,
        options.format == SearchOutputFormat::Pretty ==> r->Ok_0@ == pretty_page(page_view(*page), match options.elapsed {
            Some(ms) => Some(ms as nat),
            None => None,
        }),
{
    match options.format {
        SearchOutputFormat::Pretty => {
            let r = format_pretty_ms(page, options.elapsed);
            Ok(r)
        },
        SearchOutputFormat::Paths => Ok(format_paths(page)),
        SearchOutputFormat::Json => format_json(page),
    }
}

} // verus!
