//! The JSON a product page embeds: the JSON-LD `Product`, and the product
//! model of the page's loader data with its gallery, videos and description.
use vstd::prelude::*;
use crate::json::{
    as_array, as_object, as_str, get, jget, jitems, jmembers, json_parse, json_text, json_to_string, jstr,
    jview, jview_items, jview_members, lemma_jview_items, lemma_jview_members, oget, ostr, oview,
    parse_json, JsonValue, JsonView,
};
use crate::product_html::texts_view;
use crate::text::{
    contains, contains_str, lower, lower_chars, starts_with, starts_with_str, str_chars, string_from,
    string_of, trim, trim_chars, trim_start, trim_start_index, chars_eq_str, slice_chars,
};

verus! {

/// Whether `c` is alphanumeric in Unicode's sense (`char::is_alphanumeric`).
pub uninterp spec fn unicode_alphanumeric(c: char) -> bool;

/// `char::is_alphanumeric`; its answer is named.
#[verifier::external_body]
fn char_is_alphanumeric(c: char) -> (r: bool)
    ensures
        r == unicode_alphanumeric(c),
{
    c.is_alphanumeric()
}

pub open spec fn ojitems(v: Option<JsonView>) -> Option<Seq<JsonView>> {
    match v {
        Some(x) => jitems(x),
        None => None,
    }
}

// ---------------------------------------------------------------------------
// JSON-LD
// ---------------------------------------------------------------------------
/// The first JSON-LD document that parses and says `"@type": "Product"`.
pub open spec fn ld_product_from(scripts: Seq<Seq<char>>) -> Option<JsonView>
    decreases scripts.len(),
{
    if scripts.len() == 0 {
        None
    } else {
        match json_parse(trim(scripts[0])) {
            Some(v) if ostr(jget(v, "@type"@)) == Some("Product"@) => Some(v),
            _ => ld_product_from(scripts.drop_first()),
        }
    }
}

/// The first JSON-LD `Product` among the scripts.
pub fn ld_product(scripts: &Vec<Vec<char>>) -> (r: Option<JsonValue>)
    ensures
        match r {
            Some(v) => ld_product_from(texts_view(scripts@)) == Some(jview(v)),
            None => ld_product_from(texts_view(scripts@)) is None,
        },
{
    let ghost all = texts_view(scripts@);
    let mut i: usize = 0;
    proof {
        assert(all.subrange(0, all.len() as int) =~= all);
    }
    while i < scripts.len()
        invariant
            all == texts_view(scripts@),
            i <= scripts@.len(),
            ld_product_from(all) == ld_product_from(all.subrange(i as int, all.len() as int)),
        decreases scripts@.len() - i,
    {
        let ghost rest = all.subrange(i as int, all.len() as int);
        assert(rest[0] == scripts@[i as int]@);
        assert(rest.drop_first() =~= all.subrange(i + 1, all.len() as int));
        let t = trim_chars(scripts[i].as_slice());
        match parse_json(t.as_slice()) {
            Ok(v) => {
                let is_product = match get(&v, "@type") {
                    Some(ty) => match as_str(ty) {
                        Some(s) => crate::text::str_eq(s, "Product"),
                        None => false,
                    },
                    None => false,
                };
                if is_product {
                    return Some(v);
                }
            },
            Err(_) => {},
        }
        i = i + 1;
    }
    None
}

/// A JSON string member, or the text of any other value.
pub open spec fn str_or_text(v: JsonView) -> Seq<char> {
    match jstr(v) {
        Some(s) => s,
        None => json_text(v),
    }
}

/// The image of a JSON-LD product: a string, or the first item when it is a string.
pub open spec fn ld_image(product: JsonView) -> Option<Seq<char>> {
    match jget(product, "image"@) {
        None => None,
        Some(img) => match jstr(img) {
            Some(s) => Some(s),
            None => match jitems(img) {
                Some(xs) => if xs.len() > 0 {
                    jstr(xs[0])
                } else {
                    None
                },
                None => None,
            },
        },
    }
}

fn opt_str_string(s: Option<&str>) -> (r: Option<String>)
    ensures
        crate::session::opt_seq(r) == crate::session::opt_str_seq(s),
{
    match s {
        Some(x) => Some(string_of(x)),
        None => None,
    }
}

/// The string member `key` of a document.
pub fn get_str(v: &JsonValue, key: &str) -> (r: Option<String>)
    ensures
        crate::session::opt_seq(r) == ostr(jget(jview(*v), key@)),
{
    match get(v, key) {
        Some(x) => opt_str_string(as_str(x)),
        None => None,
    }
}

pub fn ld_image_exec(product: &JsonValue) -> (r: Option<String>)
    ensures
        crate::session::opt_seq(r) == ld_image(jview(*product)),
{
    let img = match get(product, "image") {
        Some(img) => img,
        None => return None,
    };
    match as_str(img) {
        Some(s) => Some(string_of(s)),
        None => match as_array(img) {
            Some(xs) => {
                proof {
                    lemma_jview_items(xs@);
                }
                if xs.len() > 0 {
                    opt_str_string(as_str(&xs[0]))
                } else {
                    None
                }
            },
            None => None,
        },
    }
}

pub fn str_or_text_exec(v: &JsonValue) -> (r: String)
    ensures
        r@ == str_or_text(jview(*v)),
{
    match as_str(v) {
        Some(s) => string_of(s),
        None => json_to_string(v),
    }
}

// ---------------------------------------------------------------------------
// The product model in the loader data
// ---------------------------------------------------------------------------
/// The product model a loader component carries, if the path to it exists.
pub open spec fn component_model(c: JsonView) -> Option<JsonView> {
    oget(oget(jget(c, "component_data"@), "product_info"@), "product_model"@)
}

/// Among the components: `None` when one lacks the path to a product model
/// (the search gives up), else the first model with a `product_id`, if any.
pub open spec fn model_in_components(cs: Seq<JsonView>) -> Option<Option<JsonView>>
    decreases cs.len(),
{
    if cs.len() == 0 {
        Some(None)
    } else {
        match component_model(cs[0]) {
            None => None,
            Some(m) => if jget(m, "product_id"@) is Some {
                Some(Some(m))
            } else {
                model_in_components(cs.drop_first())
            },
        }
    }
}

/// Page by page, the first product model; the search gives up at a page
/// without a components list or with a component without the path.
pub open spec fn model_in_pages(ps: Seq<(Seq<char>, JsonView)>) -> Option<JsonView>
    decreases ps.len(),
{
    if ps.len() == 0 {
        None
    } else {
        match ojitems(oget(jget(ps[0].1, "page_config"@), "components_map"@)) {
            None => None,
            Some(cs) => match model_in_components(cs) {
                None => None,
                Some(Some(m)) => Some(m),
                Some(None) => model_in_pages(ps.drop_first()),
            },
        }
    }
}

/// The product model of a loader document.
pub open spec fn loader_model(root: JsonView) -> Option<JsonView> {
    match jget(root, "loaderData"@) {
        None => None,
        Some(l) => match jmembers(l) {
            None => None,
            Some(ps) => model_in_pages(ps),
        },
    }
}

fn model_in_components_exec(cs: &Vec<JsonValue>) -> (r: Option<Option<&JsonValue>>)
    ensures
        match r {
            None => model_in_components(jview_items(cs@)) is None,
            Some(None) => model_in_components(jview_items(cs@)) == Some(None::<JsonView>),
            Some(Some(m)) => model_in_components(jview_items(cs@)) == Some(Some(jview(*m))),
        },
{
    let ghost all = jview_items(cs@);
    proof {
        lemma_jview_items(cs@);
        assert(all.subrange(0, all.len() as int) =~= all);
    }
    let mut i: usize = 0;
    while i < cs.len()
        invariant
            all == jview_items(cs@),
            all.len() == cs@.len(),
            forall|j: int| 0 <= j < cs@.len() ==> #[trigger] all[j] == jview(cs@[j]),
            i <= cs@.len(),
            model_in_components(all) == model_in_components(all.subrange(i as int, all.len() as int)),
        decreases cs@.len() - i,
    {
        let ghost rest = all.subrange(i as int, all.len() as int);
        assert(rest[0] == jview(cs@[i as int]));
        assert(rest.drop_first() =~= all.subrange(i + 1, all.len() as int));
        let c = &cs[i];
        let m = match get(c, "component_data") {
            Some(d) => match get(d, "product_info") {
                Some(p) => get(p, "product_model"),
                None => None,
            },
            None => None,
        };
        match m {
            None => return None,
            Some(m) => {
                if get(m, "product_id").is_some() {
                    return Some(Some(m));
                }
            },
        }
        i = i + 1;
    }
    proof {
        assert(all.subrange(i as int, all.len() as int) =~= Seq::<JsonView>::empty());
    }
    Some(None)
}

/// The product model of a loader document.
pub fn find_product_model_in_loader(root: &JsonValue) -> (r: Option<&JsonValue>)
    ensures
        oview(r) == loader_model(jview(*root)),
{
    let l = match get(root, "loaderData") {
        Some(l) => l,
        None => return None,
    };
    let ps = match as_object(l) {
        Some(ps) => ps,
        None => return None,
    };
    let ghost all = jview_members(ps@);
    proof {
        lemma_jview_members(ps@);
        assert(all.subrange(0, all.len() as int) =~= all);
    }
    let mut i: usize = 0;
    while i < ps.len()
        invariant
            all == jview_members(ps@),
            all.len() == ps@.len(),
            forall|j: int| 0 <= j < ps@.len() ==> #[trigger] all[j] == (ps@[j].0@, jview(ps@[j].1)),
            i <= ps@.len(),
            loader_model(jview(*root)) == model_in_pages(all.subrange(i as int, all.len() as int)),
        decreases ps@.len() - i,
    {
        let ghost rest = all.subrange(i as int, all.len() as int);
        assert(rest[0] == all[i as int]);
        assert(rest.drop_first() =~= all.subrange(i + 1, all.len() as int));
        let page = &ps[i].1;
        let comps = match get(page, "page_config") {
            Some(pc) => match get(pc, "components_map") {
                Some(cm) => as_array(cm),
                None => None,
            },
            None => None,
        };
        let cs = match comps {
            Some(cs) => cs,
            None => return None,
        };
        match model_in_components_exec(cs) {
            None => return None,
            Some(Some(m)) => return Some(m),
            Some(None) => {},
        }
        i = i + 1;
    }
    proof {
        assert(all.subrange(i as int, all.len() as int) =~= Seq::<(Seq<char>, JsonView)>::empty());
    }
    None
}

/// The number of gallery images a product model lists.
pub open spec fn image_count(m: JsonView) -> int {
    match ojitems(jget(m, "images"@)) {
        Some(xs) => xs.len() as int,
        None => 0,
    }
}

/// Over the `application/json` scripts that mention `loaderData`, the product
/// model with the most images (a later one wins a tie).
pub open spec fn best_model_from(scripts: Seq<Seq<char>>, best: Option<JsonView>, best_len: int) -> Option<JsonView>
    decreases scripts.len(),
{
    if scripts.len() == 0 {
        best
    } else if !contains(scripts[0], "loaderData"@) {
        best_model_from(scripts.drop_first(), best, best_len)
    } else {
        match json_parse(trim(scripts[0])) {
            None => best_model_from(scripts.drop_first(), best, best_len),
            Some(root) => match loader_model(root) {
                None => best_model_from(scripts.drop_first(), best, best_len),
                Some(m) => if image_count(m) >= best_len {
                    best_model_from(scripts.drop_first(), Some(m), image_count(m))
                } else {
                    best_model_from(scripts.drop_first(), best, best_len)
                },
            },
        }
    }
}

fn image_count_exec(m: &JsonValue) -> (r: usize)
    ensures
        r == image_count(jview(*m)),
{
    match get(m, "images") {
        Some(x) => match as_array(x) {
            Some(xs) => {
                proof {
                    lemma_jview_items(xs@);
                }
                xs.len()
            },
            None => 0,
        },
        None => 0,
    }
}

/// The loader document whose product model wins, among the scripts.
pub fn parse_product_model_root(scripts: &Vec<Vec<char>>) -> (r: Option<JsonValue>)
    ensures
        match r {
            Some(root) => best_model_from(texts_view(scripts@), None, 0) == loader_model(jview(root))
                && loader_model(jview(root)) is Some,
            None => best_model_from(texts_view(scripts@), None, 0) is None,
        },
{
    let ghost all = texts_view(scripts@);
    let mut best: Option<JsonValue> = None;
    let mut best_len: usize = 0;
    let mut i: usize = 0;
    proof {
        assert(all.subrange(0, all.len() as int) =~= all);
    }
    while i < scripts.len()
        invariant
            all == texts_view(scripts@),
            i <= scripts@.len(),
            match best {
                Some(root) => loader_model(jview(root)) is Some && best_model_from(all, None, 0)
                    == best_model_from(all.subrange(i as int, all.len() as int), loader_model(jview(root)), best_len as int),
                None => best_len == 0 && best_model_from(all, None, 0)
                    == best_model_from(all.subrange(i as int, all.len() as int), None, 0),
            },
        decreases scripts@.len() - i,
    {
        let ghost rest = all.subrange(i as int, all.len() as int);
        assert(rest[0] == scripts@[i as int]@);
        assert(rest.drop_first() =~= all.subrange(i + 1, all.len() as int));
        if contains_str(scripts[i].as_slice(), "loaderData") {
            let t = trim_chars(scripts[i].as_slice());
            match parse_json(t.as_slice()) {
                Ok(root) => {
                    let count = match find_product_model_in_loader(&root) {
                        Some(m) => Some(image_count_exec(m)),
                        None => None,
                    };
                    match count {
                        Some(c) => {
                            if c >= best_len {
                                best_len = c;
                                best = Some(root);
                            }
                        },
                        None => {},
                    }
                },
                Err(_) => {},
            }
        }
        i = i + 1;
    }
    proof {
        assert(all.subrange(i as int, all.len() as int) =~= Seq::<Seq<char>>::empty());
    }
    best
}

// ---------------------------------------------------------------------------
// Gallery and videos
// ---------------------------------------------------------------------------
/// The first `http…` string of `urls` not yet in `acc`.
pub open spec fn first_new_http(urls: Seq<JsonView>, acc: Seq<Seq<char>>) -> Option<Seq<char>>
    decreases urls.len(),
{
    if urls.len() == 0 {
        None
    } else {
        match jstr(urls[0]) {
            Some(u) if starts_with(u, "http"@) && !acc.contains(u) => Some(u),
            _ => first_new_http(urls.drop_first(), acc),
        }
    }
}

/// One new `http…` URL from each image's `url_list`, in order.
pub open spec fn gallery_from(items: Seq<JsonView>, acc: Seq<Seq<char>>) -> Seq<Seq<char>>
    decreases items.len(),
{
    if items.len() == 0 {
        acc
    } else {
        let next = match ojitems(jget(items[0], "url_list"@)) {
            None => acc,
            Some(urls) => match first_new_http(urls, acc) {
                Some(u) => acc.push(u),
                None => acc,
            },
        };
        gallery_from(items.drop_first(), next)
    }
}

/// The gallery of a product model.
pub open spec fn gallery(m: JsonView) -> Seq<Seq<char>> {
    match ojitems(jget(m, "images"@)) {
        None => Seq::empty(),
        Some(items) => gallery_from(items, Seq::empty()),
    }
}

/// The view of a list of strings.
pub open spec fn strings_view(v: Seq<String>) -> Seq<Seq<char>> {
    v.map_values(|s: String| s@)
}

fn seen_in(out: &Vec<String>, u: &str) -> (r: bool)
    ensures
        r == strings_view(out@).contains(u@),
{
    let mut k: usize = 0;
    while k < out.len()
        invariant
            k <= out@.len(),
            forall|j: int| 0 <= j < k ==> out@[j]@ != u@,
        decreases out@.len() - k,
    {
        if crate::text::str_eq(out[k].as_str(), u) {
            assert(strings_view(out@)[k as int] == u@);
            return true;
        }
        k = k + 1;
    }
    proof {
        if strings_view(out@).contains(u@) {
            let j = choose|j: int| 0 <= j < strings_view(out@).len() && strings_view(out@)[j] == u@;
            assert(out@[j]@ == u@);
        }
    }
    false
}

fn first_new_http_exec<'a>(urls: &'a Vec<JsonValue>, out: &Vec<String>) -> (r: Option<&'a str>)
    ensures
        match r {
            Some(u) => first_new_http(jview_items(urls@), strings_view(out@)) == Some(u@),
            None => first_new_http(jview_items(urls@), strings_view(out@)) is None,
        },
{
    let ghost all = jview_items(urls@);
    proof {
        lemma_jview_items(urls@);
        assert(all.subrange(0, all.len() as int) =~= all);
    }
    let mut i: usize = 0;
    while i < urls.len()
        invariant
            all == jview_items(urls@),
            all.len() == urls@.len(),
            forall|j: int| 0 <= j < urls@.len() ==> #[trigger] all[j] == jview(urls@[j]),
            i <= urls@.len(),
            first_new_http(all, strings_view(out@)) == first_new_http(all.subrange(i as int, all.len() as int), strings_view(out@)),
        decreases urls@.len() - i,
    {
        let ghost rest = all.subrange(i as int, all.len() as int);
        assert(rest[0] == jview(urls@[i as int]));
        assert(rest.drop_first() =~= all.subrange(i + 1, all.len() as int));
        match as_str(&urls[i]) {
            Some(u) => {
                let uc = str_chars(u);
                if starts_with_str(uc.as_slice(), "http") && !seen_in(out, u) {
                    return Some(u);
                }
            },
            None => {},
        }
        i = i + 1;
    }
    proof {
        assert(all.subrange(i as int, all.len() as int) =~= Seq::<JsonView>::empty());
    }
    None
}

/// One image URL per gallery item: its first `http…` URL not listed yet.
pub fn gallery_image_urls_from_product_model(product_model: &JsonValue) -> (r: Vec<String>)
    ensures
        strings_view(r@) == gallery(jview(*product_model)),
{
    let mut out: Vec<String> = Vec::new();
    let items = match get(product_model, "images") {
        Some(x) => match as_array(x) {
            Some(items) => items,
            None => {
                proof {
                    assert(strings_view(out@) =~= Seq::<Seq<char>>::empty());
                }
                return out;
            },
        },
        None => {
            proof {
                assert(strings_view(out@) =~= Seq::<Seq<char>>::empty());
            }
            return out;
        },
    };
    let ghost all = jview_items(items@);
    proof {
        lemma_jview_items(items@);
        assert(all.subrange(0, all.len() as int) =~= all);
        assert(strings_view(out@) =~= Seq::<Seq<char>>::empty());
    }
    let mut i: usize = 0;
    while i < items.len()
        invariant
            all == jview_items(items@),
            all.len() == items@.len(),
            forall|j: int| 0 <= j < items@.len() ==> #[trigger] all[j] == jview(items@[j]),
            i <= items@.len(),
            gallery(jview(*product_model)) == gallery_from(all.subrange(i as int, all.len() as int), strings_view(out@)),
        decreases items@.len() - i,
    {
        let ghost rest = all.subrange(i as int, all.len() as int);
        assert(rest[0] == jview(items@[i as int]));
        assert(rest.drop_first() =~= all.subrange(i + 1, all.len() as int));
        let urls = match get(&items[i], "url_list") {
            Some(x) => as_array(x),
            None => None,
        };
        match urls {
            Some(urls) => match first_new_http_exec(urls, &out) {
                Some(u) => {
                    let ghost before = out@;
                    out.push(string_of(u));
                    proof {
                        assert(strings_view(out@) =~= strings_view(before).push(u@));
                    }
                },
                None => {},
            },
            None => {},
        }
        i = i + 1;
    }
    proof {
        assert(all.subrange(i as int, all.len() as int) =~= Seq::<JsonView>::empty());
    }
    out
}

/// A video URL: `http…` with `.mp4` or `.m3u8` in it (any case).
pub open spec fn is_video_url(s: Seq<char>) -> bool {
    starts_with(s, "http"@) && (contains(lower(s), ".mp4"@) || contains(lower(s), ".m3u8"@))
}

/// The video URLs found walking `v` depth first, after `acc`, until `limit`
/// are listed; each URL once.
pub open spec fn walk_videos(v: JsonView, limit: int, acc: Seq<Seq<char>>) -> Seq<Seq<char>>
    decreases v, 0int,
{
    if acc.len() >= limit {
        acc
    } else {
        match v {
            JsonView::Object(ms) => walk_video_members(ms, limit, acc),
            JsonView::Array(xs) => walk_video_items(xs, limit, acc),
            JsonView::Str(s) => if is_video_url(s) && !acc.contains(s) {
                acc.push(s)
            } else {
                acc
            },
            _ => acc,
        }
    }
}

pub open spec fn walk_video_items(xs: Seq<JsonView>, limit: int, acc: Seq<Seq<char>>) -> Seq<Seq<char>>
    decreases xs, 1int,
{
    if xs.len() == 0 {
        acc
    } else {
        walk_video_items(xs.subrange(1, xs.len() as int), limit, walk_videos(xs[0], limit, acc))
    }
}

pub open spec fn walk_video_members(ms: Seq<(Seq<char>, JsonView)>, limit: int, acc: Seq<Seq<char>>) -> Seq<Seq<char>>
    decreases ms, 1int,
{
    if ms.len() == 0 {
        acc
    } else {
        walk_video_members(ms.subrange(1, ms.len() as int), limit, walk_videos(ms[0].1, limit, acc))
    }
}

/// The video URLs under a product model's `videos`, at most `limit`.
pub open spec fn videos(v: Option<JsonView>, limit: int) -> Seq<Seq<char>> {
    match v {
        Some(x) => walk_videos(x, limit, Seq::empty()),
        None => Seq::empty(),
    }
}

fn walk_exec(v: &JsonValue, limit: usize, out: &mut Vec<String>)
    ensures
        strings_view(final(out)@) == walk_videos(jview(*v), limit as int, strings_view(old(out)@)),
    decreases v,
{
    if out.len() >= limit {
        return;
    }
    match v {
        JsonValue::Object(ps) => {
            let ghost all = jview_members(ps@);
            proof {
                lemma_jview_members(ps@);
                assert(all.subrange(0, all.len() as int) =~= all);
            }
            let mut i: usize = 0;
            while i < ps.len()
                invariant
                    *v == JsonValue::Object(*ps),
                    all == jview_members(ps@),
                    all.len() == ps@.len(),
                    forall|j: int| 0 <= j < ps@.len() ==> #[trigger] all[j] == (ps@[j].0@, jview(ps@[j].1)),
                    i <= ps@.len(),
                    walk_videos(jview(*v), limit as int, strings_view(old(out)@))
                        == walk_video_members(all.subrange(i as int, all.len() as int), limit as int, strings_view(out@)),
                decreases ps@.len() - i,
            {
                let ghost rest = all.subrange(i as int, all.len() as int);
                assert(rest[0] == all[i as int]);
                assert(rest.subrange(1, rest.len() as int) =~= all.subrange(i + 1, all.len() as int));
                proof {
                    assert(*ps == (*v)->Object_0);
                    assert(decreases_to!(*v => (*v)->Object_0));
                    assert(decreases_to!(*ps => ps@));
                    assert(decreases_to!(ps@ => ps@[i as int]));
                    assert(decreases_to!(ps@[i as int] => ps@[i as int].1));
                }
                walk_exec(&ps[i].1, limit, out);
                i = i + 1;
            }
            proof {
                assert(all.subrange(i as int, all.len() as int) =~= Seq::<(Seq<char>, JsonView)>::empty());
            }
        },
        JsonValue::Array(xs) => {
            let ghost all = jview_items(xs@);
            proof {
                lemma_jview_items(xs@);
                assert(all.subrange(0, all.len() as int) =~= all);
            }
            let mut i: usize = 0;
            while i < xs.len()
                invariant
                    *v == JsonValue::Array(*xs),
                    all == jview_items(xs@),
                    all.len() == xs@.len(),
                    forall|j: int| 0 <= j < xs@.len() ==> #[trigger] all[j] == jview(xs@[j]),
                    i <= xs@.len(),
                    walk_videos(jview(*v), limit as int, strings_view(old(out)@))
                        == walk_video_items(all.subrange(i as int, all.len() as int), limit as int, strings_view(out@)),
                decreases xs@.len() - i,
            {
                let ghost rest = all.subrange(i as int, all.len() as int);
                assert(rest[0] == all[i as int]);
                assert(rest.subrange(1, rest.len() as int) =~= all.subrange(i + 1, all.len() as int));
                proof {
                    assert(*xs == (*v)->Array_0);
                    assert(decreases_to!(*v => (*v)->Array_0));
                    assert(decreases_to!(*xs => xs@));
                    assert(decreases_to!(xs@ => xs@[i as int]));
                }
                walk_exec(&xs[i], limit, out);
                i = i + 1;
            }
            proof {
                assert(all.subrange(i as int, all.len() as int) =~= Seq::<JsonView>::empty());
            }
        },
        JsonValue::Str(s) => {
            let sc = str_chars(s.as_str());
            let l = lower_chars(sc.as_slice());
            if starts_with_str(sc.as_slice(), "http")
                && (contains_str(l.as_slice(), ".mp4") || contains_str(l.as_slice(), ".m3u8"))
                && !seen_in(out, s.as_str())
            {
                let ghost before = out@;
                out.push(s.clone());
                proof {
                    assert(strings_view(out@) =~= strings_view(before).push(s@));
                }
            }
        },
        _ => {},
    }
}

/// Up to `limit` video URLs found under `videos`.
pub fn video_urls_from_product_model_videos(videos_value: Option<&JsonValue>, limit: usize) -> (r: Vec<String>)
    ensures
        strings_view(r@) == videos(oview(videos_value), limit as int),
{
    let mut out: Vec<String> = Vec::new();
    proof {
        assert(strings_view(out@) =~= Seq::<Seq<char>>::empty());
    }
    match videos_value {
        Some(v) => walk_exec(v, limit, &mut out),
        None => {},
    }
    out
}

// ---------------------------------------------------------------------------
// Description
// ---------------------------------------------------------------------------
/// The text a description block adds: a `text` block's text, a line break
/// for an `image` block, nothing for anything else.
pub open spec fn block_chunk(b: JsonView) -> Option<Seq<char>> {
    match ostr(jget(b, "type"@)) {
        Some(t) => if t == "text"@ {
            ostr(jget(b, "text"@))
        } else if t == "image"@ {
            Some("\n"@)
        } else {
            None
        },
        None => None,
    }
}

/// `out` with `chunk` added: a line break only once and never first; a list
/// item (`\-` or `*`) on a new line; a space between two words.
pub open spec fn add_chunk(out: Seq<char>, chunk: Seq<char>) -> Seq<char> {
    if chunk == "\n"@ {
        if out.len() > 0 && out.last() != '\n' {
            out.push('\n')
        } else {
            out
        }
    } else {
        let ts = trim_start(chunk);
        let starts_list = starts_with(ts, "\\-"@) || starts_with(ts, "*"@);
        let sep: Seq<char> = if out.len() > 0 && starts_list && out.last() != '\n' {
            seq!['\n']
        } else if out.len() > 0 && out.last() != '\n' && unicode_alphanumeric(out.last()) && chunk.len() > 0
            && unicode_alphanumeric(chunk[0]) {
            seq![' ']
        } else {
            Seq::empty()
        };
        out + sep + chunk
    }
}

/// The text of the description blocks, after `out`.
pub open spec fn assemble_blocks(blocks: Seq<JsonView>, out: Seq<char>) -> Seq<char>
    decreases blocks.len(),
{
    if blocks.len() == 0 {
        out
    } else {
        let next = match block_chunk(blocks[0]) {
            Some(c) => add_chunk(out, c),
            None => out,
        };
        assemble_blocks(blocks.drop_first(), next)
    }
}

/// The description text of the blocks, trimmed, if any is left.
pub open spec fn flatten_blocks(blocks: Seq<JsonView>) -> Option<Seq<char>> {
    let t = trim(assemble_blocks(blocks, Seq::empty()));
    if t.len() == 0 {
        None
    } else {
        Some(t)
    }
}

fn add_chunk_exec(out: &mut Vec<char>, chunk: &[char])
    ensures
        final(out)@ == add_chunk(old(out)@, chunk@),
{
    proof {
        reveal_strlit("\n");
        reveal_strlit("\\-");
        reveal_strlit("*");
    }
    let n = out.len();
    if chunk.len() == 1 && chunk[0] == '\n' {
        proof {
            assert(chunk@ =~= "\n"@);
        }
        if n > 0 && out[n - 1] != '\n' {
            out.push('\n');
        }
        return;
    }
    proof {
        if chunk@ == "\n"@ {
            assert(chunk@.len() == 1 && chunk@[0] == '\n');
        }
    }
    let a = trim_start_index(chunk);
    let ts = slice_chars(chunk, a, chunk.len());
    let starts_list = starts_with_str(ts.as_slice(), "\\-") || starts_with_str(ts.as_slice(), "*");
    if n > 0 && starts_list && out[n - 1] != '\n' {
        out.push('\n');
    } else if n > 0 && out[n - 1] != '\n' && char_is_alphanumeric(out[n - 1]) && chunk.len() > 0
        && char_is_alphanumeric(chunk[0]) {
        out.push(' ');
    }
    let ghost mid = out@;
    crate::text::append_chars(out, chunk);
    proof {
        let sep: Seq<char> = if n > 0 && starts_list && old(out)@.last() != '\n' {
            seq!['\n']
        } else if n > 0 && old(out)@.last() != '\n' && unicode_alphanumeric(old(out)@.last()) && chunk@.len() > 0
            && unicode_alphanumeric(chunk@[0]) {
            seq![' ']
        } else {
            Seq::empty()
        };
        assert(mid =~= old(out)@ + sep);
    }
}

/// The description of a product model given as blocks.
pub fn flatten_description_blocks(blocks: &Vec<JsonValue>) -> (r: Option<String>)
    ensures
        crate::session::opt_seq(r) == flatten_blocks(jview_items(blocks@)),
{
    let ghost all = jview_items(blocks@);
    proof {
        lemma_jview_items(blocks@);
        assert(all.subrange(0, all.len() as int) =~= all);
    }
    let mut out: Vec<char> = Vec::new();
    let mut i: usize = 0;
    while i < blocks.len()
        invariant
            all == jview_items(blocks@),
            all.len() == blocks@.len(),
            forall|j: int| 0 <= j < blocks@.len() ==> #[trigger] all[j] == jview(blocks@[j]),
            i <= blocks@.len(),
            assemble_blocks(all, Seq::empty()) == assemble_blocks(all.subrange(i as int, all.len() as int), out@),
        decreases blocks@.len() - i,
    {
        let ghost rest = all.subrange(i as int, all.len() as int);
        assert(rest[0] == jview(blocks@[i as int]));
        assert(rest.drop_first() =~= all.subrange(i + 1, all.len() as int));
        let b = &blocks[i];
        let ty = match get(b, "type") {
            Some(t) => as_str(t),
            None => None,
        };
        match ty {
            Some(t) => {
                if crate::text::str_eq(t, "text") {
                    match get(b, "text") {
                        Some(x) => match as_str(x) {
                            Some(text) => {
                                let tc = str_chars(text);
                                add_chunk_exec(&mut out, tc.as_slice());
                            },
                            None => {},
                        },
                        None => {},
                    }
                } else if crate::text::str_eq(t, "image") {
                    let nl: Vec<char> = vec!['\n'];
                    proof {
                        reveal_strlit("\n");
                        assert(nl@ =~= "\n"@);
                    }
                    add_chunk_exec(&mut out, nl.as_slice());
                }
            },
            None => {},
        }
        i = i + 1;
    }
    proof {
        assert(all.subrange(i as int, all.len() as int) =~= Seq::<JsonView>::empty());
    }
    let t = trim_chars(out.as_slice());
    if t.len() == 0 {
        None
    } else {
        Some(string_from(t.as_slice()))
    }
}

/// The description a product model gives: its blocks (as an array, or as a
/// string holding one), or its plain text.
pub open spec fn description_spec(m: JsonView) -> Option<Seq<char>> {
    match jget(m, "description"@) {
        None => None,
        Some(raw) => match jitems(raw) {
            Some(rows) => flatten_blocks(rows),
            None => match jstr(raw) {
                None => None,
                Some(s) => {
                    let t = trim(s);
                    if t.len() == 0 {
                        None
                    } else if t[0] != '[' {
                        Some(t)
                    } else {
                        match json_parse(t) {
                            None => None,
                            Some(p) => match jitems(p) {
                                None => None,
                                Some(rows) => flatten_blocks(rows),
                            },
                        }
                    }
                },
            },
        },
    }
}

/// The description of a product model.
pub fn description_from_product_model(product_model: &JsonValue) -> (r: Option<String>)
    ensures
        crate::session::opt_seq(r) == description_spec(jview(*product_model)),
{
    let raw = match get(product_model, "description") {
        Some(raw) => raw,
        None => return None,
    };
    match as_array(raw) {
        Some(rows) => return flatten_description_blocks(rows),
        None => {},
    }
    let s = match as_str(raw) {
        Some(s) => s,
        None => return None,
    };
    let t = crate::text::trim_str(s);
    if t.len() == 0 {
        return None;
    }
    if t[0] != '[' {
        return Some(string_from(t.as_slice()));
    }
    let parsed = match parse_json(t.as_slice()) {
        Ok(p) => p,
        Err(_) => return None,
    };
    match as_array(&parsed) {
        Some(rows) => flatten_description_blocks(rows),
        None => None,
    }
}

} // verus!
