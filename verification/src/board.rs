//! Locator and lister for a catalog (multi-document) target.

use vstd::prelude::*;

use crate::addrs::{catalog_addr, spec_catalog_addr, spec_thread_addr, target_view, thread_addr};
use crate::errors::DlError;
use crate::json::{json_as_array, json_as_i64, json_get, json_model, json_of, parse_json};
use crate::jsonmodel::{spec_obj_get, JsonV};
use crate::strutil::{dec_i64, i64_to_dec, spec_split, split_char};

use serde_json::Value;

verus! {

/// What the locator produces for a catalog endpoint string: the second-last
/// path segment is the scope name, and the catalog address is built from it
/// alone. An input with fewer than two segments is malformed.
pub open spec fn spec_parse_url(u: Seq<char>) -> Result<(Seq<char>, Seq<char>), DlError> {
    let segs = spec_split(u, '/');
    if segs.len() >= 2 {
        Ok((spec_catalog_addr(segs[segs.len() - 2]), segs[segs.len() - 2]))
    } else {
        Err(DlError::MalformedTarget)
    }
}

/// Splits a catalog endpoint string into the catalog address and the scope
/// name. The result is a pure function of the input string: no I/O, no side
/// effects.
pub fn parse_url(url: &str) -> (r: Result<(String, String), DlError>)
    ensures
        target_view(r) == spec_parse_url(url@),
{
    let segs = split_char(url, '/');
    proof {
        assert(segs@.len() == spec_split(url@, '/').len());
    }
    if segs.len() >= 2 {
        let board = &segs[segs.len() - 2];
        let addr = catalog_addr(board.as_str());
        proof {
            let f = |t: String| t@;
            let ss = spec_split(url@, '/');
            assert(f(segs@[segs@.len() - 2]) == ss[ss.len() - 2]);
        }
        Ok((addr, board.clone()))
    } else {
        Err(DlError::MalformedTarget)
    }
}

/// One page of a catalog: the identifiers of the threads it lists.
pub struct CatalogPage {
    pub threads: Vec<i64>,
}

impl View for CatalogPage {
    type V = Seq<int>;

    open spec fn view(&self) -> Seq<int> {
        self.threads@.map_values(|n: i64| n as int)
    }
}

/// The document addresses of one page's threads, in item order.
pub open spec fn spec_page_addrs(threads: Seq<int>, board: Seq<char>) -> Seq<Seq<char>>
    decreases threads.len(),
{
    if threads.len() == 0 {
        Seq::empty()
    } else {
        seq![spec_thread_addr(board, dec_i64(threads[0]))] + spec_page_addrs(
            threads.skip(1),
            board,
        )
    }
}

/// The document addresses of a whole catalog, in page-then-item order.
pub open spec fn spec_addresses(pages: Seq<Seq<int>>, board: Seq<char>) -> Seq<Seq<char>>
    decreases pages.len(),
{
    if pages.len() == 0 {
        Seq::empty()
    } else {
        spec_page_addrs(pages[0], board) + spec_addresses(pages.skip(1), board)
    }
}

/// Flattens a decoded catalog into the document addresses of every thread
/// on every page, in page-then-item order.
pub fn thread_addresses(pages: &Vec<CatalogPage>, board: &str) -> (r: Vec<String>)
    ensures
        r@.map_values(|s: String| s@) == spec_addresses(
            pages@.map_values(|p: CatalogPage| p@),
            board@,
        ),
{
    let ghost pgv = pages@.map_values(|p: CatalogPage| p@);
    let mut out: Vec<String> = Vec::new();
    let mut pi: usize = 0;
    proof {
        assert(pgv.skip(0) =~= pgv);
        assert(out@.map_values(|s: String| s@) + spec_addresses(pgv, board@) =~= spec_addresses(
            pgv,
            board@,
        ));
    }
    while pi < pages.len()
        invariant
            pi <= pages.len(),
            pgv == pages@.map_values(|p: CatalogPage| p@),
            pgv.len() == pages@.len(),
            spec_addresses(pgv, board@) == out@.map_values(|s: String| s@) + spec_addresses(
                pgv.skip(pi as int),
                board@,
            ),
        decreases pages.len() - pi,
    {
        let page = &pages[pi];
        let ghost tv = pgv[pi as int];
        proof {
            assert(pgv.skip(pi as int)[0] == pgv[pi as int]);
            assert(pgv.skip(pi as int).skip(1) =~= pgv.skip(pi as int + 1));
            assert(tv.skip(0) =~= tv);
        }
        let mut ti: usize = 0;
        while ti < page.threads.len()
            invariant
                ti <= page.threads.len(),
                pgv == pages@.map_values(|p: CatalogPage| p@),
                pgv.len() == pages@.len(),
                pi < pages@.len(),
                page == &pages[pi as int],
                tv == pgv[pi as int],
                tv.len() == page.threads@.len(),
                spec_addresses(pgv, board@) == out@.map_values(|s: String| s@)
                    + spec_page_addrs(tv.skip(ti as int), board@) + spec_addresses(
                    pgv.skip(pi as int + 1),
                    board@,
                ),
            decreases page.threads.len() - ti,
        {
            let no = page.threads[ti];
            let dec = i64_to_dec(no);
            let addr = thread_addr(board, dec.as_str());
            proof {
                let f = |s: String| s@;
                assert(tv.skip(ti as int)[0] == tv[ti as int]);
                assert(tv[ti as int] == no as int);
                assert(tv.skip(ti as int).skip(1) =~= tv.skip(ti as int + 1));
                assert(out@.push(addr).map_values(f) =~= out@.map_values(f) + seq![addr@]);
                assert(out@.map_values(f) + (seq![addr@] + spec_page_addrs(
                    tv.skip(ti as int + 1),
                    board@,
                )) =~= out@.push(addr).map_values(f) + spec_page_addrs(
                    tv.skip(ti as int + 1),
                    board@,
                ));
                assert((out@.push(addr).map_values(f) + spec_page_addrs(
                    tv.skip(ti as int + 1),
                    board@,
                )) + spec_addresses(pgv.skip(pi as int + 1), board@) =~= out@.push(addr).map_values(
                    f,
                ) + spec_page_addrs(tv.skip(ti as int + 1), board@) + spec_addresses(
                    pgv.skip(pi as int + 1),
                    board@,
                ));
                assert((out@.map_values(f) + spec_page_addrs(tv.skip(ti as int), board@))
                    + spec_addresses(pgv.skip(pi as int + 1), board@) =~= out@.map_values(f)
                    + spec_page_addrs(tv.skip(ti as int), board@) + spec_addresses(
                    pgv.skip(pi as int + 1),
                    board@,
                ));
            }
            out.push(addr);
            ti = ti + 1;
        }
        proof {
            assert(tv.skip(page.threads@.len() as int) =~= Seq::<int>::empty());
            assert(out@.map_values(|s: String| s@) + Seq::<Seq<char>>::empty() + spec_addresses(
                pgv.skip(pi as int + 1),
                board@,
            ) =~= out@.map_values(|s: String| s@) + spec_addresses(pgv.skip(pi as int + 1), board@));
        }
        pi = pi + 1;
    }
    proof {
        assert(pgv.skip(pages@.len() as int) =~= Seq::<Seq<int>>::empty());
        assert(out@.map_values(|s: String| s@) + Seq::<Seq<char>>::empty() =~= out@.map_values(
            |s: String| s@,
        ));
    }
    out
}

/// The thread identifier of one catalog item: `None` when the item has no
/// numeric `no` member.
pub open spec fn spec_thread_no(j: JsonV) -> Option<int> {
    match spec_obj_get(j, "no"@) {
        Some(n) => match n {
            JsonV::Int(id) => Some(id),
            _ => None,
        },
        None => None,
    }
}

/// What an item sequence of one page decodes to: each item's thread
/// identifier in item order, `None` as soon as one item is malformed.
pub open spec fn spec_thread_nos(items: Seq<JsonV>) -> Option<Seq<int>>
    decreases items.len(),
{
    if items.len() == 0 {
        Some(Seq::empty())
    } else {
        match spec_thread_no(items[0]) {
            Some(n) => match spec_thread_nos(items.skip(1)) {
                Some(rest) => Some(seq![n] + rest),
                None => None,
            },
            None => None,
        }
    }
}

/// What one catalog page decodes to: the identifiers under its `threads`
/// array, `None` when the page has no such array or an item is malformed.
pub open spec fn spec_page_threads(j: JsonV) -> Option<Seq<int>> {
    match spec_obj_get(j, "threads"@) {
        Some(t) => match t {
            JsonV::Arr(items) => spec_thread_nos(items),
            _ => None,
        },
        None => None,
    }
}

/// What a page sequence decodes to: one identifier sequence per page, in
/// page order, `None` as soon as one page is malformed.
pub open spec fn spec_catalog_pages(pages: Seq<JsonV>) -> Option<Seq<Seq<int>>>
    decreases pages.len(),
{
    if pages.len() == 0 {
        Some(Seq::empty())
    } else {
        match spec_page_threads(pages[0]) {
            Some(t) => match spec_catalog_pages(pages.skip(1)) {
                Some(rest) => Some(seq![t] + rest),
                None => None,
            },
            None => None,
        }
    }
}

/// What a catalog document decodes to: `None` when the document is not an
/// array of pages of the expected shape.
pub open spec fn spec_catalog(j: JsonV) -> Option<Seq<Seq<int>>> {
    match j {
        JsonV::Arr(pages) => spec_catalog_pages(pages),
        _ => None,
    }
}

/// The whole lister as a function of the fetched body: `Decode` exactly
/// when the body is not well-formed JSON of the expected catalog shape,
/// otherwise every thread's document address in page-then-item order.
pub open spec fn spec_list_documents(body: Seq<char>, board: Seq<char>) -> Result<
    Seq<Seq<char>>,
    DlError,
> {
    match json_of(body) {
        Some(j) => match spec_catalog(j) {
            Some(pages) => Ok(spec_addresses(pages, board)),
            None => Err(DlError::Decode),
        },
        None => Err(DlError::Decode),
    }
}

/// The view of a lister result.
pub open spec fn docs_view(r: Result<Vec<String>, DlError>) -> Result<Seq<Seq<char>>, DlError> {
    match r {
        Ok(docs) => Ok(docs@.map_values(|s: String| s@)),
        Err(e) => Err(e),
    }
}

/// Decodes a catalog document, exactly as `spec_catalog` says of the
/// document's model.
pub(crate) fn decode_catalog(v: &Value) -> (r: Result<Vec<CatalogPage>, DlError>)
    ensures
        r is Err ==> r->Err_0 == DlError::Decode,
        r is Ok <==> spec_catalog(json_model(*v)) is Some,
        r matches Ok(pages) ==> pages@.map_values(|p: CatalogPage| p@) == spec_catalog(
            json_model(*v),
        )->Some_0,
{
    let ghost m = json_model(*v);
    let arr = match json_as_array(v) {
        Some(a) => a,
        None => {
            return Err(DlError::Decode);
        },
    };
    let ghost pgs = arr@.map_values(|x: Value| json_model(x));
    proof {
        assert(spec_catalog(m) == spec_catalog_pages(pgs));
    }
    let mut pages: Vec<CatalogPage> = Vec::new();
    let mut pi: usize = 0;
    proof {
        assert(pgs.skip(0) =~= pgs);
        assert(spec_catalog_pages(pgs) is Some ==> pages@.map_values(|p: CatalogPage| p@)
            + spec_catalog_pages(pgs)->Some_0 =~= spec_catalog_pages(pgs)->Some_0);
    }
    while pi < arr.len()
        invariant
            pi <= arr.len(),
            m == json_model(*v),
            spec_catalog(m) == spec_catalog_pages(pgs),
            pgs == arr@.map_values(|x: Value| json_model(x)),
            pgs.len() == arr@.len(),
            spec_catalog_pages(pgs) is Some <==> spec_catalog_pages(pgs.skip(pi as int)) is Some,
            spec_catalog_pages(pgs) is Some ==> spec_catalog_pages(pgs)->Some_0
                == pages@.map_values(|p: CatalogPage| p@) + spec_catalog_pages(
                pgs.skip(pi as int),
            )->Some_0,
        decreases arr.len() - pi,
    {
        let page = &arr[pi];
        proof {
            assert(pgs[pi as int] == json_model(arr@[pi as int]));
            assert(pgs.skip(pi as int)[0] == pgs[pi as int]);
            assert(pgs.skip(pi as int).skip(1) =~= pgs.skip(pi as int + 1));
        }
        let threads_val = match json_get(page, "threads") {
            Some(t) => t,
            None => {
                proof {
                    assert(spec_page_threads(pgs[pi as int]) is None);
                }
                return Err(DlError::Decode);
            },
        };
        let tarr = match json_as_array(threads_val) {
            Some(t) => t,
            None => {
                proof {
                    assert(spec_page_threads(pgs[pi as int]) is None);
                }
                return Err(DlError::Decode);
            },
        };
        let ghost titems = tarr@.map_values(|x: Value| json_model(x));
        proof {
            assert(spec_obj_get(pgs[pi as int], "threads"@) == Some(JsonV::Arr(titems)));
            assert(spec_page_threads(pgs[pi as int]) == spec_thread_nos(titems));
        }
        let mut threads: Vec<i64> = Vec::new();
        let mut ti: usize = 0;
        proof {
            assert(titems.skip(0) =~= titems);
            assert(spec_thread_nos(titems) is Some ==> threads@.map_values(|n: i64| n as int)
                + spec_thread_nos(titems)->Some_0 =~= spec_thread_nos(titems)->Some_0);
        }
        while ti < tarr.len()
            invariant
                ti <= tarr.len(),
                m == json_model(*v),
                spec_catalog(m) == spec_catalog_pages(pgs),
                pgs.len() == arr@.len(),
                pi < arr@.len(),
                spec_catalog_pages(pgs) is Some <==> spec_catalog_pages(
                    pgs.skip(pi as int),
                ) is Some,
                spec_catalog_pages(pgs) is Some ==> spec_catalog_pages(pgs)->Some_0
                    == pages@.map_values(|p: CatalogPage| p@) + spec_catalog_pages(
                    pgs.skip(pi as int),
                )->Some_0,
                pgs.skip(pi as int)[0] == pgs[pi as int],
                pgs.skip(pi as int).skip(1) == pgs.skip(pi as int + 1),
                spec_page_threads(pgs[pi as int]) == spec_thread_nos(titems),
                titems == tarr@.map_values(|x: Value| json_model(x)),
                titems.len() == tarr@.len(),
                spec_thread_nos(titems) is Some <==> spec_thread_nos(
                    titems.skip(ti as int),
                ) is Some,
                spec_thread_nos(titems) is Some ==> spec_thread_nos(titems)->Some_0
                    == threads@.map_values(|n: i64| n as int) + spec_thread_nos(
                    titems.skip(ti as int),
                )->Some_0,
            decreases tarr.len() - ti,
        {
            let item = &tarr[ti];
            proof {
                assert(titems[ti as int] == json_model(tarr@[ti as int]));
                assert(titems.skip(ti as int)[0] == titems[ti as int]);
                assert(titems.skip(ti as int).skip(1) =~= titems.skip(ti as int + 1));
            }
            let no_val = match json_get(item, "no") {
                Some(n) => n,
                None => {
                    proof {
                        assert(spec_thread_no(titems[ti as int]) is None);
                    }
                    return Err(DlError::Decode);
                },
            };
            let no = match json_as_i64(no_val) {
                Some(n) => n,
                None => {
                    proof {
                        assert(spec_thread_no(titems[ti as int]) is None);
                    }
                    return Err(DlError::Decode);
                },
            };
            proof {
                let f = |n: i64| n as int;
                assert(spec_thread_no(titems[ti as int]) == Some(no as int));
                assert(threads@.push(no).map_values(f) =~= threads@.map_values(f) + seq![
                    no as int,
                ]);
                assert(spec_thread_nos(titems) is Some ==> threads@.map_values(f) + (seq![
                    no as int,
                ] + spec_thread_nos(titems.skip(ti as int + 1))->Some_0) =~= threads@.push(
                    no,
                ).map_values(f) + spec_thread_nos(titems.skip(ti as int + 1))->Some_0);
            }
            threads.push(no);
            ti = ti + 1;
        }
        let new_page = CatalogPage { threads };
        proof {
            let f = |p: CatalogPage| p@;
            assert(titems.skip(tarr@.len() as int) =~= Seq::<JsonV>::empty());
            assert(spec_thread_nos(titems) is Some ==> threads@.map_values(|n: i64| n as int)
                + Seq::<int>::empty() =~= threads@.map_values(|n: i64| n as int));
            assert(spec_page_threads(pgs[pi as int]) == Some(new_page@));
            assert(pages@.push(new_page).map_values(f) =~= pages@.map_values(f) + seq![
                new_page@,
            ]);
            assert(spec_catalog_pages(pgs) is Some ==> pages@.map_values(f) + (seq![new_page@]
                + spec_catalog_pages(pgs.skip(pi as int + 1))->Some_0) =~= pages@.push(
                new_page,
            ).map_values(f) + spec_catalog_pages(pgs.skip(pi as int + 1))->Some_0);
        }
        pages.push(new_page);
        pi = pi + 1;
    }
    proof {
        assert(pgs.skip(arr@.len() as int) =~= Seq::<JsonV>::empty());
        assert(spec_catalog_pages(pgs) is Some);
        assert(pages@.map_values(|p: CatalogPage| p@) + Seq::<Seq<int>>::empty()
            =~= pages@.map_values(|p: CatalogPage| p@));
    }
    Ok(pages)
}

/// Lister entry point: parses a fetched catalog body and expands it into
/// the document address of every thread it lists, eagerly and in
/// page-then-item order, exactly as `spec_list_documents` says of the body.
/// Fails with `Decode` exactly when the body is not well-formed JSON of the
/// expected catalog shape; the failure is fatal for the whole run, a
/// corrupt catalog yields no addresses at all.
pub fn list_documents(catalog_body: &str, board: &str) -> (r: Result<Vec<String>, DlError>)
    ensures
        docs_view(r) == spec_list_documents(catalog_body@, board@),
{
    let v = match parse_json(catalog_body) {
        Ok(v) => v,
        Err(_) => {
            return Err(DlError::Decode);
        },
    };
    let pages = match decode_catalog(&v) {
        Ok(p) => p,
        Err(e) => {
            return Err(e);
        },
    };
    let docs = thread_addresses(&pages, board);
    proof {
        let w = pages@.map_values(|p: CatalogPage| p@);
        assert(docs@.map_values(|s: String| s@) == spec_addresses(w, board@));
    }
    Ok(docs)
}

} // verus!
