//! Extractor: turns a document's item collection into the work list of
//! (remote address, local destination) pairs for every item that carries a
//! downloadable attachment.

use vstd::prelude::*;
use vstd::string::*;

use crate::addrs::{file_path, file_url, spec_file_path, spec_file_url};
use crate::errors::DlError;
use crate::json::{
    json_as_array, json_as_i64, json_as_str, json_get, json_model, json_of, parse_json,
};
use crate::jsonmodel::{spec_obj_get, JsonV};

use serde_json::Value;

verus! {

/// The attachment descriptor of an item: a numeric identifier and a file
/// extension.
pub struct Attachment {
    pub id: i64,
    pub ext: String,
}

/// The mathematical value of an attachment descriptor.
pub struct AttachmentV {
    pub id: int,
    pub ext: Seq<char>,
}

impl View for Attachment {
    type V = AttachmentV;

    open spec fn view(&self) -> AttachmentV {
        AttachmentV { id: self.id as int, ext: self.ext@ }
    }
}

/// One entry of a document's item collection. Most items carry no
/// attachment; those yield no work.
pub struct Post {
    pub attachment: Option<Attachment>,
}

impl View for Post {
    type V = Option<AttachmentV>;

    open spec fn view(&self) -> Option<AttachmentV> {
        match self.attachment {
            Some(a) => Some(a@),
            None => None,
        }
    }
}

/// One unit of download work: a remote address and the local destination
/// its bytes are written to.
pub struct WorkPair {
    pub url: String,
    pub path: String,
}

/// The mathematical value of a work pair.
pub struct WorkPairV {
    pub url: Seq<char>,
    pub path: Seq<char>,
}

impl View for WorkPair {
    type V = WorkPairV;

    open spec fn view(&self) -> WorkPairV {
        WorkPairV { url: self.url@, path: self.path@ }
    }
}

/// The work pair of one attachment within a scope.
pub open spec fn spec_pair_of(board: Seq<char>, out: Seq<char>, a: AttachmentV) -> WorkPairV {
    WorkPairV {
        url: spec_file_url(board, a.id, a.ext),
        path: spec_file_path(out, a.id, a.ext),
    }
}

/// The work list of an item sequence: one pair per attachment-bearing item,
/// in item order; items without an attachment contribute nothing.
pub open spec fn spec_pairs(
    posts: Seq<Option<AttachmentV>>,
    board: Seq<char>,
    out: Seq<char>,
) -> Seq<WorkPairV>
    decreases posts.len(),
{
    if posts.len() == 0 {
        Seq::empty()
    } else {
        let head = match posts[0] {
            Some(a) => seq![spec_pair_of(board, out, a)],
            None => Seq::<WorkPairV>::empty(),
        };
        head + spec_pairs(posts.skip(1), board, out)
    }
}

/// The number of attachment-bearing items in an item sequence.
pub open spec fn count_attached(posts: Seq<Option<AttachmentV>>) -> nat
    decreases posts.len(),
{
    if posts.len() == 0 {
        0
    } else {
        (if posts[0] is Some {
            1nat
        } else {
            0nat
        }) + count_attached(posts.skip(1))
    }
}

/// Filter invariant of the extractor: the work list holds exactly one pair
/// per attachment-bearing item, so an item without a numeric attachment
/// identifier never yields a work pair.
pub proof fn lemma_pairs_filter_invariant(
    posts: Seq<Option<AttachmentV>>,
    board: Seq<char>,
    out: Seq<char>,
)
    ensures
        spec_pairs(posts, board, out).len() == count_attached(posts),
    decreases posts.len(),
{
    if posts.len() > 0 {
        lemma_pairs_filter_invariant(posts.skip(1), board, out);
    }
}

/// Builds the work list of a decoded item sequence, in item order.
pub fn build_pairs(posts: &Vec<Post>, board: &str, out_dir: &str) -> (r: Vec<WorkPair>)
    ensures
        r@.map_values(|p: WorkPair| p@) == spec_pairs(
            posts@.map_values(|p: Post| p@),
            board@,
            out_dir@,
        ),
{
    let ghost pv = posts@.map_values(|p: Post| p@);
    let mut out: Vec<WorkPair> = Vec::new();
    let mut i: usize = 0;
    proof {
        assert(pv.skip(0) =~= pv);
        assert(out@.map_values(|p: WorkPair| p@) + spec_pairs(pv, board@, out_dir@) =~= spec_pairs(
            pv,
            board@,
            out_dir@,
        ));
    }
    while i < posts.len()
        invariant
            i <= posts.len(),
            pv == posts@.map_values(|p: Post| p@),
            pv.len() == posts@.len(),
            spec_pairs(pv, board@, out_dir@) == out@.map_values(|p: WorkPair| p@) + spec_pairs(
                pv.skip(i as int),
                board@,
                out_dir@,
            ),
        decreases posts.len() - i,
    {
        let post = &posts[i];
        proof {
            assert(pv.skip(i as int)[0] == pv[i as int]);
            assert(pv.skip(i as int).skip(1) =~= pv.skip(i as int + 1));
        }
        match &post.attachment {
            Some(a) => {
                let url = file_url(board, a.id, a.ext.as_str());
                let path = file_path(out_dir, a.id, a.ext.as_str());
                let pair = WorkPair { url, path };
                proof {
                    let f = |p: WorkPair| p@;
                    assert(pair@ == spec_pair_of(board@, out_dir@, pv[i as int]->Some_0));
                    assert(out@.push(pair).map_values(f) =~= out@.map_values(f) + seq![pair@]);
                    assert(out@.map_values(f) + (seq![pair@] + spec_pairs(
                        pv.skip(i as int + 1),
                        board@,
                        out_dir@,
                    )) =~= out@.push(pair).map_values(f) + spec_pairs(
                        pv.skip(i as int + 1),
                        board@,
                        out_dir@,
                    ));
                }
                out.push(pair);
            },
            None => {
                proof {
                    assert(Seq::<WorkPairV>::empty() + spec_pairs(
                        pv.skip(i as int + 1),
                        board@,
                        out_dir@,
                    ) =~= spec_pairs(pv.skip(i as int + 1), board@, out_dir@));
                }
            },
        }
        i = i + 1;
    }
    proof {
        assert(pv.skip(posts@.len() as int) =~= Seq::<Option<AttachmentV>>::empty());
        assert(out@.map_values(|p: WorkPair| p@) + Seq::<WorkPairV>::empty() =~= out@.map_values(
            |p: WorkPair| p@,
        ));
    }
    out
}

/// What one item decodes to: an item whose `tim` member is a signed 64-bit
/// number carries an attachment and must then have a string `ext` member
/// (`None`: the item is malformed); any other item carries no attachment.
pub open spec fn spec_post(j: JsonV) -> Option<Option<AttachmentV>> {
    match spec_obj_get(j, "tim"@) {
        Some(t) => match t {
            JsonV::Int(id) => match spec_obj_get(j, "ext"@) {
                Some(e) => match e {
                    JsonV::Str(ext) => Some(Some(AttachmentV { id: id, ext: ext })),
                    _ => None,
                },
                None => None,
            },
            _ => Some(None),
        },
        None => Some(None),
    }
}

/// What an item sequence decodes to: each item's attachment in item order,
/// `None` as soon as one item is malformed.
pub open spec fn spec_posts(items: Seq<JsonV>) -> Option<Seq<Option<AttachmentV>>>
    decreases items.len(),
{
    if items.len() == 0 {
        Some(Seq::empty())
    } else {
        match spec_post(items[0]) {
            Some(a) => match spec_posts(items.skip(1)) {
                Some(rest) => Some(seq![a] + rest),
                None => None,
            },
            None => None,
        }
    }
}

/// What a document decodes to: the items of its `posts` array, `None` when
/// the document is not an object with a `posts` array of well-formed items.
pub open spec fn spec_document(j: JsonV) -> Option<Seq<Option<AttachmentV>>> {
    match spec_obj_get(j, "posts"@) {
        Some(p) => match p {
            JsonV::Arr(items) => spec_posts(items),
            _ => None,
        },
        None => None,
    }
}

/// The whole extractor as a function of the fetched body: `Decode` exactly
/// when the body is not well-formed JSON of the expected document shape,
/// otherwise the work list of the decoded items.
pub open spec fn spec_extract_pairs(
    body: Seq<char>,
    board: Seq<char>,
    out: Seq<char>,
) -> Result<Seq<WorkPairV>, DlError> {
    match json_of(body) {
        Some(j) => match spec_document(j) {
            Some(posts) => Ok(spec_pairs(posts, board, out)),
            None => Err(DlError::Decode),
        },
        None => Err(DlError::Decode),
    }
}

/// The view of an extractor result.
pub open spec fn pairs_view(r: Result<Vec<WorkPair>, DlError>) -> Result<Seq<WorkPairV>, DlError> {
    match r {
        Ok(pairs) => Ok(pairs@.map_values(|p: WorkPair| p@)),
        Err(e) => Err(e),
    }
}

/// Decodes a document's item collection, exactly as `spec_document` says of
/// the document's model.
pub(crate) fn decode_posts(v: &Value) -> (r: Result<Vec<Post>, DlError>)
    ensures
        r is Err ==> r->Err_0 == DlError::Decode,
        r is Ok <==> spec_document(json_model(*v)) is Some,
        r matches Ok(posts) ==> posts@.map_values(|p: Post| p@) == spec_document(
            json_model(*v),
        )->Some_0,
{
    let ghost m = json_model(*v);
    let posts_val = match json_get(v, "posts") {
        Some(p) => p,
        None => {
            proof {
                assert(spec_obj_get(m, "posts"@) is None);
            }
            return Err(DlError::Decode);
        },
    };
    let arr = match json_as_array(posts_val) {
        Some(a) => a,
        None => {
            proof {
                assert(spec_obj_get(m, "posts"@) == Some(json_model(*posts_val)));
                assert(spec_document(m) is None);
            }
            return Err(DlError::Decode);
        },
    };
    let ghost items = arr@.map_values(|x: Value| json_model(x));
    proof {
        assert(spec_obj_get(m, "posts"@) == Some(JsonV::Arr(items)));
        assert(spec_document(m) == spec_posts(items));
    }
    let mut posts: Vec<Post> = Vec::new();
    let mut i: usize = 0;
    proof {
        assert(items.skip(0) =~= items);
        assert(spec_posts(items) is Some ==> posts@.map_values(|p: Post| p@) + spec_posts(
            items,
        )->Some_0 =~= spec_posts(items)->Some_0);
    }
    while i < arr.len()
        invariant
            i <= arr.len(),
            m == json_model(*v),
            spec_document(m) == spec_posts(items),
            items == arr@.map_values(|x: Value| json_model(x)),
            items.len() == arr@.len(),
            spec_posts(items) is Some <==> spec_posts(items.skip(i as int)) is Some,
            spec_posts(items) is Some ==> spec_posts(items)->Some_0 == posts@.map_values(
                |p: Post| p@,
            ) + spec_posts(items.skip(i as int))->Some_0,
        decreases arr.len() - i,
    {
        let post = &arr[i];
        proof {
            assert(items[i as int] == json_model(arr@[i as int]));
            assert(items.skip(i as int)[0] == items[i as int]);
            assert(items.skip(i as int).skip(1) =~= items.skip(i as int + 1));
        }
        let attachment = match json_get(post, "tim") {
            Some(timv) => match json_as_i64(timv) {
                Some(id) => {
                    let extv = match json_get(post, "ext") {
                        Some(e) => e,
                        None => {
                            proof {
                                assert(spec_post(items[i as int]) is None);
                            }
                            return Err(DlError::Decode);
                        },
                    };
                    let ext = match json_as_str(extv) {
                        Some(s) => s,
                        None => {
                            proof {
                                assert(spec_post(items[i as int]) is None);
                            }
                            return Err(DlError::Decode);
                        },
                    };
                    Some(Attachment { id, ext: String::from_str(ext) })
                },
                None => None,
            },
            None => None,
        };
        let new_post = Post { attachment };
        proof {
            let f = |p: Post| p@;
            assert(spec_post(items[i as int]) == Some(new_post@));
            assert(posts@.push(new_post).map_values(f) =~= posts@.map_values(f) + seq![new_post@]);
            assert(spec_posts(items) is Some ==> posts@.map_values(f) + (seq![new_post@]
                + spec_posts(items.skip(i as int + 1))->Some_0) =~= posts@.push(
                new_post,
            ).map_values(f) + spec_posts(items.skip(i as int + 1))->Some_0);
        }
        posts.push(new_post);
        i = i + 1;
    }
    proof {
        assert(items.skip(arr@.len() as int) =~= Seq::<JsonV>::empty());
        assert(spec_posts(items) is Some);
        assert(posts@.map_values(|p: Post| p@) + Seq::<Option<AttachmentV>>::empty()
            =~= posts@.map_values(|p: Post| p@));
    }
    Ok(posts)
}

/// Extractor entry point: parses a fetched document body, decodes its item
/// collection, and yields the work list in item order, exactly as
/// `spec_extract_pairs` says of the body. Fails with `Decode` exactly when
/// the body is not well-formed JSON of the expected shape; an item without
/// an attachment is skipped silently, which is the normal case.
pub fn extract_pairs(document_body: &str, board: &str, out_dir: &str) -> (r: Result<
    Vec<WorkPair>,
    DlError,
>)
    ensures
        pairs_view(r) == spec_extract_pairs(document_body@, board@, out_dir@),
{
    let v = match parse_json(document_body) {
        Ok(v) => v,
        Err(_) => {
            return Err(DlError::Decode);
        },
    };
    let posts = match decode_posts(&v) {
        Ok(p) => p,
        Err(e) => {
            return Err(e);
        },
    };
    let pairs = build_pairs(&posts, board, out_dir);
    proof {
        let w = posts@.map_values(|p: Post| p@);
        assert(pairs@.map_values(|p: WorkPair| p@) == spec_pairs(w, board@, out_dir@));
    }
    Ok(pairs)
}

} // verus!
