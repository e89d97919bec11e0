//! What one flush writes: for each item, the key it is stored under and the
//! sanitized body.

use vstd::prelude::*;

use crate::sanitizer::{pipeline_apply, SanitizerPipeline, StageView};
use crate::saveable::Saveable;

verus! {

/// The content type under which every body is stored.
pub const CONTENT_TYPE: &'static str = "text/html";

/// The key of an item named `name`: the name itself without a prefix, else
/// the prefix and the name joined by `/`.
pub open spec fn storage_key(prefix: Seq<char>, name: Seq<char>) -> Seq<char> {
    if prefix.len() == 0 {
        name
    } else {
        prefix + "/"@ + name
    }
}

/// Builds the storage key of an item named `name`.
pub fn compose_key(prefix: &str, name: &str) -> (r: String)
    ensures
        r@ == storage_key(prefix@, name@),
{
    if prefix.is_empty() {
        name.to_owned()
    } else {
        let mut key = prefix.to_owned();
        key.append("/");
        key.append(name);
        key
    }
}

/// One storage write: the body to store under the key.
pub struct Upload {
    pub key: String,
    pub body: String,
}

/// Whether `u` is the write for an item with this content and name.
pub open spec fn is_upload_of(
    u: Upload,
    stages: Seq<StageView>,
    prefix: Seq<char>,
    content: Seq<char>,
    name: Seq<char>,
) -> bool {
    &&& u.key@ == storage_key(prefix, name)
    &&& u.body@ == pipeline_apply(stages, content)
}

/// The write for an item with this content and name: the content through
/// the pipeline (verbatim when the pipeline is empty), under its key.
pub fn prepare_upload(pipeline: &SanitizerPipeline, prefix: &str, content: &str, name: &str) -> (r: Upload)
    ensures
        is_upload_of(r, pipeline@, prefix@, content@, name@),
{
    let body = if pipeline.is_empty() {
        content.to_owned()
    } else {
        pipeline.sanitize(content)
    };
    Upload { key: compose_key(prefix, name), body }
}

/// Whether `u` is the write for some item, whatever its content and name.
pub open spec fn is_upload_for(u: Upload, stages: Seq<StageView>, prefix: Seq<char>) -> bool {
    exists|content: Seq<char>, name: Seq<char>| is_upload_of(u, stages, prefix, content, name)
}

/// The writes for a batch, one per item, in order. Each is built from what
/// the item's [`Saveable::content`] and [`Saveable::name`] returned.
pub fn prepare_uploads<R: Saveable>(pipeline: &SanitizerPipeline, prefix: &str, items: &Vec<R>) -> (r: Vec<Upload>)
    ensures
        r@.len() == items@.len(),
        forall|k: int| 0 <= k < r@.len() ==> is_upload_for(#[trigger] r@[k], pipeline@, prefix@),
{
    let mut out: Vec<Upload> = Vec::new();
    let mut k: usize = 0;
    while k < items.len()
        invariant
            k <= items.len(),
            out@.len() == k,
            forall|j: int| 0 <= j < k ==> is_upload_for(#[trigger] out@[j], pipeline@, prefix@),
        decreases items.len() - k,
    {
        let item = &items[k];
        let name = item.name();
        let content = item.content();
        let upload = prepare_upload(pipeline, prefix, content, name.as_str());
        assert(is_upload_of(upload, pipeline@, prefix@, content@, name@));
        out.push(upload);
        k += 1;
    }
    out
}

} // verus!
