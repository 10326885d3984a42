//! Objects: uploads are collected before they are handed on, downloads are replayed in parts.
use crate::core_error::CoreError;
use crate::plugin::sdk::backend::{ObjectPutOut, ObjectPutOutView};
use crate::plugin::sdk::coord;
use crate::plugin::sdk::wire::ObjectStat;
use crate::proxy::error;
use crate::proxy::error::{ProxyError, ProxyErrorView};
use crate::status::StatusCode;
use crate::text;
use crate::text::text_of_utf8_lossy;
use vstd::prelude::*;

verus! {

/// Most bytes of an object that are collected.
pub const STORAGE_PROXY_MAX_BUFFER: usize = 268_435_456;

/// Most bytes of a part that is replayed.
pub const STORAGE_PROXY_CHUNK: usize = 4_194_304;

/// Why objects cannot be reached without a cluster.
pub open spec fn unavailable() -> ProxyErrorView {
    error::refusal(
        StatusCode::FailedPrecondition,
        "object storage proxy unavailable: agent not connected to a cluster"@,
    )
}

/// Whether objects can be reached.
pub fn check_storage(connected: bool) -> (r: Result<(), ProxyError>)
    ensures
        match r {
            Ok(_) => connected,
            Err(e) => !connected && e@ == unavailable(),
        },
{
    if connected {
        Ok(())
    } else {
        Err(
            ProxyError::refuse(
                StatusCode::FailedPrecondition,
                "object storage proxy unavailable: agent not connected to a cluster",
            ),
        )
    }
}

// ---- uploads ----

/// What an upload says of its object first.
#[derive(Debug, PartialEq, Eq)]
pub struct PutMeta {
    pub bucket: String,
    pub object_id: Vec<u8>,
    /// Length of the object; negative where it is unknown.
    pub total_size: i64,
}

/// A message of an upload.
#[derive(Debug)]
pub enum PutPart {
    Meta(PutMeta),
    Chunk(Vec<u8>),
    /// A message without content.
    Blank,
}

/// Why an upload is refused: its first message.
pub open spec fn first_refusal(first: Option<PutPart>) -> Option<ProxyErrorView> {
    match first {
        None => Some(error::refusal(StatusCode::InvalidArgument, "empty Put stream"@)),
        Some(PutPart::Meta(meta)) => if meta.bucket@.len() == 0 {
            Some(error::refusal(StatusCode::InvalidArgument, "bucket must not be empty"@))
        } else {
            None
        },
        Some(_) => Some(
            error::refusal(
                StatusCode::InvalidArgument,
                "first PutRequest message must carry meta"@,
            ),
        ),
    }
}

/// Why an upload is refused: a further message, after so many bytes.
pub open spec fn part_refusal(collected: int, part: PutPart) -> Option<ProxyErrorView> {
    match part {
        PutPart::Chunk(c) => if collected + c@.len() > STORAGE_PROXY_MAX_BUFFER {
            Some(
                error::refusal(
                    StatusCode::ResourceExhausted,
                    "object exceeds agent proxy buffer limit (256MiB)"@,
                ),
            )
        } else {
            None
        },
        PutPart::Meta(_) => Some(
            error::refusal(
                StatusCode::InvalidArgument,
                "meta must only appear as the first message"@,
            ),
        ),
        PutPart::Blank => Some(
            error::refusal(StatusCode::InvalidArgument, "empty PutRequest message"@),
        ),
    }
}

/// Why an upload is refused: at its end.
pub open spec fn end_refusal(collected: int) -> Option<ProxyErrorView> {
    if collected == 0 {
        Some(
            error::refusal(
                StatusCode::InvalidArgument,
                "object must contain at least one chunk"@,
            ),
        )
    } else {
        None
    }
}

/// An upload that is collected.
#[derive(Debug)]
pub struct Upload {
    meta: PutMeta,
    data: Vec<u8>,
}

impl Upload {
    /// What the upload says of its object.
    pub closed spec fn about(&self) -> PutMeta {
        self.meta
    }

    /// The bytes so far.
    pub closed spec fn bytes(&self) -> Seq<u8> {
        self.data@
    }

    #[verifier::type_invariant]
    closed spec fn wf(&self) -> bool {
        self.data@.len() <= STORAGE_PROXY_MAX_BUFFER
    }

    /// An upload after its first message.
    pub fn begin(first: Option<PutPart>) -> (r: Result<Self, ProxyError>)
        ensures
            match r {
                Ok(u) => first_refusal(first) is None && first == Some(PutPart::Meta(u.about()))
                    && u.bytes() == Seq::<u8>::empty(),
                Err(e) => first_refusal(first) == Some(e@),
            },
    {
        match first {
            None => Err(ProxyError::refuse(StatusCode::InvalidArgument, "empty Put stream")),
            Some(PutPart::Meta(meta)) => {
                if meta.bucket.as_str().unicode_len() == 0 {
                    Err(ProxyError::refuse(StatusCode::InvalidArgument, "bucket must not be empty"))
                } else {
                    let u = Upload { meta, data: Vec::new() };
                    assert(u.bytes() =~= Seq::<u8>::empty());
                    Ok(u)
                }
            },
            Some(_) => Err(
                ProxyError::refuse(
                    StatusCode::InvalidArgument,
                    "first PutRequest message must carry meta",
                ),
            ),
        }
    }

    /// The upload after a further message.
    pub fn collect(self, part: PutPart) -> (r: Result<Self, ProxyError>)
        ensures
            match r {
                Ok(u) => part_refusal(self.bytes().len() as int, part) is None && u.about()
                    == self.about() && (part matches PutPart::Chunk(c) && u.bytes() == self.bytes()
                    + c@),
                Err(e) => part_refusal(self.bytes().len() as int, part) == Some(e@),
            },
    {
        proof {
            use_type_invariant(&self);
        }
        match part {
            PutPart::Chunk(c) => {
                if c.len() > STORAGE_PROXY_MAX_BUFFER - self.data.len() {
                    return Err(
                        ProxyError::refuse(
                            StatusCode::ResourceExhausted,
                            "object exceeds agent proxy buffer limit (256MiB)",
                        ),
                    );
                }
                let Upload { meta, mut data } = self;
                let ghost before = data@;
                data.extend_from_slice(c.as_slice());
                assert(data@ =~= before + c@);
                Ok(Upload { meta, data })
            },
            PutPart::Meta(_) => Err(
                ProxyError::refuse(
                    StatusCode::InvalidArgument,
                    "meta must only appear as the first message",
                ),
            ),
            PutPart::Blank => Err(
                ProxyError::refuse(StatusCode::InvalidArgument, "empty PutRequest message"),
            ),
        }
    }

    /// The object at the end of the upload.
    pub fn finish(self) -> (r: Result<(PutMeta, Vec<u8>), ProxyError>)
        ensures
            match r {
                Ok((meta, data)) => end_refusal(self.bytes().len() as int) is None && meta
                    == self.about() && data@ == self.bytes(),
                Err(e) => end_refusal(self.bytes().len() as int) == Some(e@),
            },
    {
        if self.data.len() == 0 {
            Err(
                ProxyError::refuse(
                    StatusCode::InvalidArgument,
                    "object must contain at least one chunk",
                ),
            )
        } else {
            Ok((self.meta, self.data))
        }
    }
}

/// Bytes that messages carry.
pub open spec fn carried(parts: Seq<PutPart>) -> Seq<u8>
    decreases parts.len(),
{
    if parts.len() == 0 {
        Seq::empty()
    } else {
        let rest = carried(parts.drop_last());
        match parts.last() {
            PutPart::Chunk(c) => rest + c@,
            _ => rest,
        }
    }
}

/// Why messages after the first are refused, where they are: the first of them that is.
pub open spec fn parts_refusal(parts: Seq<PutPart>) -> Option<ProxyErrorView>
    decreases parts.len(),
{
    if parts.len() == 0 {
        None
    } else {
        match parts_refusal(parts.drop_last()) {
            Some(e) => Some(e),
            None => part_refusal(carried(parts.drop_last()).len() as int, parts.last()),
        }
    }
}

/// An upload is taken exactly where all further messages are chunks and together they fit; then
/// nothing of them is lost.
pub proof fn law_uploads_are_taken_whole_or_not(parts: Seq<PutPart>)
    ensures
        parts_refusal(parts) is None <==> (forall|i: int|
            0 <= i < parts.len() ==> #[trigger] parts[i] is Chunk) && carried(parts).len()
            <= STORAGE_PROXY_MAX_BUFFER,
    decreases parts.len(),
{
    if parts.len() > 0 {
        let init = parts.drop_last();
        law_uploads_are_taken_whole_or_not(init);
        if forall|i: int| 0 <= i < parts.len() ==> #[trigger] parts[i] is Chunk {
            assert forall|i: int| 0 <= i < init.len() implies #[trigger] init[i] is Chunk by {
                assert(parts[i] is Chunk);
            }
            assert(parts[parts.len() - 1] is Chunk);
        }
        if parts_refusal(parts) is None {
            assert forall|i: int| 0 <= i < parts.len() implies #[trigger] parts[i] is Chunk by {
                if i < init.len() {
                    assert(init[i] is Chunk);
                }
            }
        }
    }
}

/// Room for an object's bytes, before they arrive: the declared length, as far as it is taken.
pub fn upload_room(total_size: i64) -> (r: usize)
    ensures
        r == if total_size <= 0 {
            0
        } else if total_size <= STORAGE_PROXY_MAX_BUFFER {
            total_size as int
        } else {
            STORAGE_PROXY_MAX_BUFFER as int
        },
{
    if total_size <= 0 {
        0
    } else if total_size <= STORAGE_PROXY_MAX_BUFFER as i64 {
        total_size as usize
    } else {
        STORAGE_PROXY_MAX_BUFFER
    }
}

/// What an upload is answered.
pub fn put_object_answer(done: Result<(u64, u64, u64), CoreError>) -> (r: Result<ObjectPutOut, ProxyError>)
    ensures
        error::answer_view(r) == match done {
            Ok((revision, size, chunks)) => Ok(
                ObjectPutOutView {
                    revision: revision as i64,
                    size: size as i64,
                    chunks: chunks as i64,
                },
            ),
            Err(e) => Err(error::cluster_failure(e)),
        },
{
    match done {
        Ok((revision, size, chunks)) => Ok(
            ObjectPutOut { revision: revision as i64, size: size as i64, chunks: chunks as i64 },
        ),
        Err(e) => Err(ProxyError::of_cluster(&e)),
    }
}

// ---- downloads ----

/// The parts in which bytes are replayed: full ones, and a last one with the rest.
pub open spec fn replay_parts(data: Seq<u8>) -> Seq<Seq<u8>>
    decreases data.len(),
{
    if data.len() == 0 {
        Seq::empty()
    } else if data.len() <= STORAGE_PROXY_CHUNK {
        seq![data]
    } else {
        seq![data.take(STORAGE_PROXY_CHUNK as int)] + replay_parts(
            data.skip(STORAGE_PROXY_CHUNK as int),
        )
    }
}

/// The parts in which bytes are replayed.
pub fn replay(data: Vec<u8>) -> (r: Vec<Vec<u8>>)
    ensures
        crate::proxy::kv::bytes_views(r@) == replay_parts(data@),
{
    let mut out: Vec<Vec<u8>> = Vec::new();
    let mut left = data;
    let ghost want = replay_parts(data@);
    assert(want =~= crate::proxy::kv::bytes_views(out@) + replay_parts(left@));
    while left.len() > STORAGE_PROXY_CHUNK
        invariant
            want == crate::proxy::kv::bytes_views(out@) + replay_parts(left@),
        decreases left@.len(),
    {
        let ghost before = out@;
        let ghost all = left@;
        let rest = left.split_off(STORAGE_PROXY_CHUNK);
        assert(left@ =~= all.take(STORAGE_PROXY_CHUNK as int));
        assert(rest@ =~= all.skip(STORAGE_PROXY_CHUNK as int));
        out.push(left);
        assert(crate::proxy::kv::bytes_views(out@) =~= crate::proxy::kv::bytes_views(before).push(
            all.take(STORAGE_PROXY_CHUNK as int),
        ));
        left = rest;
        assert(want =~= crate::proxy::kv::bytes_views(out@) + replay_parts(left@));
    }
    if left.len() > 0 {
        let ghost before = out@;
        let ghost tail = left@;
        out.push(left);
        assert(crate::proxy::kv::bytes_views(out@) =~= crate::proxy::kv::bytes_views(before).push(
            tail,
        ));
    }
    assert(crate::proxy::kv::bytes_views(out@) =~= want);
    out
}

/// A replayed object is the object: its parts in a row are its bytes, none is empty and none is
/// too large.
pub proof fn law_replay_gives_back_the_object(data: Seq<u8>)
    ensures
        coord::concatenated(replay_parts(data)) == data,
        forall|i: int|
            0 <= i < replay_parts(data).len() ==> 0 < (#[trigger] replay_parts(data)[i]).len()
                <= STORAGE_PROXY_CHUNK,
    decreases data.len(),
{
    let parts = replay_parts(data);
    if data.len() == 0 {
        assert(coord::concatenated(parts) =~= data);
    } else if data.len() <= STORAGE_PROXY_CHUNK {
        assert(parts.drop_last() =~= Seq::<Seq<u8>>::empty());
        assert(coord::concatenated(parts.drop_last()) =~= Seq::<u8>::empty());
        assert(parts.last() == data);
        assert(coord::concatenated(parts) =~= data);
    } else {
        let rest = data.skip(STORAGE_PROXY_CHUNK as int);
        let head = data.take(STORAGE_PROXY_CHUNK as int);
        law_replay_gives_back_the_object(rest);
        coord::lemma_concatenated_front(parts);
        assert(parts[0] == head);
        assert(parts.skip(1) =~= replay_parts(rest));
        assert(coord::concatenated(parts) =~= data);
        assert forall|i: int| 0 <= i < parts.len() implies 0 < (#[trigger] parts[i]).len()
            <= STORAGE_PROXY_CHUNK by {
            if i > 0 {
                assert(parts[i] == replay_parts(rest)[i - 1]);
            }
        }
    }
}

/// What is answered of an object.
pub fn stat_answer(
    bucket: &str,
    object_id: &[u8],
    found: Result<Option<ObjectStat>, CoreError>,
) -> (r: Result<ObjectStat, ProxyError>)
    ensures
        match (found, r) {
            (Ok(Some(stat)), Ok(answer)) => answer == stat,
            (Ok(None), Err(e)) => e@ == error::refusal(
                StatusCode::NotFound,
                "object "@ + bucket@ + "/"@ + text::utf8_lossy(object_id@) + " not found"@,
            ),
            (Err(e), Err(f)) => f@ == error::cluster_failure(e),
            _ => false,
        },
{
    match found {
        Ok(Some(stat)) => Ok(stat),
        Ok(None) => {
            let id = text_of_utf8_lossy(object_id);
            let text = crate::text::join5("object ", bucket, "/", id.as_str(), " not found");
            Err(ProxyError::refuse(StatusCode::NotFound, text.as_str()))
        },
        Err(e) => Err(ProxyError::of_cluster(&e)),
    }
}

/// What a removal is answered: whether there was an object, and the revision.
pub fn delete_object_answer(done: Result<(bool, u64), CoreError>) -> (r: Result<(bool, i64), ProxyError>)
    ensures
        match (done, r) {
            (Ok((deleted, revision)), Ok(answer)) => answer == (deleted, revision as i64),
            (Err(e), Err(f)) => f@ == error::cluster_failure(e),
            _ => false,
        },
{
    match done {
        Ok((deleted, revision)) => Ok((deleted, revision as i64)),
        Err(e) => Err(ProxyError::of_cluster(&e)),
    }
}

} // verus!
