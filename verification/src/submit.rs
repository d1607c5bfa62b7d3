use vstd::prelude::*;
use vstd::string::StringExecFns;
use crate::errors::RequestError;
use crate::paths::{
    confined_under, public_media_path, public_media_path_spec, storage_file_path,
    storage_file_path_spec, storage_prefix,
};
use crate::store::Store;
use crate::text::{append_chunk, text_field_value, text_value};

verus! {

/// One decoded form part: the declared field name, the client filename (for
/// file fields), and the part's body as an ordered sequence of byte chunks.
pub struct Part {
    pub name: String,
    pub filename: Option<String>,
    pub chunks: Vec<Vec<u8>>,
}

/// How a part is routed, by its declared field name.
#[derive(Clone, Copy, Debug, PartialEq, Eq, Structural)]
pub enum FieldClass {
    TitleField,
    BodyField,
    MediaField,
    IgnoredField,
}

/// What the driver of a submission must do with the part that just started:
/// nothing (the coordinator accumulates text itself), create the named file
/// and write the part's chunks to it, or skip the part.
pub enum PartAction {
    AccumulateText,
    CreateFile(String),
    Skip,
}

/// The routing rule: `title` and `body` accumulate as text, `media` streams
/// to a file, any other field name is ignored.
pub open spec fn classify_spec(name: Seq<char>) -> FieldClass {
    if name == "title"@ {
        FieldClass::TitleField
    } else if name == "body"@ {
        FieldClass::BodyField
    } else if name == "media"@ {
        FieldClass::MediaField
    } else {
        FieldClass::IgnoredField
    }
}

/// Classifies one field by its declared name.
pub fn classify_field(name: &String) -> (c: FieldClass)
    ensures
        c == classify_spec(name@),
{
    let t = String::from_str("title");
    let b = String::from_str("body");
    let m = String::from_str("media");
    if name.eq(&t) {
        FieldClass::TitleField
    } else if name.eq(&b) {
        FieldClass::BodyField
    } else if name.eq(&m) {
        FieldClass::MediaField
    } else {
        FieldClass::IgnoredField
    }
}

/// Drives one submission request: parts are announced one at a time, their
/// chunks are fed in order, and `finish` validates the result and persists
/// it. Text accumulates in memory; media bytes are routed to the driver,
/// which writes them to the file named by the returned action, so memory use
/// stays bounded by one chunk.
pub struct Coordinator {
    pub title_bytes: Vec<u8>,
    pub body_bytes: Vec<u8>,
    pub media_paths: Vec<String>,
    pub current: FieldClass,
}

/// What one accepted submission does to the board: one article row is created
/// with the decoded title and body and bump time `now`, its media rows are
/// exactly the collected paths in submission order, and nothing else changes.
pub open spec fn submit_post(
    pre: Store,
    post: Store,
    title: Seq<char>,
    body: Seq<char>,
    media: Seq<Seq<char>>,
    now: i64,
    id: i64,
) -> bool {
    &&& post.wf()
    &&& id == pre.next_id
    &&& post.next_id == pre.next_id + 1
    &&& !pre.spec_has_article(id)
    &&& post.spec_has_article(id)
    &&& post.article_at(id).id == id
    &&& post.article_at(id).title@ == title
    &&& post.article_at(id).body@ == body
    &&& post.article_at(id).bump_time == now
    &&& post.media_paths_of(id) == media
    &&& post.comments@ == pre.comments@
    &&& forall|a: i64| a != id ==> (post.spec_has_article(a) <==> pre.spec_has_article(a))
    &&& forall|a: i64|
        a != id && pre.spec_has_article(a) ==> post.article_at(a) == pre.article_at(a)
    &&& forall|a: i64| a != id ==> post.media_paths_of(a) == pre.media_paths_of(a)
    &&& forall|a: i64| post.comments_of(a) == pre.comments_of(a)
}

impl Coordinator {
    /// A coordinator for a fresh request: nothing accumulated, no part open.
    pub fn new() -> (c: Coordinator)
        ensures
            c.title_bytes@ == Seq::<u8>::empty(),
            c.body_bytes@ == Seq::<u8>::empty(),
            c.media_paths.deep_view() =~= Seq::<Seq<char>>::empty(),
            c.media_paths@.len() == 0,
            c.current == FieldClass::IgnoredField,
    {
        Coordinator {
            title_bytes: Vec::new(),
            body_bytes: Vec::new(),
            media_paths: Vec::new(),
            current: FieldClass::IgnoredField,
        }
    }

    /// Opens the next part. A `title` or `body` part resets its accumulator
    /// (a later part of the same name overwrites an earlier one); a `media`
    /// part with a client filename records the public path derived from it
    /// and tells the driver which confined file path to create; a `media`
    /// part without a filename and any unknown field are skipped.
    pub fn start_part(&mut self, name: &String, filename: Option<&String>) -> (act: PartAction)
        ensures
            classify_spec(name@) == FieldClass::TitleField ==> {
                &&& final(self).current == FieldClass::TitleField
                &&& final(self).title_bytes@ == Seq::<u8>::empty()
                &&& final(self).body_bytes == old(self).body_bytes
                &&& final(self).media_paths == old(self).media_paths
                &&& act is AccumulateText
            },
            classify_spec(name@) == FieldClass::BodyField ==> {
                &&& final(self).current == FieldClass::BodyField
                &&& final(self).body_bytes@ == Seq::<u8>::empty()
                &&& final(self).title_bytes == old(self).title_bytes
                &&& final(self).media_paths == old(self).media_paths
                &&& act is AccumulateText
            },
            classify_spec(name@) == FieldClass::MediaField && filename is Some ==> {
                &&& final(self).current == FieldClass::MediaField
                &&& final(self).title_bytes == old(self).title_bytes
                &&& final(self).body_bytes == old(self).body_bytes
                &&& final(self).media_paths.deep_view() == old(self).media_paths.deep_view().push(
                    public_media_path_spec(filename->0@),
                )
                &&& final(self).media_paths@.len() == old(self).media_paths@.len() + 1
                &&& (act matches PartAction::CreateFile(p) && p@ == storage_file_path_spec(
                    filename->0@,
                ) && confined_under(p@, storage_prefix()))
            },
            classify_spec(name@) == FieldClass::MediaField && filename is None ==> {
                &&& *final(self) == (Coordinator {
                    current: FieldClass::IgnoredField,
                    ..*old(self)
                })
                &&& act is Skip
            },
            classify_spec(name@) == FieldClass::IgnoredField ==> {
                &&& *final(self) == (Coordinator {
                    current: FieldClass::IgnoredField,
                    ..*old(self)
                })
                &&& act is Skip
            },
    {
        let c = classify_field(name);
        match c {
            FieldClass::TitleField => {
                self.title_bytes = Vec::new();
                self.current = FieldClass::TitleField;
                PartAction::AccumulateText
            },
            FieldClass::BodyField => {
                self.body_bytes = Vec::new();
                self.current = FieldClass::BodyField;
                PartAction::AccumulateText
            },
            FieldClass::MediaField => {
                match filename {
                    Some(f) => {
                        let ghost pre = *self;
                        let fs_path = storage_file_path(f.as_str());
                        let public_path = public_media_path(f.as_str());
                        self.media_paths.push(public_path);
                        self.current = FieldClass::MediaField;
                        proof {
                            assert(self.media_paths.deep_view() =~= pre.media_paths.deep_view().push(
                                public_media_path_spec(f@),
                            ));
                        }
                        PartAction::CreateFile(fs_path)
                    },
                    None => {
                        self.current = FieldClass::IgnoredField;
                        PartAction::Skip
                    },
                }
            },
            FieldClass::IgnoredField => {
                self.current = FieldClass::IgnoredField;
                PartAction::Skip
            },
        }
    }

    /// Feeds one chunk of the open part. Text chunks accumulate; for a media
    /// part the returned flag tells the driver to write the chunk to the
    /// file it opened; skipped parts discard their chunks.
    pub fn chunk(&mut self, data: &[u8]) -> (write: bool)
        ensures
            final(self).current == old(self).current,
            final(self).media_paths == old(self).media_paths,
            old(self).current == FieldClass::TitleField ==> final(self).title_bytes@ == old(
                self,
            ).title_bytes@ + data@ && final(self).body_bytes == old(self).body_bytes && !write,
            old(self).current == FieldClass::BodyField ==> final(self).body_bytes@ == old(
                self,
            ).body_bytes@ + data@ && final(self).title_bytes == old(self).title_bytes && !write,
            old(self).current == FieldClass::MediaField ==> *final(self) == *old(self) && write,
            old(self).current == FieldClass::IgnoredField ==> *final(self) == *old(self) && !write,
    {
        match self.current {
            FieldClass::TitleField => {
                append_chunk(&mut self.title_bytes, data);
                false
            },
            FieldClass::BodyField => {
                append_chunk(&mut self.body_bytes, data);
                false
            },
            FieldClass::MediaField => true,
            FieldClass::IgnoredField => false,
        }
    }

    /// Ends the request: a submission without any accepted media part is
    /// rejected before any persistence; otherwise the article row is created
    /// with the decoded title and body, followed by one media row per
    /// collected path, in submission order.
    pub fn finish(self, board: &mut Store, now: i64) -> (r: Result<i64, RequestError>)
        requires
            old(board).wf(),
            self.media_paths@.len() > 0 ==> old(board).next_id < i64::MAX,
        ensures
            final(board).wf(),
            self.media_paths@.len() == 0 ==> r == Err::<i64, RequestError>(
                RequestError::ValidationError,
            ) && *final(board) == *old(board),
            self.media_paths@.len() > 0 ==> (r matches Ok(id) && submit_post(
                *old(board),
                *final(board),
                text_value(self.title_bytes@),
                text_value(self.body_bytes@),
                self.media_paths.deep_view(),
                now,
                id,
            )),
    {
        if self.media_paths.len() == 0 {
            return Err(RequestError::ValidationError);
        }
        let title = text_field_value(&self.title_bytes);
        let body = text_field_value(&self.body_bytes);
        let id = board.create_article(title, body, now);
        let paths = self.media_paths;
        let ghost all = paths.deep_view();
        let mut k: usize = 0;
        while k < paths.len()
            invariant
                board.wf(),
                k <= paths@.len(),
                all == paths.deep_view(),
                board.spec_has_article(id),
                board.article_at(id).id == id,
                board.article_at(id).title@ == text_value(self.title_bytes@),
                board.article_at(id).body@ == text_value(self.body_bytes@),
                board.article_at(id).bump_time == now,
                id == old(board).next_id,
                board.next_id == id + 1,
                !old(board).spec_has_article(id),
                board.media_paths_of(id) == all.take(k as int),
                board.comments@ == old(board).comments@,
                forall|a: i64|
                    a != id ==> (board.spec_has_article(a) <==> old(board).spec_has_article(a)),
                forall|a: i64|
                    a != id && old(board).spec_has_article(a) ==> board.article_at(a) == old(
                        board,
                    ).article_at(a),
                forall|a: i64| a != id ==> board.media_paths_of(a) == old(board).media_paths_of(a),
                forall|a: i64| board.comments_of(a) == old(board).comments_of(a),
            decreases paths@.len() - k,
        {
            let res = board.add_media(id, paths[k].clone());
            if res.is_err() {
                proof {
                    assert(false);
                }
                return Err(RequestError::PersistenceError);
            }
            proof {
                assert(all.take((k + 1) as int) =~= all.take(k as int).push(paths@[k as int]@));
            }
            k = k + 1;
        }
        proof {
            assert(all.take(paths@.len() as int) =~= all);
        }
        Ok(id)
    }
}

/// The bytes of a part: its chunks concatenated in order.
pub open spec fn chunks_bytes(chunks: Seq<Seq<u8>>) -> Seq<u8>
    decreases chunks.len(),
{
    if chunks.len() == 0 {
        Seq::empty()
    } else {
        chunks_bytes(chunks.drop_last()) + chunks.last()
    }
}

/// The accumulated bytes of one part.
pub open spec fn part_bytes(p: Part) -> Seq<u8> {
    chunks_bytes(p.chunks.deep_view())
}

/// The title bytes a sequence of parts decodes to: the bytes of the last
/// `title` part, a later one overwriting an earlier one; empty without one.
pub open spec fn decoded_title(parts: Seq<Part>) -> Seq<u8>
    decreases parts.len(),
{
    if parts.len() == 0 {
        Seq::empty()
    } else if classify_spec(parts.last().name@) == FieldClass::TitleField {
        part_bytes(parts.last())
    } else {
        decoded_title(parts.drop_last())
    }
}

/// The body bytes a sequence of parts decodes to, as for the title.
pub open spec fn decoded_body(parts: Seq<Part>) -> Seq<u8>
    decreases parts.len(),
{
    if parts.len() == 0 {
        Seq::empty()
    } else if classify_spec(parts.last().name@) == FieldClass::BodyField {
        part_bytes(parts.last())
    } else {
        decoded_body(parts.drop_last())
    }
}

/// Whether a part is an accepted media part: a `media` field carrying a
/// client filename.
pub open spec fn is_media_part(p: Part) -> bool {
    classify_spec(p.name@) == FieldClass::MediaField && p.filename is Some
}

/// The public media paths a sequence of parts yields: one per accepted media
/// part, in submission order, each derived from that part's client filename.
pub open spec fn media_paths_spec(parts: Seq<Part>) -> Seq<Seq<char>>
    decreases parts.len(),
{
    if parts.len() == 0 {
        Seq::empty()
    } else if is_media_part(parts.last()) {
        media_paths_spec(parts.drop_last()).push(
            public_media_path_spec(parts.last().filename->0@),
        )
    } else {
        media_paths_spec(parts.drop_last())
    }
}

/// Parts without any accepted media part yield no media path.
pub proof fn lemma_no_media_paths(parts: Seq<Part>)
    requires
        forall|i: int| 0 <= i < parts.len() ==> !is_media_part(#[trigger] parts[i]),
    ensures
        media_paths_spec(parts) =~= Seq::<Seq<char>>::empty(),
    decreases parts.len(),
{
    if parts.len() > 0 {
        lemma_no_media_paths(parts.drop_last());
    }
}

/// Parts with exactly one accepted media part yield exactly one media path:
/// the one derived from that part's client filename.
pub proof fn lemma_single_media_path(parts: Seq<Part>, m: int)
    requires
        0 <= m < parts.len(),
        is_media_part(parts[m]),
        forall|i: int| 0 <= i < parts.len() && i != m ==> !is_media_part(#[trigger] parts[i]),
    ensures
        media_paths_spec(parts) =~= seq![public_media_path_spec(parts[m].filename->0@)],
    decreases parts.len(),
{
    if m == parts.len() - 1 {
        assert(forall|i: int|
            0 <= i < parts.drop_last().len() ==> !is_media_part(#[trigger] parts.drop_last()[i]));
        lemma_no_media_paths(parts.drop_last());
    } else {
        assert(forall|i: int|
            0 <= i < parts.drop_last().len() && i != m ==> !is_media_part(
                #[trigger] parts.drop_last()[i],
            ));
        lemma_single_media_path(parts.drop_last(), m);
    }
}

/// Round trip: after a submission whose only accepted media part carries a
/// given client filename, the new article's stored title and body are the
/// decoded submitted texts and its media rows are exactly one path, derived
/// deterministically from that filename's sanitized form under the public
/// upload prefix.
pub proof fn lemma_submission_round_trip(
    pre: Store,
    post: Store,
    parts: Seq<Part>,
    now: i64,
    id: i64,
    m: int,
)
    requires
        submit_post(
            pre,
            post,
            text_value(decoded_title(parts)),
            text_value(decoded_body(parts)),
            media_paths_spec(parts),
            now,
            id,
        ),
        0 <= m < parts.len(),
        is_media_part(parts[m]),
        forall|i: int| 0 <= i < parts.len() && i != m ==> !is_media_part(#[trigger] parts[i]),
    ensures
        post.article_at(id).title@ == text_value(decoded_title(parts)),
        post.article_at(id).body@ == text_value(decoded_body(parts)),
        post.media_paths_of(id) =~= seq![public_media_path_spec(parts[m].filename->0@)],
{
    lemma_single_media_path(parts, m);
}

/// Runs one whole submission over already-delivered parts: every part is
/// routed by its field name, then the result is validated and persisted. A
/// submission without an accepted media part is rejected with a validation
/// error and the board is left untouched; otherwise one article is created
/// whose media rows are exactly the paths of the accepted media parts, in
/// submission order.
pub fn submit_article_at(board: &mut Store, parts: &Vec<Part>, now: i64) -> (r: Result<
    i64,
    RequestError,
>)
    requires
        old(board).wf(),
        media_paths_spec(parts@).len() > 0 ==> old(board).next_id < i64::MAX,
    ensures
        final(board).wf(),
        media_paths_spec(parts@).len() == 0 ==> r == Err::<i64, RequestError>(
            RequestError::ValidationError,
        ) && *final(board) == *old(board),
        media_paths_spec(parts@).len() > 0 ==> (r matches Ok(id) && submit_post(
            *old(board),
            *final(board),
            text_value(decoded_title(parts@)),
            text_value(decoded_body(parts@)),
            media_paths_spec(parts@),
            now,
            id,
        )),
{
    let mut c = Coordinator::new();
    let mut i: usize = 0;
    proof {
        assert(parts@.take(0int) =~= Seq::<Part>::empty());
    }
    while i < parts.len()
        invariant
            old(board).wf(),
            media_paths_spec(parts@).len() > 0 ==> old(board).next_id < i64::MAX,
            *board == *old(board),
            i <= parts@.len(),
            c.title_bytes@ == decoded_title(parts@.take(i as int)),
            c.body_bytes@ == decoded_body(parts@.take(i as int)),
            c.media_paths.deep_view() == media_paths_spec(parts@.take(i as int)),
        decreases parts@.len() - i,
    {
        let p = &parts[i];
        let act = c.start_part(&p.name, p.filename.as_ref());
        let ghost c0 = c;
        let mut j: usize = 0;
        proof {
            assert(p.chunks.deep_view().take(0int) =~= Seq::<Seq<u8>>::empty());
        }
        while j < p.chunks.len()
            invariant
                j <= p.chunks@.len(),
                c.current == c0.current,
                c.media_paths == c0.media_paths,
                c0.current == FieldClass::TitleField ==> c.title_bytes@ == chunks_bytes(
                    p.chunks.deep_view().take(j as int),
                ) && c.body_bytes == c0.body_bytes && c0.title_bytes@ == Seq::<u8>::empty(),
                c0.current == FieldClass::BodyField ==> c.body_bytes@ == chunks_bytes(
                    p.chunks.deep_view().take(j as int),
                ) && c.title_bytes == c0.title_bytes && c0.body_bytes@ == Seq::<u8>::empty(),
                c0.current == FieldClass::MediaField ==> c == c0,
                c0.current == FieldClass::IgnoredField ==> c == c0,
            decreases p.chunks@.len() - j,
        {
            let ghost taken = p.chunks.deep_view().take(j as int);
            let _ = c.chunk(p.chunks[j].as_slice());
            proof {
                assert(p.chunks.deep_view().take((j + 1) as int).drop_last() =~= taken);
                assert(p.chunks.deep_view().take((j + 1) as int).last() == p.chunks@[j as int]@);
            }
            j = j + 1;
        }
        proof {
            assert(p.chunks.deep_view().take(p.chunks@.len() as int) =~= p.chunks.deep_view());
            assert(parts@.take((i + 1) as int).drop_last() =~= parts@.take(i as int));
            assert(parts@.take((i + 1) as int).last() == parts@[i as int]);
        }
        i = i + 1;
    }
    proof {
        assert(parts@.take(parts@.len() as int) =~= parts@);
    }
    c.finish(board, now)
}

/// Runs one whole submission, stamping the new article with the clock's
/// current reading, as the submission endpoint does. Whatever the clock
/// returned, the submission obeys the submission rules for that reading.
pub fn submit_article(board: &mut Store, parts: &Vec<Part>) -> (r: Result<i64, RequestError>)
    requires
        old(board).wf(),
        media_paths_spec(parts@).len() > 0 ==> old(board).next_id < i64::MAX,
    ensures
        final(board).wf(),
        media_paths_spec(parts@).len() == 0 ==> r == Err::<i64, RequestError>(
            RequestError::ValidationError,
        ) && *final(board) == *old(board),
        media_paths_spec(parts@).len() > 0 ==> (r matches Ok(id) && exists|now: i64|
            submit_post(
                *old(board),
                *final(board),
                text_value(decoded_title(parts@)),
                text_value(decoded_body(parts@)),
                media_paths_spec(parts@),
                now,
                id,
            )),
{
    let now = crate::clock::now_seconds();
    submit_article_at(board, parts, now)
}

} // verus!
