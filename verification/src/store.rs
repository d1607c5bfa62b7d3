use vstd::prelude::*;
use crate::errors::RequestError;

verus! {

/// One article row: a generated id, title and body text, and the recency
/// ("bump") timestamp the listing orders by.
pub struct Article {
    pub id: i64,
    pub title: String,
    pub body: String,
    pub bump_time: i64,
}

/// One media row: the owning article and the public retrieval path.
pub struct MediaRow {
    pub article_id: i64,
    pub path: String,
}

/// One comment row: the owning article and the comment text.
pub struct CommentRow {
    pub article_id: i64,
    pub text: String,
}

/// One listing entry: id and title only; body and media are fetched lazily.
pub struct ArticleSummary {
    pub id: i64,
    pub title: String,
}

/// The persistence layer's state: article, media and comment rows in
/// insertion order, and the next article id to generate.
pub struct Store {
    pub articles: Vec<Article>,
    pub media: Vec<MediaRow>,
    pub comments: Vec<CommentRow>,
    pub next_id: i64,
}

/// The public paths of the media rows owned by `id`, in insertion order.
pub open spec fn paths_for(rows: Seq<MediaRow>, id: i64) -> Seq<Seq<char>>
    decreases rows.len(),
{
    if rows.len() == 0 {
        Seq::empty()
    } else if rows.last().article_id == id {
        paths_for(rows.drop_last(), id).push(rows.last().path@)
    } else {
        paths_for(rows.drop_last(), id)
    }
}

/// The texts of the comment rows owned by `id`, in insertion order.
pub open spec fn texts_for(rows: Seq<CommentRow>, id: i64) -> Seq<Seq<char>>
    decreases rows.len(),
{
    if rows.len() == 0 {
        Seq::empty()
    } else if rows.last().article_id == id {
        texts_for(rows.drop_last(), id).push(rows.last().text@)
    } else {
        texts_for(rows.drop_last(), id)
    }
}

/// Appending a media row extends exactly its own article's paths.
pub proof fn lemma_paths_for_push(rows: Seq<MediaRow>, row: MediaRow, id: i64)
    ensures
        paths_for(rows.push(row), id) == if row.article_id == id {
            paths_for(rows, id).push(row.path@)
        } else {
            paths_for(rows, id)
        },
{
    assert(rows.push(row).drop_last() =~= rows);
    assert(rows.push(row).last() == row);
}

/// Appending a comment row extends exactly its own article's comments.
pub proof fn lemma_texts_for_push(rows: Seq<CommentRow>, row: CommentRow, id: i64)
    ensures
        texts_for(rows.push(row), id) == if row.article_id == id {
            texts_for(rows, id).push(row.text@)
        } else {
            texts_for(rows, id)
        },
{
    assert(rows.push(row).drop_last() =~= rows);
    assert(rows.push(row).last() == row);
}

/// Media rows that all belong to other articles contribute no path to `id`.
pub proof fn lemma_paths_for_absent(rows: Seq<MediaRow>, id: i64)
    requires
        forall|i: int| 0 <= i < rows.len() ==> rows[i].article_id != id,
    ensures
        paths_for(rows, id) =~= Seq::<Seq<char>>::empty(),
    decreases rows.len(),
{
    if rows.len() > 0 {
        lemma_paths_for_absent(rows.drop_last(), id);
    }
}

impl Store {
    /// Well-formedness: article ids are unique and below the id generator,
    /// and every media and comment row references an existing article.
    pub open spec fn wf(self) -> bool {
        &&& forall|i: int, j: int|
            0 <= i < j < self.articles@.len() ==> self.articles@[i].id != self.articles@[j].id
        &&& forall|i: int| 0 <= i < self.articles@.len() ==> self.articles@[i].id < self.next_id
        &&& forall|i: int|
            0 <= i < self.media@.len() ==> self.spec_has_article(self.media@[i].article_id)
        &&& forall|i: int|
            0 <= i < self.comments@.len() ==> self.spec_has_article(self.comments@[i].article_id)
    }

    /// Whether an article row with this id exists.
    pub open spec fn spec_has_article(self, id: i64) -> bool {
        exists|i: int| 0 <= i < self.articles@.len() && self.articles@[i].id == id
    }

    /// The index of the article row with this id.
    pub open spec fn article_index(self, id: i64) -> int {
        choose|i: int| 0 <= i < self.articles@.len() && self.articles@[i].id == id
    }

    /// The article row with this id.
    pub open spec fn article_at(self, id: i64) -> Article {
        self.articles@[self.article_index(id)]
    }

    /// The public media paths of this article, in insertion order.
    pub open spec fn media_paths_of(self, id: i64) -> Seq<Seq<char>> {
        paths_for(self.media@, id)
    }

    /// The comment texts of this article, in insertion order.
    pub open spec fn comments_of(self, id: i64) -> Seq<Seq<char>> {
        texts_for(self.comments@, id)
    }

    /// In a well-formed store, the article id found at `i` identifies exactly
    /// that row.
    pub proof fn lemma_article_at(self, id: i64, i: int)
        requires
            self.wf(),
            0 <= i < self.articles@.len(),
            self.articles@[i].id == id,
        ensures
            self.spec_has_article(id),
            self.article_index(id) == i,
            self.article_at(id) == self.articles@[i],
    {
        assert(self.spec_has_article(id));
        let j = self.article_index(id);
        assert(0 <= j < self.articles@.len() && self.articles@[j].id == id);
        if i != j {
            assert(self.articles@[i].id != self.articles@[j].id);
        }
    }

    /// An empty board; ids start at 1.
    pub fn new() -> (s: Store)
        ensures
            s.wf(),
            s.articles@ =~= Seq::<Article>::empty(),
            s.media@ =~= Seq::<MediaRow>::empty(),
            s.comments@ =~= Seq::<CommentRow>::empty(),
            s.next_id == 1,
    {
        Store { articles: Vec::new(), media: Vec::new(), comments: Vec::new(), next_id: 1 }
    }

    /// The index of the article row with this id, if any.
    fn find_article(&self, id: i64) -> (r: Option<usize>)
        ensures
            r is Some <==> self.spec_has_article(id),
            r matches Some(i) ==> 0 <= i < self.articles@.len() && self.articles@[i as int].id
                == id,
    {
        let mut i: usize = 0;
        while i < self.articles.len()
            invariant
                i <= self.articles@.len(),
                forall|k: int| 0 <= k < i ==> self.articles@[k].id != id,
            decreases self.articles@.len() - i,
        {
            if self.articles[i].id == id {
                return Some(i);
            }
            i = i + 1;
        }
        None
    }

    /// Whether an article with this id exists.
    pub fn has_article(&self, id: i64) -> (r: bool)
        ensures
            r == self.spec_has_article(id),
    {
        self.find_article(id).is_some()
    }

    /// Inserts one article row with the given title, body and initial bump
    /// time, and returns its freshly generated id. Existing rows are
    /// untouched; the new article owns no media and no comments yet.
    pub fn create_article(&mut self, title: String, body: String, bump_time: i64) -> (id: i64)
        requires
            old(self).wf(),
            old(self).next_id < i64::MAX,
        ensures
            final(self).wf(),
            id == old(self).next_id,
            !old(self).spec_has_article(id),
            final(self).next_id == id + 1,
            final(self).articles@ =~= old(self).articles@.push(
                (Article { id: id, title: title, body: body, bump_time: bump_time }),
            ),
            final(self).media@ == old(self).media@,
            final(self).comments@ == old(self).comments@,
            final(self).spec_has_article(id),
            final(self).article_at(id) == (Article {
                id: id,
                title: title,
                body: body,
                bump_time: bump_time,
            }),
            final(self).media_paths_of(id) =~= Seq::<Seq<char>>::empty(),
            forall|a: i64|
                a != id ==> (final(self).spec_has_article(a) <==> old(self).spec_has_article(a)),
            forall|a: i64|
                a != id && old(self).spec_has_article(a) ==> final(self).article_at(a) == old(
                    self,
                ).article_at(a),
            forall|a: i64| final(self).media_paths_of(a) == old(self).media_paths_of(a),
            forall|a: i64| final(self).comments_of(a) == old(self).comments_of(a),
    {
        let id = self.next_id;
        let ghost pre = *self;
        self.next_id = self.next_id + 1;
        self.articles.push(Article { id, title, body, bump_time });
        proof {
            let n = pre.articles@.len() as int;
            assert(self.articles@[n].id == id);
            assert(forall|i: int| 0 <= i < n ==> self.articles@[i] == pre.articles@[i]);
            self.lemma_article_at(id, n);
            assert forall|a: i64| a != id && pre.spec_has_article(a) implies self.article_at(a)
                == pre.article_at(a) by {
                let i = choose|i: int| 0 <= i < pre.articles@.len() && pre.articles@[i].id == a;
                pre.lemma_article_at(a, i);
                self.lemma_article_at(a, i);
            }
            assert forall|a: i64| a != id && self.spec_has_article(a) implies pre.spec_has_article(
                a,
            ) by {
                let i = choose|i: int| 0 <= i < self.articles@.len() && self.articles@[i].id == a;
                assert(i != n);
                assert(pre.articles@[i].id == a);
            }
            assert forall|i: int| 0 <= i < self.media@.len() implies self.spec_has_article(
                self.media@[i].article_id,
            ) by {
                assert(pre.spec_has_article(pre.media@[i].article_id));
            }
            assert forall|i: int| 0 <= i < self.comments@.len() implies self.spec_has_article(
                self.comments@[i].article_id,
            ) by {
                assert(pre.spec_has_article(pre.comments@[i].article_id));
            }
            assert forall|i: int| 0 <= i < pre.media@.len() implies pre.media@[i].article_id
                != id by {
                let k = choose|k: int|
                    0 <= k < pre.articles@.len() && pre.articles@[k].id == pre.media@[i].article_id;
            }
            lemma_paths_for_absent(self.media@, id);
        }
        id
    }

    /// Inserts one media row for an existing article; a row that references
    /// no article is refused, as the database's foreign key would refuse it.
    pub fn add_media(&mut self, article_id: i64, path: String) -> (r: Result<(), RequestError>)
        requires
            old(self).wf(),
        ensures
            final(self).wf(),
            r is Ok <==> old(self).spec_has_article(article_id),
            r is Err ==> *final(self) == *old(self) && r == Err::<(), RequestError>(
                RequestError::PersistenceError,
            ),
            r is Ok ==> {
                &&& final(self).media@ =~= old(self).media@.push(
                    (MediaRow { article_id: article_id, path: path }),
                )
                &&& final(self).articles@ == old(self).articles@
                &&& final(self).comments@ == old(self).comments@
                &&& final(self).next_id == old(self).next_id
                &&& final(self).media_paths_of(article_id) =~= old(self).media_paths_of(
                    article_id,
                ).push(path@)
                &&& forall|a: i64|
                    a != article_id ==> final(self).media_paths_of(a) == old(self).media_paths_of(a)
                &&& forall|a: i64| final(self).comments_of(a) == old(self).comments_of(a)
                &&& forall|a: i64|
                    final(self).spec_has_article(a) <==> old(self).spec_has_article(a)
                &&& forall|a: i64|
                    old(self).spec_has_article(a) ==> final(self).article_at(a) == old(
                        self,
                    ).article_at(a)
            },
    {
        if !self.has_article(article_id) {
            return Err(RequestError::PersistenceError);
        }
        let ghost pre = *self;
        self.media.push(MediaRow { article_id, path });
        proof {
            assert forall|a: i64| self.media_paths_of(a) == if a == article_id {
                pre.media_paths_of(a).push(path@)
            } else {
                pre.media_paths_of(a)
            } by {
                lemma_paths_for_push(pre.media@, (MediaRow { article_id, path }), a);
                assert(self.media@ =~= pre.media@.push((MediaRow { article_id, path })));
            }
            assert(self.articles@ == pre.articles@);
            assert forall|b: i64| self.spec_has_article(b) <==> pre.spec_has_article(b) by {}
            assert forall|i: int| 0 <= i < self.media@.len() implies self.spec_has_article(
                self.media@[i].article_id,
            ) by {
                if i < pre.media@.len() {
                    assert(self.media@[i] == pre.media@[i]);
                    assert(pre.spec_has_article(pre.media@[i].article_id));
                } else {
                    assert(self.media@[i].article_id == article_id);
                    assert(pre.spec_has_article(article_id));
                }
            }
            assert forall|i: int| 0 <= i < self.comments@.len() implies self.spec_has_article(
                self.comments@[i].article_id,
            ) by {
                assert(pre.spec_has_article(pre.comments@[i].article_id));
            }
        }
        Ok(())
    }

    /// Inserts one comment row for an existing article, then updates that
    /// article's bump time to `now` — unless the stored bump time is already
    /// later, so the bump time never moves backwards, whatever the clock
    /// supplied. No other row is touched: each article's bump time reflects
    /// only comments addressed to it.
    pub fn add_comment(&mut self, article_id: i64, text: String, now: i64) -> (r: Result<
        (),
        RequestError,
    >)
        requires
            old(self).wf(),
        ensures
            final(self).wf(),
            r is Ok <==> old(self).spec_has_article(article_id),
            r is Err ==> *final(self) == *old(self) && r == Err::<(), RequestError>(
                RequestError::PersistenceError,
            ),
            r is Ok ==> comment_post(*old(self), *final(self), article_id, text@, now),
    {
        let found = self.find_article(article_id);
        match found {
            None => Err(RequestError::PersistenceError),
            Some(j) => {
                let ghost pre = *self;
                self.comments.push(CommentRow { article_id, text });
                let mut a = self.articles.remove(j);
                if now > a.bump_time {
                    a.bump_time = now;
                }
                self.articles.insert(j, a);
                proof {
                    let mid = Article {
                        id: pre.articles@[j as int].id,
                        title: pre.articles@[j as int].title,
                        body: pre.articles@[j as int].body,
                        bump_time: bumped_time(pre.articles@[j as int].bump_time, now),
                    };
                    assert(self.articles@ =~= pre.articles@.update(j as int, mid));
                    assert(self.articles@[j as int] == mid);
                    assert(forall|i: int|
                        0 <= i < self.articles@.len() ==> self.articles@[i].id == pre.articles@[i].id);
                    assert forall|b: i64| self.spec_has_article(b) <==> pre.spec_has_article(
                        b,
                    ) by {
                        if self.spec_has_article(b) {
                            let i = choose|i: int|
                                0 <= i < self.articles@.len() && self.articles@[i].id == b;
                            assert(pre.articles@[i].id == b);
                        }
                        if pre.spec_has_article(b) {
                            let i = choose|i: int|
                                0 <= i < pre.articles@.len() && pre.articles@[i].id == b;
                            assert(self.articles@[i].id == b);
                        }
                    }
                    assert forall|i: int| 0 <= i < self.media@.len() implies self.spec_has_article(
                        self.media@[i].article_id,
                    ) by {
                        assert(pre.spec_has_article(pre.media@[i].article_id));
                    }
                    assert forall|i: int|
                        0 <= i < self.comments@.len() implies self.spec_has_article(
                        self.comments@[i].article_id,
                    ) by {
                        if i < pre.comments@.len() {
                            assert(pre.spec_has_article(pre.comments@[i].article_id));
                            assert(self.comments@[i] == pre.comments@[i]);
                        } else {
                            assert(self.comments@[i].article_id == article_id);
                        }
                    }
                    assert(self.wf());
                    self.lemma_article_at(article_id, j as int);
                    pre.lemma_article_at(article_id, j as int);
                    lemma_texts_for_push(pre.comments@, (CommentRow { article_id, text }), article_id);
                    assert(self.comments@ =~= pre.comments@.push((CommentRow { article_id, text })));
                    assert forall|b: i64| b != article_id implies self.comments_of(b)
                        == pre.comments_of(b) by {
                        lemma_texts_for_push(pre.comments@, (CommentRow { article_id, text }), b);
                    }
                    assert forall|b: i64|
                        b != article_id && pre.spec_has_article(b) implies self.article_at(b)
                        == pre.article_at(b) by {
                        let i = choose|i: int|
                            0 <= i < pre.articles@.len() && pre.articles@[i].id == b;
                        pre.lemma_article_at(b, i);
                        assert(i != j as int);
                        assert(self.articles@[i] == pre.articles@[i]);
                        self.lemma_article_at(b, i);
                    }
                }
                Ok(())
            },
        }
    }

    /// Fetches one article's full detail by id.
    pub fn get_article(&self, id: i64) -> (r: Option<Article>)
        requires
            self.wf(),
        ensures
            r is Some <==> self.spec_has_article(id),
            r matches Some(a) ==> a.id == id && a.title@ == self.article_at(id).title@ && a.body@
                == self.article_at(id).body@ && a.bump_time == self.article_at(id).bump_time,
    {
        match self.find_article(id) {
            None => None,
            Some(j) => {
                let a = &self.articles[j];
                proof {
                    self.lemma_article_at(id, j as int);
                }
                Some(
                    Article {
                        id: a.id,
                        title: a.title.clone(),
                        body: a.body.clone(),
                        bump_time: a.bump_time,
                    },
                )
            },
        }
    }

    /// The public media paths of one article, in insertion order.
    pub fn get_media(&self, article_id: i64) -> (r: Vec<String>)
        ensures
            r.deep_view() == self.media_paths_of(article_id),
    {
        let mut r: Vec<String> = Vec::new();
        let mut i: usize = 0;
        while i < self.media.len()
            invariant
                i <= self.media@.len(),
                r.deep_view() == paths_for(self.media@.take(i as int), article_id),
            decreases self.media@.len() - i,
        {
            let ghost prefix = self.media@.take(i as int);
            if self.media[i].article_id == article_id {
                r.push(self.media[i].path.clone());
            }
            proof {
                assert(self.media@.take(i + 1 as int).drop_last() =~= prefix);
                assert(self.media@.take(i + 1 as int).last() == self.media@[i as int]);
                if self.media@[i as int].article_id == article_id {
                    assert(r.deep_view() =~= paths_for(prefix, article_id).push(
                        self.media@[i as int].path@,
                    ));
                } else {
                    assert(r.deep_view() =~= paths_for(prefix, article_id));
                }
            }
            i = i + 1;
        }
        proof {
            assert(self.media@.take(self.media@.len() as int) =~= self.media@);
        }
        r
    }

    /// The comment texts of one article, in insertion order.
    pub fn get_comments(&self, article_id: i64) -> (r: Vec<String>)
        ensures
            r.deep_view() == self.comments_of(article_id),
    {
        let mut r: Vec<String> = Vec::new();
        let mut i: usize = 0;
        while i < self.comments.len()
            invariant
                i <= self.comments@.len(),
                r.deep_view() == texts_for(self.comments@.take(i as int), article_id),
            decreases self.comments@.len() - i,
        {
            let ghost prefix = self.comments@.take(i as int);
            if self.comments[i].article_id == article_id {
                r.push(self.comments[i].text.clone());
            }
            proof {
                assert(self.comments@.take(i + 1 as int).drop_last() =~= prefix);
                assert(self.comments@.take(i + 1 as int).last() == self.comments@[i as int]);
                if self.comments@[i as int].article_id == article_id {
                    assert(r.deep_view() =~= texts_for(prefix, article_id).push(
                        self.comments@[i as int].text@,
                    ));
                } else {
                    assert(r.deep_view() =~= texts_for(prefix, article_id));
                }
            }
            i = i + 1;
        }
        proof {
            assert(self.comments@.take(self.comments@.len() as int) =~= self.comments@);
        }
        r
    }
}

/// A listing is correct for a board when it carries each stored article's id
/// and title exactly once and descends by bump time.
pub open spec fn listing_of(s: Store, r: Seq<ArticleSummary>) -> bool {
    &&& r.len() == s.articles@.len()
    &&& forall|k: int| 0 <= k < r.len() ==> s.spec_has_article(#[trigger] r[k].id)
    &&& forall|k: int|
        0 <= k < r.len() ==> (#[trigger] r[k]).title@ == s.article_at(r[k].id).title@
    &&& forall|k1: int, k2: int| 0 <= k1 < k2 < r.len() ==> r[k1].id != r[k2].id
    &&& forall|k1: int, k2: int|
        0 <= k1 < k2 < r.len() ==> s.article_at(r[k1].id).bump_time >= s.article_at(
            r[k2].id,
        ).bump_time
}

impl Store {
    /// Returns every article's id and title, ordered by descending bump time:
    /// the most recently created or commented articles come first.
    pub fn list_articles(&self) -> (r: Vec<ArticleSummary>)
        requires
            self.wf(),
        ensures
            listing_of(*self, r@),
    {
        let mut work: Vec<(i64, i64, String)> = Vec::new();
        let ghost mut src: Seq<int> = Seq::empty();
        let mut i: usize = 0;
        while i < self.articles.len()
            invariant
                self.wf(),
                i <= self.articles@.len(),
                work@.len() == i,
                src.len() == work@.len(),
                forall|k: int| 0 <= k < work@.len() ==> 0 <= #[trigger] src[k] < i,
                forall|k: int|
                    0 <= k < work@.len() ==> (#[trigger] work@[k]).0 == self.articles@[src[k]].bump_time
                        && work@[k].1 == self.articles@[src[k]].id && work@[k].2@
                        == self.articles@[src[k]].title@,
                forall|k1: int, k2: int| 0 <= k1 < k2 < work@.len() ==> src[k1] != src[k2],
                forall|k1: int, k2: int|
                    0 <= k1 < k2 < work@.len() ==> work@[k1].0 >= work@[k2].0,
            decreases self.articles@.len() - i,
        {
            let bump = self.articles[i].bump_time;
            let mut pos: usize = 0;
            while pos < work.len() && work[pos].0 >= bump
                invariant
                    pos <= work@.len(),
                    forall|k: int| 0 <= k < pos ==> work@[k].0 >= bump,
                decreases work@.len() - pos,
            {
                pos = pos + 1;
            }
            proof {
                assert(forall|k: int|
                    pos < k < work@.len() ==> work@[k as int].0 <= work@[pos as int].0);
            }
            let ghost prev = work@;
            let ghost prev_src = src;
            work.insert(pos, (bump, self.articles[i].id, self.articles[i].title.clone()));
            proof {
                src = src.insert(pos as int, i as int);
                prev.insert_ensures(pos as int, work@[pos as int]);
                prev_src.insert_ensures(pos as int, i as int);
                assert(work@ == prev.insert(pos as int, work@[pos as int]));
                assert(work@[pos as int].1 == self.articles@[i as int].id);
                assert(work@[pos as int].2@ == self.articles@[i as int].title@);
                assert forall|k1: int, k2: int|
                    0 <= k1 < k2 < work@.len() implies src[k1] != src[k2] && work@[k1].0
                    >= work@[k2].0 by {
                    let a1 = if k1 < pos { k1 } else { k1 - 1 };
                    let a2 = if k2 < pos { k2 } else { k2 - 1 };
                    if k1 != pos && k2 != pos {
                        assert(work@[k1] == prev[a1] && work@[k2] == prev[a2]);
                        assert(src[k1] == prev_src[a1] && src[k2] == prev_src[a2]);
                    }
                }
            }
            i = i + 1;
        }
        let mut r: Vec<ArticleSummary> = Vec::new();
        let mut k: usize = 0;
        while k < work.len()
            invariant
                self.wf(),
                work@.len() == self.articles@.len(),
                src.len() == work@.len(),
                forall|m: int| 0 <= m < work@.len() ==> 0 <= #[trigger] src[m] < work@.len(),
                forall|m: int|
                    0 <= m < work@.len() ==> (#[trigger] work@[m]).0 == self.articles@[src[m]].bump_time
                        && work@[m].1 == self.articles@[src[m]].id && work@[m].2@
                        == self.articles@[src[m]].title@,
                forall|k1: int, k2: int| 0 <= k1 < k2 < work@.len() ==> src[k1] != src[k2],
                forall|k1: int, k2: int|
                    0 <= k1 < k2 < work@.len() ==> work@[k1].0 >= work@[k2].0,
                k <= work@.len(),
                r@.len() == k,
                forall|m: int|
                    0 <= m < k ==> (#[trigger] r@[m]).id == work@[m].1 && r@[m].title@
                        == work@[m].2@,
            decreases work@.len() - k,
        {
            r.push(ArticleSummary { id: work[k].1, title: work[k].2.clone() });
            k = k + 1;
        }
        proof {
            assert forall|m: int|
                0 <= m < r@.len() implies self.spec_has_article((#[trigger] r@[m]).id)
                && r@[m].title@ == self.article_at(r@[m].id).title@
                && self.article_at(r@[m].id).bump_time == work@[m].0 by {
                self.lemma_article_at(work@[m].1, src[m]);
            }
            assert forall|k1: int, k2: int|
                0 <= k1 < k2 < r@.len() implies r@[k1].id != r@[k2].id by {
                assert(self.articles@[src[k1]].id == r@[k1].id);
                assert(self.articles@[src[k2]].id == r@[k2].id);
                if src[k1] < src[k2] {
                    assert(self.articles@[src[k1]].id != self.articles@[src[k2]].id);
                } else {
                    assert(self.articles@[src[k2]].id != self.articles@[src[k1]].id);
                }
            }
        }
        r
    }
}

/// The listing law: an article whose bump time is strictly greater than
/// another's stands strictly earlier in the listing. Bumping an article with
/// a comment therefore moves it ahead of every less recently active one.
pub proof fn lemma_listing_puts_recent_first(s: Store, r: Seq<ArticleSummary>, k1: int, k2: int)
    requires
        listing_of(s, r),
        0 <= k1 < r.len(),
        0 <= k2 < r.len(),
        s.article_at(r[k1].id).bump_time > s.article_at(r[k2].id).bump_time,
    ensures
        k1 < k2,
{
    if k2 < k1 {
        assert(s.article_at(r[k2].id).bump_time >= s.article_at(r[k1].id).bump_time);
    }
}

/// The bump time after a comment at clock reading `now`: the reading, unless
/// the stored bump time is already later — a backwards clock step never moves
/// an article's bump time backwards.
pub open spec fn bumped_time(stored: i64, now: i64) -> i64 {
    if now >= stored {
        now
    } else {
        stored
    }
}

/// What one comment insertion does to the board: the text is appended to the
/// addressed article's comments (and to the board's comment rows), that
/// article's bump time becomes the comment's time, never moving backwards,
/// and nothing else changes — in particular no other article's bump time
/// moves.
pub open spec fn comment_post(
    pre: Store,
    post: Store,
    article_id: i64,
    text: Seq<char>,
    now: i64,
) -> bool {
    &&& post.wf()
    &&& pre.spec_has_article(article_id)
    &&& post.spec_has_article(article_id)
    &&& post.comments_of(article_id) == pre.comments_of(article_id).push(text)
    &&& post.comments@.len() == pre.comments@.len() + 1
    &&& forall|i: int| 0 <= i < pre.comments@.len() ==> post.comments@[i] == pre.comments@[i]
    &&& post.comments@.last().article_id == article_id
    &&& post.comments@.last().text@ == text
    &&& post.article_at(article_id).bump_time == bumped_time(
        pre.article_at(article_id).bump_time,
        now,
    )
    &&& post.article_at(article_id).id == article_id
    &&& post.article_at(article_id).title == pre.article_at(article_id).title
    &&& post.article_at(article_id).body == pre.article_at(article_id).body
    &&& forall|a: i64| post.spec_has_article(a) <==> pre.spec_has_article(a)
    &&& forall|a: i64|
        a != article_id && pre.spec_has_article(a) ==> post.article_at(a) == pre.article_at(a)
    &&& forall|a: i64| a != article_id ==> post.comments_of(a) == pre.comments_of(a)
    &&& forall|a: i64| post.media_paths_of(a) == pre.media_paths_of(a)
    &&& post.media@ == pre.media@
    &&& post.next_id == pre.next_id
}

/// An article's bump time never decreases: whatever reading the clock
/// supplies for a comment, the bump time moves forward or stays.
pub proof fn lemma_bump_time_monotone(
    pre: Store,
    post: Store,
    article_id: i64,
    text: Seq<char>,
    now: i64,
)
    requires
        comment_post(pre, post, article_id, text, now),
    ensures
        post.article_at(article_id).bump_time >= pre.article_at(article_id).bump_time,
{
}

/// Comments addressed to two different articles never interleave their bump
/// updates incorrectly: after one comment on each, whichever order they were
/// inserted in, each article's bump time is the one its own comment produced
/// and each article's comment list gained exactly its own text.
pub proof fn lemma_comments_do_not_interfere(
    s0: Store,
    s1: Store,
    s2: Store,
    a: i64,
    b: i64,
    ta: Seq<char>,
    tb: Seq<char>,
    na: i64,
    nb: i64,
)
    requires
        a != b,
        comment_post(s0, s1, a, ta, na),
        comment_post(s1, s2, b, tb, nb),
    ensures
        s2.article_at(a).bump_time == bumped_time(s0.article_at(a).bump_time, na),
        s2.article_at(b).bump_time == bumped_time(s0.article_at(b).bump_time, nb),
        s2.comments_of(a) == s0.comments_of(a).push(ta),
        s2.comments_of(b) == s0.comments_of(b).push(tb),
{
    assert(s1.spec_has_article(a));
    assert(s1.spec_has_article(b));
    assert(s2.article_at(a) == s1.article_at(a));
    assert(s1.article_at(b) == s0.article_at(b));
}

impl Store {
    /// Inserts a comment and bumps the addressed article to the clock's
    /// current reading, as the comment endpoint does. Whatever the clock
    /// returned, the insertion obeys the comment rules for that reading.
    pub fn add_comment_now(&mut self, article_id: i64, text: String) -> (r: Result<
        (),
        RequestError,
    >)
        requires
            old(self).wf(),
        ensures
            final(self).wf(),
            r is Ok <==> old(self).spec_has_article(article_id),
            r is Err ==> *final(self) == *old(self) && r == Err::<(), RequestError>(
                RequestError::PersistenceError,
            ),
            r is Ok ==> exists|now: i64|
                comment_post(*old(self), *final(self), article_id, text@, now),
    {
        let now = crate::clock::now_seconds();
        self.add_comment(article_id, text, now)
    }
}

} // verus!
