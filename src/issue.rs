use std::collections::hash_map::DefaultHasher;
use std::hash::Hasher;
use vstd::prelude::*;
use vstd::std_specs::hash::DefaultHasherAdditionalSpecFns;
use vstd::utf8::{encode_utf8, encode_utf8_decode_utf8};

verus! {

/// A comment attached to an issue: who wrote it and what it says.
#[derive(Clone, Debug)]
pub struct SearchableComment {
    pub author: String,
    pub content: String,
}

/// Abstract value of a comment: its author and its text.
pub type CommentView = (Seq<char>, Seq<char>);

impl View for SearchableComment {
    type V = CommentView;

    open spec fn view(&self) -> CommentView {
        (self.author@, self.content@)
    }
}

/// An issue as it is indexed: identity, text, and its comments in order.
///
/// `number` is the issue's number within its repository (used to fetch its
/// comments); `last_update_at` is the upstream update time in microseconds
/// since the Unix epoch.
#[derive(Clone, Debug)]
pub struct SearchableIssue {
    pub id: u64,
    pub number: u64,
    pub title: String,
    pub body: String,
    pub comments: Vec<SearchableComment>,
    pub last_update_at: i64,
}

/// Abstract value of an issue.
pub struct IssueView {
    pub id: u64,
    pub number: u64,
    pub title: Seq<char>,
    pub body: Seq<char>,
    pub comments: Seq<CommentView>,
    pub last_update_at: i64,
}

impl View for SearchableIssue {
    type V = IssueView;

    open spec fn view(&self) -> IssueView {
        IssueView {
            id: self.id,
            number: self.number,
            title: self.title@,
            body: self.body@,
            comments: self.comments@.map_values(|c: SearchableComment| c@),
            last_update_at: self.last_update_at,
        }
    }
}

impl SearchableComment {
    pub fn new(author: String, content: String) -> (r: Self)
        ensures
            r@ == (author@, content@),
    {
        SearchableComment { author, content }
    }

    /// A copy of this comment with the same value.
    pub fn duplicate(&self) -> (r: Self)
        ensures
            r@ == self@,
    {
        SearchableComment { author: self.author.clone(), content: self.content.clone() }
    }
}

impl SearchableIssue {
    /// An issue as listed on a page: no comments attached yet.
    pub fn new(id: u64, number: u64, title: String, body: String, last_update_at: i64) -> (r: Self)
        ensures
            r@ == (IssueView {
                id,
                number,
                title: title@,
                body: body@,
                comments: Seq::empty(),
                last_update_at,
            }),
    {
        let r = SearchableIssue { id, number, title, body, comments: Vec::new(), last_update_at };
        assert(r@.comments =~= Seq::empty());
        r
    }

    /// Replaces the comments of this issue by `comments`, keeping their order.
    pub fn with_comments(self, comments: Vec<SearchableComment>) -> (r: Self)
        ensures
            r@ == (IssueView { comments: comments@.map_values(|c: SearchableComment| c@), ..self@ }),
    {
        SearchableIssue { comments, ..self }
    }

    /// A copy of this issue with the same value.
    pub fn duplicate(&self) -> (r: Self)
        ensures
            r@ == self@,
    {
        let mut comments: Vec<SearchableComment> = Vec::new();
        let mut i: usize = 0;
        while i < self.comments.len()
            invariant
                i <= self.comments@.len(),
                comments@.len() == i,
                forall|j: int| 0 <= j < i ==> #[trigger] comments@[j]@ == self.comments@[j]@,
            decreases self.comments@.len() - i,
        {
            comments.push(self.comments[i].duplicate());
            i = i + 1;
        }
        let r = SearchableIssue {
            id: self.id,
            number: self.number,
            title: self.title.clone(),
            body: self.body.clone(),
            comments,
            last_update_at: self.last_update_at,
        };
        assert(r@.comments =~= self@.comments);
        r
    }
}

/// The texts that make up an issue's content, in order: title, body, then
/// the author and text of each comment.
pub open spec fn content_texts(title: Seq<char>, body: Seq<char>, comments: Seq<CommentView>) -> Seq<
    Seq<char>,
> {
    seq![title, body] + comment_texts(comments)
}

/// Author and text of each comment, flattened in order.
pub open spec fn comment_texts(comments: Seq<CommentView>) -> Seq<Seq<char>>
    decreases comments.len(),
{
    if comments.len() == 0 {
        Seq::empty()
    } else {
        let last = comments.last();
        comment_texts(comments.drop_last()) + seq![last.0, last.1]
    }
}

/// Byte that never occurs in UTF-8 text; it closes each text fed to the hasher.
pub const TEXT_END: u8 = 0xff;

/// The writes made to the hasher for a sequence of texts: each text's UTF-8
/// bytes, followed by a single end marker.
pub open spec fn hash_writes(texts: Seq<Seq<char>>) -> Seq<Seq<u8>>
    decreases texts.len(),
{
    if texts.len() == 0 {
        Seq::empty()
    } else {
        hash_writes(texts.drop_last()).push(encode_utf8(texts.last())).push(seq![TEXT_END])
    }
}

/// Fingerprint of an issue's observable content.
pub open spec fn fingerprint_of(v: IssueView) -> u64 {
    DefaultHasher::spec_finish(hash_writes(content_texts(v.title, v.body, v.comments)))
}

fn write_text(hasher: &mut DefaultHasher, text: &String)
    ensures
        final(hasher)@ == old(hasher)@.push(encode_utf8(text@)).push(seq![TEXT_END]),
{
    hasher.write(text.as_str().as_bytes());
    let end: [u8; 1] = [TEXT_END];
    hasher.write(end.as_slice());
    assert(end@ =~= seq![TEXT_END]);
}

/// Computes a stable fingerprint of the issue's title, body and comments in
/// order. The id, number and update time do not take part.
pub fn fingerprint(issue: &SearchableIssue) -> (r: u64)
    ensures
        r == fingerprint_of(issue@),
{
    let mut hasher = DefaultHasher::new();
    write_text(&mut hasher, &issue.title);
    write_text(&mut hasher, &issue.body);
    let ghost head: Seq<Seq<char>> = seq![issue.title@, issue.body@];
    assert(head.drop_last() =~= seq![issue.title@]);
    assert(head.drop_last().drop_last() =~= Seq::<Seq<char>>::empty());
    assert(hash_writes(head.drop_last()) == hash_writes(Seq::<Seq<char>>::empty()).push(
        encode_utf8(issue.title@),
    ).push(seq![TEXT_END]));
    assert(hasher@ == hash_writes(head));
    let ghost cs = issue@.comments;
    let mut i: usize = 0;
    while i < issue.comments.len()
        invariant
            i <= cs.len(),
            cs == issue@.comments,
            cs.len() == issue.comments@.len(),
            hasher@ == hash_writes(head + comment_texts(cs.take(i as int))),
        decreases cs.len() - i,
    {
        let c = &issue.comments[i];
        let ghost before = head + comment_texts(cs.take(i as int));
        write_text(&mut hasher, &c.author);
        write_text(&mut hasher, &c.content);
        proof {
            let t = cs.take(i as int + 1);
            assert(t.drop_last() =~= cs.take(i as int));
            assert(t.last() == c@);
            let after = head + comment_texts(t);
            assert(after =~= before.push(c.author@).push(c.content@));
            assert(after.drop_last() =~= before.push(c.author@));
            assert(after.drop_last().drop_last() =~= before);
            assert(hash_writes(after.drop_last()) == hash_writes(before).push(
                encode_utf8(c.author@),
            ).push(seq![TEXT_END]));
            assert(hash_writes(after) == hash_writes(after.drop_last()).push(
                encode_utf8(c.content@),
            ).push(seq![TEXT_END]));
        }
        i = i + 1;
    }
    assert(cs.take(cs.len() as int) =~= cs);
    hasher.finish()
}

/// Two issues with the same title, body and comments in the same order have
/// the same fingerprint, whatever their ids, numbers or update times.
pub proof fn lemma_fingerprint_deterministic(a: IssueView, b: IssueView)
    requires
        a.title == b.title,
        a.body == b.body,
        a.comments == b.comments,
    ensures
        fingerprint_of(a) == fingerprint_of(b),
{
}

proof fn lemma_hash_writes_len(texts: Seq<Seq<char>>)
    ensures
        hash_writes(texts).len() == 2 * texts.len(),
    decreases texts.len(),
{
    if texts.len() > 0 {
        lemma_hash_writes_len(texts.drop_last());
    }
}

proof fn lemma_hash_writes_injective(xs: Seq<Seq<char>>, ys: Seq<Seq<char>>)
    requires
        hash_writes(xs) == hash_writes(ys),
    ensures
        xs == ys,
    decreases xs.len(),
{
    lemma_hash_writes_len(xs);
    lemma_hash_writes_len(ys);
    if xs.len() > 0 {
        let hx = hash_writes(xs);
        let px = hash_writes(xs.drop_last());
        let py = hash_writes(ys.drop_last());
        assert(hx.drop_last().drop_last() =~= px);
        assert(hash_writes(ys).drop_last().drop_last() =~= py);
        lemma_hash_writes_injective(xs.drop_last(), ys.drop_last());
        assert(hx[hx.len() - 2] == encode_utf8(xs.last()));
        assert(hx[hx.len() - 2] == encode_utf8(ys.last()));
        encode_utf8_decode_utf8(xs.last());
        encode_utf8_decode_utf8(ys.last());
        assert(xs =~= xs.drop_last().push(xs.last()));
        assert(ys =~= ys.drop_last().push(ys.last()));
    } else {
        assert(xs =~= ys);
    }
}

proof fn lemma_comment_texts_len(cs: Seq<CommentView>)
    ensures
        comment_texts(cs).len() == 2 * cs.len(),
    decreases cs.len(),
{
    if cs.len() > 0 {
        lemma_comment_texts_len(cs.drop_last());
    }
}

proof fn lemma_comment_texts_injective(a: Seq<CommentView>, b: Seq<CommentView>)
    requires
        comment_texts(a) == comment_texts(b),
    ensures
        a == b,
    decreases a.len(),
{
    lemma_comment_texts_len(a);
    lemma_comment_texts_len(b);
    if a.len() > 0 {
        let ta = comment_texts(a);
        let n = ta.len();
        lemma_comment_texts_len(a.drop_last());
        lemma_comment_texts_len(b.drop_last());
        assert(ta.take(n - 2) =~= comment_texts(a.drop_last()));
        assert(comment_texts(b).take(n - 2) =~= comment_texts(b.drop_last()));
        lemma_comment_texts_injective(a.drop_last(), b.drop_last());
        assert(ta[n - 2] == a.last().0 && ta[n - 1] == a.last().1);
        assert(comment_texts(b)[n - 2] == b.last().0 && comment_texts(b)[n - 1] == b.last().1);
        assert(a =~= a.drop_last().push(a.last()));
        assert(b =~= b.drop_last().push(b.last()));
    } else {
        assert(a =~= b);
    }
}

/// Issues whose comments differ, in content or only in order, feed different
/// writes to the hasher. Whether the final 64-bit fingerprints also differ
/// depends on the hash function, which may collide.
pub proof fn lemma_comment_change_reaches_hasher(a: IssueView, b: IssueView)
    requires
        a.comments != b.comments,
    ensures
        hash_writes(content_texts(a.title, a.body, a.comments)) != hash_writes(
            content_texts(b.title, b.body, b.comments),
        ),
{
    let xa = content_texts(a.title, a.body, a.comments);
    let xb = content_texts(b.title, b.body, b.comments);
    if hash_writes(xa) == hash_writes(xb) {
        lemma_hash_writes_injective(xa, xb);
        assert(xa.subrange(2, xa.len() as int) =~= comment_texts(a.comments));
        assert(xb.subrange(2, xb.len() as int) =~= comment_texts(b.comments));
        lemma_comment_texts_injective(a.comments, b.comments);
    }
}

} // verus!
