//! Comment operations: adding a comment under an article, listing an
//! article's comments, and author-only deletion.

use vstd::prelude::*;

use crate::dto::{AddComment, Comment, CommentResult, CommentsResult};
use crate::seq_util::lemma_filter_take_all;
use crate::seq_util::lemma_filter_take_step;
use crate::store::{
    comment_at, comment_id_keep, find_article_by_slug, find_comment_by_id, find_user_by_id,
    has_slug, has_user_id, lemma_add_comment_wf, lemma_delete_comment_wf, profile_dto,
    profile_matches, retain_comments_by_id, same_store, CommentRecord, Store, UserRecord,
};

verus! {

/// A comment DTO shows this record's fields — creation instant standing in
/// for both timestamps — and its author's profile as `viewer` sees it.
pub open spec fn comment_matches(
    c: Comment,
    rec: CommentRecord,
    author: UserRecord,
    viewer: Option<u64>,
    follows: Seq<(u64, u64)>,
) -> bool {
    &&& author.id == rec.author_id
    &&& c.id == rec.id
    &&& c.createdAt == rec.created_at
    &&& c.updatedAt == rec.created_at
    &&& c.body@ == rec.body@
    &&& profile_matches(c.author, author, viewer, follows)
}

/// Some stored user is the comment's author and the DTO shows the comment
/// through that author's profile.
pub open spec fn comment_shown(c: Comment, rec: CommentRecord, s: Store, viewer: Option<u64>) -> bool {
    exists|j: int|
        {
            &&& 0 <= j < s.users@.len()
            &&& (#[trigger] s.users@[j]).id == rec.author_id
            &&& comment_matches(c, rec, s.users@[j], viewer, s.follows@)
        }
}

/// Build the comment DTO at `idx` as `viewer` sees it.
fn comment_dto(store: &Store, idx: usize, viewer: Option<u64>) -> (c: Comment)
    requires
        store.wf(),
        idx < store.comments@.len(),
    ensures
        comment_shown(c, store.comments@[idx as int], *store, viewer),
{
    let rec = &store.comments[idx];
    let j = match find_user_by_id(&store.users, rec.author_id) {
        Some(j) => j,
        None => {
            proof {
                assert(has_user_id(store.users@, store.comments@[idx as int].author_id));
                assert(false);
            }
            0
        },
    };
    let author = profile_dto(&store.users[j], &store.follows, viewer);
    Comment {
        id: rec.id,
        createdAt: rec.created_at,
        updatedAt: rec.created_at,
        body: rec.body.clone(),
        author,
    }
}

/// Add a comment under the article at `slug` as the authenticated author,
/// answered with the comment DTO.
pub fn add_comment_handler(
    store: &mut Store,
    slug: &String,
    comment: &AddComment,
    viewer: Option<u64>,
    now: u64,
) -> (r: Option<CommentResult>)
    requires
        old(store).wf(),
        old(store).next_comment_id < u64::MAX,
    ensures
        final(store).wf(),
        r is None <==> (viewer is None || !has_user_id(old(store).users@, viewer->0) || !has_slug(
            old(store).articles@,
            slug@,
        )),
        r is None ==> same_store(*old(store), *final(store)),
        r is Some ==> ({
            &&& final(store).comments@ == old(store).comments@.push(final(store).comments@.last())
            &&& ({
                let nc = final(store).comments@.last();
                &&& nc.id == old(store).next_comment_id
                &&& nc.author_id == viewer->0
                &&& nc.body@ == comment.comment.body@
                &&& nc.created_at == now
                &&& exists|i: int|
                    0 <= i < old(store).articles@.len() && (
                    #[trigger] old(store).articles@[i]).slug@ == slug@ && nc.article_id
                        == old(store).articles@[i].id
            })
            &&& final(store).next_comment_id == old(store).next_comment_id + 1
            &&& exists|j: int|
                {
                    &&& 0 <= j < old(store).users@.len()
                    &&& (#[trigger] old(store).users@[j]).id == viewer->0
                    &&& comment_matches(
                        r->0.comment,
                        final(store).comments@.last(),
                        old(store).users@[j],
                        viewer,
                        old(store).follows@,
                    )
                }
        }),
        final(store).users@ == old(store).users@,
        final(store).articles@ == old(store).articles@,
        final(store).follows@ == old(store).follows@,
        final(store).favorites@ == old(store).favorites@,
        final(store).tags@ == old(store).tags@,
        final(store).article_tags@ == old(store).article_tags@,
        final(store).next_user_id == old(store).next_user_id,
        final(store).next_article_id == old(store).next_article_id,
{
    let v = match viewer {
        Some(v) => v,
        None => {
            return None;
        },
    };
    if find_user_by_id(&store.users, v).is_none() {
        return None;
    }
    let i = match find_article_by_slug(&store.articles, slug) {
        Some(i) => i,
        None => {
            return None;
        },
    };
    let aid = store.articles[i].id;
    let cid = store.next_comment_id;
    let rec = CommentRecord {
        id: cid,
        article_id: aid,
        author_id: v,
        body: comment.comment.body.clone(),
        created_at: now,
    };
    store.comments.push(rec);
    store.next_comment_id = cid + 1;
    proof {
        assert(has_user_id(old(store).users@, store.comments@.last().author_id));
        assert(store.articles@[i as int].id == aid);
        lemma_add_comment_wf(*old(store), *store);
    }
    let idx = store.comments.len() - 1;
    let dto = comment_dto(store, idx, viewer);
    proof {
        assert(store.comments@[idx as int] == store.comments@.last());
    }
    Some(CommentResult { comment: dto })
}

/// List the comments under the article at `slug`, in creation order, as
/// `viewer` sees them.
pub fn get_comments_handler(store: &Store, slug: &String, viewer: Option<u64>) -> (r: Option<
    CommentsResult,
>)
    requires
        store.wf(),
    ensures
        r is None <==> !has_slug(store.articles@, slug@),
        r is Some ==> exists|i: int|
            {
                &&& 0 <= i < store.articles@.len()
                &&& (#[trigger] store.articles@[i]).slug@ == slug@
                &&& ({
                    let cs = store.comments@.filter(comment_at(store.articles@[i].id));
                    &&& r->0.comments@.len() == cs.len()
                    &&& forall|k: int|
                        0 <= k < cs.len() ==> #[trigger] comment_shown(
                            r->0.comments@[k],
                            cs[k],
                            *store,
                            viewer,
                        )
                })
            },
{
    let i = match find_article_by_slug(&store.articles, slug) {
        Some(i) => i,
        None => {
            return None;
        },
    };
    let aid = store.articles[i].id;
    let n = store.comments.len();
    let mut out: Vec<Comment> = Vec::new();
    let mut m: usize = 0;
    proof {
        assert(store.comments@.take(0).filter(comment_at(aid)) =~= Seq::<CommentRecord>::empty());
    }
    while m < n
        invariant
            store.wf(),
            n == store.comments@.len(),
            m <= n,
            out@.len() == store.comments@.take(m as int).filter(comment_at(aid)).len(),
            forall|k: int|
                0 <= k < out@.len() ==> #[trigger] comment_shown(
                    out@[k],
                    store.comments@.take(m as int).filter(comment_at(aid))[k],
                    *store,
                    viewer,
                ),
        decreases n - m,
    {
        proof {
            lemma_filter_take_step(store.comments@, comment_at(aid), m as int);
        }
        let ghost out0 = out@;
        let ghost pref = store.comments@.take(m as int).filter(comment_at(aid));
        let ghost newpref = store.comments@.take(m + 1).filter(comment_at(aid));
        if store.comments[m].article_id == aid {
            let dto = comment_dto(store, m, viewer);
            out.push(dto);
            proof {
                assert(newpref == pref.push(store.comments@[m as int]));
                assert forall|k: int| 0 <= k < out@.len() implies #[trigger] comment_shown(
                    out@[k],
                    newpref[k],
                    *store,
                    viewer,
                ) by {
                    if k < out0.len() {
                        assert(out@[k] == out0[k]);
                        assert(newpref[k] == pref[k]);
                        assert(comment_shown(out0[k], pref[k], *store, viewer));
                    } else {
                        assert(out@[k] == dto);
                        assert(newpref[k] == store.comments@[m as int]);
                    }
                }
            }
        } else {
            proof {
                assert(newpref == pref);
                assert forall|k: int| 0 <= k < out@.len() implies #[trigger] comment_shown(
                    out@[k],
                    newpref[k],
                    *store,
                    viewer,
                ) by {
                    assert(out@[k] == out0[k]);
                    assert(newpref[k] == pref[k]);
                    assert(comment_shown(out0[k], pref[k], *store, viewer));
                }
            }
        }
        m += 1;
    }
    proof {
        lemma_filter_take_all(store.comments@, comment_at(aid));
        let whole = store.comments@.filter(comment_at(aid));
        let pref = store.comments@.take(n as int).filter(comment_at(aid));
        assert(pref == whole);
        assert(store.articles@[i as int].slug@ == slug@);
        assert forall|k: int| 0 <= k < whole.len() implies #[trigger] comment_shown(
            out@[k],
            whole[k],
            *store,
            viewer,
        ) by {
            assert(comment_shown(out@[k], pref[k], *store, viewer));
        }
    }
    Some(CommentsResult { comments: out })
}

/// Delete the comment `id`: only its author may; a non-author's request
/// deletes nothing.
pub fn delete_comment_handler(store: &mut Store, id: u64, viewer: Option<u64>) -> (deleted: bool)
    requires
        old(store).wf(),
    ensures
        final(store).wf(),
        deleted <==> (viewer is Some && exists|i: int|
            0 <= i < old(store).comments@.len() && (#[trigger] old(store).comments@[i]).id == id
                && old(store).comments@[i].author_id == viewer->0),
        !deleted ==> same_store(*old(store), *final(store)),
        deleted ==> final(store).comments@ == old(store).comments@.filter(comment_id_keep(id)),
        final(store).users@ == old(store).users@,
        final(store).articles@ == old(store).articles@,
        final(store).follows@ == old(store).follows@,
        final(store).favorites@ == old(store).favorites@,
        final(store).tags@ == old(store).tags@,
        final(store).article_tags@ == old(store).article_tags@,
        final(store).next_user_id == old(store).next_user_id,
        final(store).next_article_id == old(store).next_article_id,
        final(store).next_comment_id == old(store).next_comment_id,
{
    let v = match viewer {
        Some(v) => v,
        None => {
            return false;
        },
    };
    let i = match find_comment_by_id(&store.comments, id) {
        Some(i) => i,
        None => {
            return false;
        },
    };
    if store.comments[i].author_id != v {
        proof {
            assert forall|k: int|
                0 <= k < store.comments@.len() && (#[trigger] store.comments@[k]).id == id
                    implies store.comments@[k].author_id != v by {
                if k < i as int {
                    assert(store.comments@[k].id < store.comments@[i as int].id);
                } else if (i as int) < k {
                    assert(store.comments@[i as int].id < store.comments@[k].id);
                }
            }
        }
        return false;
    }
    retain_comments_by_id(&mut store.comments, id);
    proof {
        lemma_delete_comment_wf(*old(store), *store, id);
    }
    true
}

} // verus!
