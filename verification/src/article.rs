//! Article operations: creation with lazy tag upserts, slug-keyed reads,
//! ownership-gated partial update and cascade delete, favorites, the
//! filtered listing, the follow feed and the tag index.
//!
//! Slugs come from the `slug` crate through a trusted wrapper; every rule
//! around them — uniqueness, recomputation on title change, the ownership
//! predicate baked into each mutation — is verified.

use vstd::prelude::*;

use crate::dto::{
    opt_str, Article, ArticlesResult, CreateArticle, CreateArticleResult, GetTagsResult,
    UpdateArticle,
};
use crate::user::{str_apply, supplied};
use crate::seq_util::{lemma_filter_elements, lemma_filter_take_step};
use crate::store::{
    add_edge, add_tag, add_tags, article_dto, article_matches, article_shown, at_views,
    contains_edge, find_article_by_slug, find_tag, find_user_by_id, find_user_by_username,
    has_article_id, has_article_tag, has_slug, has_tag, has_user_id, lemma_create_article_wf,
    lemma_push_preserves_has_article_id, link_tag, link_tags, remove_edge, same_store,
    spec_add_edge, spec_remove_edge, str_views, ArticleRecord, Store, UserRecord,
};

verus! {

/// The slug the `slug` crate derives from a title.
pub uninterp spec fn slug_of(title: Seq<char>) -> Seq<char>;

/// Relies on slug::slugify: the slug is a pure function of the title text —
/// lowercased, transliterated, with anything else collapsed to hyphens.
#[verifier::external_body]
fn slugify(title: &str) -> (r: String)
    ensures
        r@ == slug_of(title@),
{
    slug::slugify(title)
}

/// Why an article mutation was refused.
#[derive(Clone, Copy, Debug, PartialEq, Eq, Structural)]
pub enum ArticleError {
    /// The caller is anonymous or unknown.
    Unauthorized,
    /// No article carries this slug with the caller as its author.
    NotFound,
    /// The derived slug already belongs to another article.
    DuplicateSlug,
}

/// The views of a submitted tag list; an absent list is empty.
pub open spec fn tag_list_views(o: Option<Vec<String>>) -> Seq<Seq<char>> {
    match o {
        None => Seq::empty(),
        Some(v) => str_views(v@),
    }
}

fn has_article_tag_exec(ats: &Vec<(u64, String)>, aid: u64, name: &String) -> (r: bool)
    ensures
        r == has_article_tag(ats@, aid, name@),
{
    let n = ats.len();
    let mut i: usize = 0;
    while i < n
        invariant
            n == ats@.len(),
            i <= n,
            forall|k: int|
                0 <= k < i ==> !((#[trigger] ats@[k]).0 == aid && ats@[k].1@ == name@),
        decreases n - i,
    {
        if ats[i].0 == aid && ats[i].1 == *name {
            return true;
        }
        i += 1;
    }
    false
}

/// Create an article for the authenticated author: derive the slug from the
/// title, reject a duplicate slug, store the row under the next id, lazily
/// create and link its tags, and answer with the article DTO.
pub fn create_article_handler(
    store: &mut Store,
    art: &CreateArticle,
    author: Option<u64>,
    now: u64,
) -> (r: Result<CreateArticleResult, ArticleError>)
    requires
        old(store).wf(),
        old(store).next_article_id < u64::MAX,
    ensures
        final(store).wf(),
        match r {
            Ok(res) => {
                &&& author is Some
                &&& has_user_id(old(store).users@, author->0)
                &&& !has_slug(old(store).articles@, slug_of(art.article.title@))
                &&& final(store).articles@ == old(store).articles@.push(
                    final(store).articles@.last(),
                )
                &&& ({
                    let na = final(store).articles@.last();
                    &&& na.id == old(store).next_article_id
                    &&& na.slug@ == slug_of(art.article.title@)
                    &&& na.title@ == art.article.title@
                    &&& na.description@ == art.article.description@
                    &&& na.body@ == art.article.body@
                    &&& na.created_at == now
                    &&& na.updated_at is None
                    &&& na.author_id == author->0
                })
                &&& final(store).next_article_id == old(store).next_article_id + 1
                &&& str_views(final(store).tags@) == add_tags(
                    str_views(old(store).tags@),
                    tag_list_views(art.article.tagList),
                )
                &&& at_views(final(store).article_tags@) == link_tags(
                    at_views(old(store).article_tags@),
                    old(store).next_article_id,
                    tag_list_views(art.article.tagList),
                )
                &&& final(store).users@ == old(store).users@
                &&& final(store).comments@ == old(store).comments@
                &&& final(store).follows@ == old(store).follows@
                &&& final(store).favorites@ == old(store).favorites@
                &&& final(store).next_user_id == old(store).next_user_id
                &&& final(store).next_comment_id == old(store).next_comment_id
                &&& exists|j: int|
                    {
                        &&& 0 <= j < final(store).users@.len()
                        &&& (#[trigger] final(store).users@[j]).id == author->0
                        &&& article_matches(
                            res.article,
                            final(store).articles@.last(),
                            final(store).users@[j],
                            final(store).follows@,
                            final(store).favorites@,
                            final(store).article_tags@,
                            author,
                        )
                    }
            },
            Err(e) => {
                &&& same_store(*old(store), *final(store))
                &&& (e == ArticleError::Unauthorized || e == ArticleError::DuplicateSlug)
                &&& (e == ArticleError::Unauthorized <==> (author is None || !has_user_id(
                    old(store).users@,
                    author->0,
                )))
                &&& (e == ArticleError::DuplicateSlug <==> (author is Some && has_user_id(
                    old(store).users@,
                    author->0,
                ) && has_slug(old(store).articles@, slug_of(art.article.title@))))
            },
        },
{
    let uid = match author {
        Some(u) => u,
        None => {
            return Err(ArticleError::Unauthorized);
        },
    };
    if find_user_by_id(&store.users, uid).is_none() {
        return Err(ArticleError::Unauthorized);
    }
    let slug = slugify(art.article.title.as_str());
    if find_article_by_slug(&store.articles, &slug).is_some() {
        return Err(ArticleError::DuplicateSlug);
    }
    let aid = store.next_article_id;
    let rec = ArticleRecord {
        id: aid,
        slug,
        title: art.article.title.clone(),
        description: art.article.description.clone(),
        body: art.article.body.clone(),
        created_at: now,
        updated_at: None,
        author_id: uid,
    };
    store.articles.push(rec);
    store.next_article_id = aid + 1;
    proof {
        assert forall|k: int| 0 <= k < store.article_tags@.len() implies has_article_id(
            store.articles@,
            (#[trigger] store.article_tags@[k]).0,
        ) by {
            lemma_push_preserves_has_article_id(
                old(store).articles@,
                store.articles@.last(),
                store.article_tags@[k].0,
            );
        }
        lemma_create_article_wf(*old(store), *store);
        assert(store.articles@.last().id == aid);
    }
    let ghost s_mid = *store;
    let empty_tags: Vec<String> = Vec::new();
    let tag_list = match &art.article.tagList {
        Some(v) => v,
        None => &empty_tags,
    };
    proof {
        assert(str_views(store.tags@) =~= add_tags(
            str_views(s_mid.tags@),
            str_views(tag_list@).take(0),
        ));
        assert(at_views(store.article_tags@) =~= link_tags(
            at_views(s_mid.article_tags@),
            aid,
            str_views(tag_list@).take(0),
        ));
        if art.article.tagList is Some {
            assert(str_views(tag_list@) == tag_list_views(art.article.tagList));
        } else {
            assert(str_views(tag_list@) =~= tag_list_views(art.article.tagList));
        }
    }
    let n = tag_list.len();
    let mut i: usize = 0;
    while i < n
        invariant
            n == tag_list@.len(),
            i <= n,
            store.wf(),
            store.users@ == s_mid.users@,
            store.articles@ == s_mid.articles@,
            store.comments@ == s_mid.comments@,
            store.follows@ == s_mid.follows@,
            store.favorites@ == s_mid.favorites@,
            store.next_user_id == s_mid.next_user_id,
            store.next_article_id == s_mid.next_article_id,
            store.next_comment_id == s_mid.next_comment_id,
            str_views(store.tags@) == add_tags(
                str_views(s_mid.tags@),
                str_views(tag_list@).take(i as int),
            ),
            at_views(store.article_tags@) == link_tags(
                at_views(s_mid.article_tags@),
                aid,
                str_views(tag_list@).take(i as int),
            ),
            has_article_id(store.articles@, aid),
        decreases n - i,
    {
        let name = &tag_list[i];
        let ghost names = str_views(tag_list@);
        proof {
            assert(names.take(i + 1).drop_last() =~= names.take(i as int));
            assert(names.take(i + 1).last() == names[i as int]);
            assert(names[i as int] == tag_list@[i as int]@);
        }
        let ghost tags_before = store.tags@;
        if find_tag(&store.tags, name).is_none() {
            store.tags.push(name.clone());
            proof {
                assert(str_views(store.tags@) =~= str_views(tags_before).push(name@));
                assert(!str_views(tags_before).contains(name@)) by {
                    if str_views(tags_before).contains(name@) {
                        let k = choose|k: int|
                            0 <= k < str_views(tags_before).len() && str_views(tags_before)[k]
                                == name@;
                        assert(tags_before[k]@ == name@);
                        assert(has_tag(tags_before, name@));
                    }
                }
                assert forall|a: int, b: int|
                    0 <= a < b < store.tags@.len() implies #[trigger] store.tags@[a]@
                    != #[trigger] store.tags@[b]@ by {
                    if b == store.tags@.len() - 1 {
                        if tags_before[a]@ == name@ {
                            assert(has_tag(tags_before, name@));
                        }
                    }
                }
            }
        } else {
            proof {
                assert(str_views(tags_before).contains(name@)) by {
                    let k = choose|k: int|
                        0 <= k < tags_before.len() && #[trigger] tags_before[k]@ == name@;
                    assert(str_views(tags_before)[k] == name@);
                }
                assert(str_views(store.tags@) == add_tag(str_views(tags_before), name@));
            }
        }
        proof {
            assert(str_views(store.tags@) =~= add_tags(
                str_views(s_mid.tags@),
                names.take(i + 1),
            ));
        }
        let ghost ats_before = store.article_tags@;
        if !has_article_tag_exec(&store.article_tags, aid, name) {
            store.article_tags.push((aid, name.clone()));
            proof {
                assert(at_views(store.article_tags@) =~= at_views(ats_before).push((aid, name@)));
                assert(!at_views(ats_before).contains((aid, name@))) by {
                    if at_views(ats_before).contains((aid, name@)) {
                        let k = choose|k: int|
                            0 <= k < at_views(ats_before).len() && at_views(ats_before)[k] == (
                            aid,
                            name@,
                            );
                        assert(ats_before[k].0 == aid && ats_before[k].1@ == name@);
                        assert(has_article_tag(ats_before, aid, name@));
                    }
                }
                assert forall|a: int, b: int|
                    0 <= a < b < store.article_tags@.len() implies !((
                    #[trigger] store.article_tags@[a]).0 == (#[trigger] store.article_tags@[b]).0
                    && store.article_tags@[a].1@ == store.article_tags@[b].1@) by {
                    if b == store.article_tags@.len() - 1 {
                        if ats_before[a].0 == aid && ats_before[a].1@ == name@ {
                            assert(has_article_tag(ats_before, aid, name@));
                        }
                    }
                }
            }
        } else {
            proof {
                assert(at_views(ats_before).contains((aid, name@))) by {
                    let k = choose|k: int|
                        0 <= k < ats_before.len() && (#[trigger] ats_before[k]).0 == aid
                            && ats_before[k].1@ == name@;
                    assert(at_views(ats_before)[k] == (aid, name@));
                }
                assert(at_views(store.article_tags@) == link_tag(
                    at_views(ats_before),
                    aid,
                    name@,
                ));
            }
        }
        proof {
            assert(at_views(store.article_tags@) =~= link_tags(
                at_views(s_mid.article_tags@),
                aid,
                names.take(i + 1),
            ));
        }
        i += 1;
    }
    proof {
        assert(str_views(tag_list@).take(n as int) =~= str_views(tag_list@));
        if art.article.tagList is Some {
            assert(str_views(tag_list@) == tag_list_views(art.article.tagList));
        } else {
            assert(str_views(tag_list@) =~= tag_list_views(art.article.tagList));
        }
    }
    let idx = store.articles.len() - 1;
    let dto = article_dto(store, idx, author);
    proof {
        assert(store.articles@[idx as int] == store.articles@.last());
    }
    Ok(CreateArticleResult { article: dto })
}

/// Read one article by slug as `viewer` sees it.
pub fn get_article_handler(store: &Store, slug: &String, viewer: Option<u64>) -> (r: Option<
    CreateArticleResult,
>)
    requires
        store.wf(),
    ensures
        r is None <==> !has_slug(store.articles@, slug@),
        r is Some ==> exists|i: int, j: int|
            {
                &&& 0 <= i < store.articles@.len()
                &&& (#[trigger] store.articles@[i]).slug@ == slug@
                &&& 0 <= j < store.users@.len()
                &&& (#[trigger] store.users@[j]).id == store.articles@[i].author_id
                &&& article_matches(
                    r->0.article,
                    store.articles@[i],
                    store.users@[j],
                    store.follows@,
                    store.favorites@,
                    store.article_tags@,
                    viewer,
                )
            },
{
    let i = match find_article_by_slug(&store.articles, slug) {
        Some(i) => i,
        None => {
            return None;
        },
    };
    let dto = article_dto(store, i, viewer);
    Some(CreateArticleResult { article: dto })
}


/// Favorite the article at `slug` as `viewer`: an idempotent edge insert,
/// answered with the article now marked favorited.
pub fn favorite_article_handler(store: &mut Store, slug: &String, viewer: Option<u64>) -> (r:
    Option<CreateArticleResult>)
    requires
        old(store).wf(),
    ensures
        final(store).wf(),
        r is None <==> (viewer is None || !has_slug(old(store).articles@, slug@)),
        r is None ==> same_store(*old(store), *final(store)),
        r is Some ==> exists|i: int, j: int|
            {
                &&& 0 <= i < old(store).articles@.len()
                &&& (#[trigger] old(store).articles@[i]).slug@ == slug@
                &&& final(store).favorites@ == spec_add_edge(
                    old(store).favorites@,
                    (viewer->0, old(store).articles@[i].id),
                )
                &&& 0 <= j < old(store).users@.len()
                &&& (#[trigger] old(store).users@[j]).id == old(store).articles@[i].author_id
                &&& article_matches(
                    r->0.article,
                    old(store).articles@[i],
                    old(store).users@[j],
                    old(store).follows@,
                    final(store).favorites@,
                    old(store).article_tags@,
                    viewer,
                )
            },
        final(store).users@ == old(store).users@,
        final(store).articles@ == old(store).articles@,
        final(store).comments@ == old(store).comments@,
        final(store).follows@ == old(store).follows@,
        final(store).tags@ == old(store).tags@,
        final(store).article_tags@ == old(store).article_tags@,
        final(store).next_user_id == old(store).next_user_id,
        final(store).next_article_id == old(store).next_article_id,
        final(store).next_comment_id == old(store).next_comment_id,
{
    let v = match viewer {
        Some(v) => v,
        None => {
            return None;
        },
    };
    let i = match find_article_by_slug(&store.articles, slug) {
        Some(i) => i,
        None => {
            return None;
        },
    };
    let aid = store.articles[i].id;
    add_edge(&mut store.favorites, v, aid);
    proof {
        assert forall|k: int| 0 <= k < store.favorites@.len() implies has_article_id(
            store.articles@,
            (#[trigger] store.favorites@[k]).1,
        ) by {
            if k < old(store).favorites@.len() {
                assert(store.favorites@[k] == old(store).favorites@[k]);
            } else {
                assert(store.favorites@[k] == (v, aid));
                assert(store.articles@[i as int].id == aid);
            }
        }
    }
    let dto = article_dto(store, i, viewer);
    Some(CreateArticleResult { article: dto })
}

/// Unfavorite the article at `slug` as `viewer`: removing an absent edge is
/// a no-op, and the answer shows the article no longer favorited.
pub fn unfavorite_article_handler(store: &mut Store, slug: &String, viewer: Option<u64>) -> (r:
    Option<CreateArticleResult>)
    requires
        old(store).wf(),
    ensures
        final(store).wf(),
        r is None <==> (viewer is None || !has_slug(old(store).articles@, slug@)),
        r is None ==> same_store(*old(store), *final(store)),
        r is Some ==> exists|i: int, j: int|
            {
                &&& 0 <= i < old(store).articles@.len()
                &&& (#[trigger] old(store).articles@[i]).slug@ == slug@
                &&& final(store).favorites@ == spec_remove_edge(
                    old(store).favorites@,
                    (viewer->0, old(store).articles@[i].id),
                )
                &&& 0 <= j < old(store).users@.len()
                &&& (#[trigger] old(store).users@[j]).id == old(store).articles@[i].author_id
                &&& article_matches(
                    r->0.article,
                    old(store).articles@[i],
                    old(store).users@[j],
                    old(store).follows@,
                    final(store).favorites@,
                    old(store).article_tags@,
                    viewer,
                )
            },
        final(store).users@ == old(store).users@,
        final(store).articles@ == old(store).articles@,
        final(store).comments@ == old(store).comments@,
        final(store).follows@ == old(store).follows@,
        final(store).tags@ == old(store).tags@,
        final(store).article_tags@ == old(store).article_tags@,
        final(store).next_user_id == old(store).next_user_id,
        final(store).next_article_id == old(store).next_article_id,
        final(store).next_comment_id == old(store).next_comment_id,
{
    let v = match viewer {
        Some(v) => v,
        None => {
            return None;
        },
    };
    let i = match find_article_by_slug(&store.articles, slug) {
        Some(i) => i,
        None => {
            return None;
        },
    };
    let aid = store.articles[i].id;
    remove_edge(&mut store.favorites, v, aid);
    proof {
        lemma_filter_elements(old(store).favorites@, crate::store::edge_ne((v, aid)));
        assert forall|k: int| 0 <= k < store.favorites@.len() implies has_article_id(
            store.articles@,
            (#[trigger] store.favorites@[k]).1,
        ) by {
            assert(old(store).favorites@.contains(store.favorites@[k]));
            let m = choose|m: int|
                0 <= m < old(store).favorites@.len() && old(store).favorites@[m]
                    == store.favorites@[k];
            assert(has_article_id(store.articles@, old(store).favorites@[m].1));
        }
    }
    let dto = article_dto(store, i, viewer);
    Some(CreateArticleResult { article: dto })
}

/// Partially update the article at `slug`: only its author may, a supplied
/// non-empty field overwrites the stored column, and a supplied title
/// recomputes the slug, which must stay unique.
pub fn update_article_handler(
    store: &mut Store,
    slug: &String,
    upd: &UpdateArticle,
    viewer: Option<u64>,
    now: u64,
) -> (r: Result<CreateArticleResult, ArticleError>)
    requires
        old(store).wf(),
    ensures
        final(store).wf(),
        match r {
            Ok(res) => {
                &&& viewer is Some
                &&& exists|i: int, j: int|
                    {
                        &&& 0 <= i < old(store).articles@.len()
                        &&& (#[trigger] old(store).articles@[i]).slug@ == slug@
                        &&& old(store).articles@[i].author_id == viewer->0
                        &&& final(store).articles@ == old(store).articles@.update(
                            i,
                            final(store).articles@[i],
                        )
                        &&& ({
                            let a0 = old(store).articles@[i];
                            let a1 = final(store).articles@[i];
                            &&& a1.id == a0.id
                            &&& a1.author_id == a0.author_id
                            &&& a1.created_at == a0.created_at
                            &&& a1.title@ == str_apply(a0.title@, opt_str(upd.article.title))
                            &&& a1.description@ == str_apply(
                                a0.description@,
                                opt_str(upd.article.description),
                            )
                            &&& a1.body@ == str_apply(a0.body@, opt_str(upd.article.body))
                            &&& a1.slug@ == if supplied(opt_str(upd.article.title)) {
                                slug_of(opt_str(upd.article.title)->0)
                            } else {
                                a0.slug@
                            }
                            &&& a1.updated_at == Some(now)
                        })
                        &&& 0 <= j < old(store).users@.len()
                        &&& (#[trigger] old(store).users@[j]).id
                            == old(store).articles@[i].author_id
                        &&& article_matches(
                            res.article,
                            final(store).articles@[i],
                            old(store).users@[j],
                            old(store).follows@,
                            old(store).favorites@,
                            old(store).article_tags@,
                            viewer,
                        )
                    }
                &&& final(store).users@ == old(store).users@
                &&& final(store).comments@ == old(store).comments@
                &&& final(store).follows@ == old(store).follows@
                &&& final(store).favorites@ == old(store).favorites@
                &&& final(store).tags@ == old(store).tags@
                &&& final(store).article_tags@ == old(store).article_tags@
                &&& final(store).next_user_id == old(store).next_user_id
                &&& final(store).next_article_id == old(store).next_article_id
                &&& final(store).next_comment_id == old(store).next_comment_id
            },
            Err(e) => {
                let owned = viewer is Some && exists|i: int|
                    0 <= i < old(store).articles@.len() && (
                    #[trigger] old(store).articles@[i]).slug@ == slug@
                        && old(store).articles@[i].author_id == viewer->0;
                let dup = supplied(opt_str(upd.article.title)) && exists|k: int|
                    0 <= k < old(store).articles@.len() && (
                    #[trigger] old(store).articles@[k]).slug@ == slug_of(
                        opt_str(upd.article.title)->0,
                    ) && old(store).articles@[k].slug@ != slug@;
                &&& same_store(*old(store), *final(store))
                &&& (e == ArticleError::NotFound || e == ArticleError::DuplicateSlug)
                &&& (e == ArticleError::NotFound <==> !owned)
                &&& (e == ArticleError::DuplicateSlug <==> owned && dup)
            },
        },
{
    let v = match viewer {
        Some(v) => v,
        None => {
            return Err(ArticleError::NotFound);
        },
    };
    let i = match find_article_by_slug(&store.articles, slug) {
        Some(i) => i,
        None => {
            return Err(ArticleError::NotFound);
        },
    };
    if store.articles[i].author_id != v {
        proof {
            assert forall|k: int|
                0 <= k < store.articles@.len() && (#[trigger] store.articles@[k]).slug@ == slug@
                    implies store.articles@[k].author_id != v by {
                if k < i as int {
                    assert(store.articles@[k].slug@ != store.articles@[i as int].slug@);
                } else if (i as int) < k {
                    assert(store.articles@[i as int].slug@ != store.articles@[k].slug@);
                }
            }
        }
        return Err(ArticleError::NotFound);
    }
    let title_supplied = crate::user::is_supplied(&upd.article.title);
    let new_slug = if title_supplied {
        match &upd.article.title {
            Some(t) => slugify(t.as_str()),
            None => String::new(),
        }
    } else {
        store.articles[i].slug.clone()
    };
    if title_supplied {
        let mut k: usize = 0;
        let n = store.articles.len();
        while k < n
            invariant
                same_store(*old(store), *store),
                store.wf(),
                n == store.articles@.len(),
                k <= n,
                i < n,
                viewer == Some(v),
                supplied(opt_str(upd.article.title)),
                new_slug@ == slug_of(opt_str(upd.article.title)->0),
                store.articles@[i as int].slug@ == slug@,
                store.articles@[i as int].author_id == v,
                forall|m: int|
                    0 <= m < k ==> !(#[trigger] store.articles@[m].slug@ == new_slug@
                        && store.articles@[m].slug@ != slug@),
            decreases n - k,
        {
            if k != i && store.articles[k].slug == new_slug {
                proof {
                    if k < i {
                        assert(store.articles@[k as int].slug@
                            != store.articles@[i as int].slug@);
                    } else {
                        assert(store.articles@[i as int].slug@
                            != store.articles@[k as int].slug@);
                    }
                }
                return Err(ArticleError::DuplicateSlug);
            }
            proof {
                if k == i {
                    assert(store.articles@[k as int].slug@ == slug@);
                }
            }
            k += 1;
        }
    }
    let a0 = &store.articles[i];
    let a1 = ArticleRecord {
        id: a0.id,
        slug: new_slug,
        title: crate::user::apply_string(&a0.title, &upd.article.title),
        description: crate::user::apply_string(&a0.description, &upd.article.description),
        body: crate::user::apply_string(&a0.body, &upd.article.body),
        created_at: a0.created_at,
        updated_at: Some(now),
        author_id: a0.author_id,
    };
    store.articles.set(i, a1);
    proof {
        let arts0 = old(store).articles@;
        let a1v = store.articles@[i as int];
        assert forall|j: int|
            0 <= j < arts0.len() && j != i as int implies #[trigger] arts0[j].slug@
            != a1v.slug@ by {
            if supplied(opt_str(upd.article.title)) {
                if arts0[j].slug@ == a1v.slug@ {
                    assert(arts0[j].slug@ == slug_of(opt_str(upd.article.title)->0));
                    if j < i as int {
                        assert(arts0[j].slug@ != arts0[i as int].slug@);
                    } else {
                        assert(arts0[i as int].slug@ != arts0[j].slug@);
                    }
                }
            } else {
                if j < i as int {
                    assert(arts0[j].slug@ != arts0[i as int].slug@);
                } else {
                    assert(arts0[i as int].slug@ != arts0[j].slug@);
                }
            }
        }
        crate::store::lemma_update_article_wf(*old(store), *store, i as int);
    }
    let dto = article_dto(store, i, viewer);
    Ok(CreateArticleResult { article: dto })
}

/// Delete the article at `slug`: only its author may; the cascade removes
/// the article's comments, favorites and tag links with the row itself, and
/// a non-owner's request deletes nothing.
pub fn delete_article_handler(store: &mut Store, slug: &String, viewer: Option<u64>) -> (deleted:
    bool)
    requires
        old(store).wf(),
    ensures
        final(store).wf(),
        deleted <==> (viewer is Some && exists|i: int|
            0 <= i < old(store).articles@.len() && (#[trigger] old(store).articles@[i]).slug@
                == slug@ && old(store).articles@[i].author_id == viewer->0),
        !deleted ==> same_store(*old(store), *final(store)),
        deleted ==> exists|i: int|
            {
                &&& 0 <= i < old(store).articles@.len()
                &&& (#[trigger] old(store).articles@[i]).slug@ == slug@
                &&& old(store).articles@[i].author_id == viewer->0
                &&& ({
                    let aid = old(store).articles@[i].id;
                    &&& final(store).articles@ == old(store).articles@.filter(
                        crate::store::art_keep(aid),
                    )
                    &&& final(store).comments@ == old(store).comments@.filter(
                        crate::store::comment_keep(aid),
                    )
                    &&& final(store).favorites@ == old(store).favorites@.filter(
                        crate::store::fav_keep(aid),
                    )
                    &&& final(store).article_tags@ == old(store).article_tags@.filter(
                        crate::store::atag_keep(aid),
                    )
                    &&& !has_slug(final(store).articles@, slug@)
                })
            },
        final(store).users@ == old(store).users@,
        final(store).follows@ == old(store).follows@,
        final(store).tags@ == old(store).tags@,
        final(store).next_user_id == old(store).next_user_id,
        final(store).next_article_id == old(store).next_article_id,
        final(store).next_comment_id == old(store).next_comment_id,
{
    let v = match viewer {
        Some(v) => v,
        None => {
            return false;
        },
    };
    let i = match find_article_by_slug(&store.articles, slug) {
        Some(i) => i,
        None => {
            return false;
        },
    };
    if store.articles[i].author_id != v {
        proof {
            assert forall|k: int|
                0 <= k < store.articles@.len() && (#[trigger] store.articles@[k]).slug@ == slug@
                    implies store.articles@[k].author_id != v by {
                if k < i as int {
                    assert(store.articles@[k].slug@ != store.articles@[i as int].slug@);
                } else if (i as int) < k {
                    assert(store.articles@[i as int].slug@ != store.articles@[k].slug@);
                }
            }
        }
        return false;
    }
    let aid = store.articles[i].id;
    crate::store::retain_comments(&mut store.comments, aid);
    crate::store::retain_favorites(&mut store.favorites, aid);
    crate::store::retain_article_tags(&mut store.article_tags, aid);
    crate::store::retain_articles(&mut store.articles, aid);
    proof {
        crate::store::lemma_delete_article_wf(*old(store), *store, aid);
        let arts0 = old(store).articles@;
        if has_slug(store.articles@, slug@) {
            let k = choose|k: int|
                0 <= k < store.articles@.len() && #[trigger] store.articles@[k].slug@ == slug@;
            arts0.lemma_filter_pred(crate::store::art_keep(aid), k);
            lemma_filter_elements(arts0, crate::store::art_keep(aid));
            assert(arts0.contains(store.articles@[k]));
            let m = choose|m: int| 0 <= m < arts0.len() && arts0[m] == store.articles@[k];
            if m < i as int {
                assert(arts0[m].slug@ != arts0[i as int].slug@);
            } else if (i as int) < m {
                assert(arts0[i as int].slug@ != arts0[m].slug@);
            }
            assert(arts0[m].id == aid);
            assert(false);
        }
    }
    true
}


/// A list or feed request was malformed.
#[derive(Clone, Copy, Debug, PartialEq, Eq, Structural)]
pub enum ValidationError {
    /// A limit or offset parameter is not a decimal number.
    BadNumber,
}

/// The stored user `uid` carries this username.
pub open spec fn author_named(users: Seq<UserRecord>, uid: u64, username: Seq<char>) -> bool {
    exists|j: int|
        0 <= j < users.len() && (#[trigger] users[j]).id == uid && users[j].username@ == username
}

/// The user with this username has favorited article `aid`.
pub open spec fn favorited_by_user(s: Store, aid: u64, username: Seq<char>) -> bool {
    exists|j: int|
        0 <= j < s.users@.len() && (#[trigger] s.users@[j]).username@ == username
            && s.favorites@.contains((s.users@[j].id, aid))
}

/// The conjunctive listing filter: each given parameter must hold.
pub open spec fn list_pred(
    s: Store,
    tag: Option<Seq<char>>,
    author: Option<Seq<char>>,
    favby: Option<Seq<char>>,
) -> spec_fn(ArticleRecord) -> bool {
    |a: ArticleRecord|
        {
            &&& (tag is Some ==> has_article_tag(s.article_tags@, a.id, tag->0))
            &&& (author is Some ==> author_named(s.users@, a.author_id, author->0))
            &&& (favby is Some ==> favorited_by_user(s, a.id, favby->0))
        }
}

/// The feed filter: the caller follows the author.
pub open spec fn feed_pred(s: Store, v: u64) -> spec_fn(ArticleRecord) -> bool {
    |a: ArticleRecord| s.follows@.contains((v, a.author_id))
}

/// Offset/limit pagination over a selection.
pub open spec fn page(sel: Seq<ArticleRecord>, offset: u64, limit: u64) -> Seq<ArticleRecord> {
    let start = if offset <= sel.len() {
        offset as int
    } else {
        sel.len() as int
    };
    let end = if start + limit <= sel.len() {
        start + limit
    } else {
        sel.len() as int
    };
    sel.subrange(start, end)
}

/// Does the article at `idx` pass the listing filters?
fn matches_list(
    store: &Store,
    idx: usize,
    tag: &Option<String>,
    author: &Option<String>,
    favby: &Option<String>,
) -> (r: bool)
    requires
        store.wf(),
        idx < store.articles@.len(),
    ensures
        r == list_pred(*store, opt_str(*tag), opt_str(*author), opt_str(*favby))(
            store.articles@[idx as int],
        ),
{
    let a_id = store.articles[idx].id;
    let a_author = store.articles[idx].author_id;
    let tag_ok = match tag {
        None => true,
        Some(t) => has_article_tag_exec(&store.article_tags, a_id, t),
    };
    let author_ok = match author {
        None => true,
        Some(u) => match find_user_by_id(&store.users, a_author) {
            None => false,
            Some(j) => {
                let r = store.users[j].username == *u;
                proof {
                    if !r && author_named(store.users@, a_author, u@) {
                        let j2 = choose|j2: int|
                            0 <= j2 < store.users@.len() && (#[trigger] store.users@[j2]).id
                                == a_author && store.users@[j2].username@ == u@;
                        if (j as int) < j2 {
                            assert(store.users@[j as int].id < store.users@[j2].id);
                        } else if j2 < j as int {
                            assert(store.users@[j2].id < store.users@[j as int].id);
                        }
                    }
                }
                r
            },
        },
    };
    let favby_ok = match favby {
        None => true,
        Some(u) => match find_user_by_username(&store.users, u) {
            None => false,
            Some(j) => {
                let r = contains_edge(&store.favorites, store.users[j].id, a_id);
                proof {
                    if !r && favorited_by_user(*store, a_id, u@) {
                        let j2 = choose|j2: int|
                            0 <= j2 < store.users@.len() && (#[trigger] store.users@[j2]).username@
                                == u@ && store.favorites@.contains((store.users@[j2].id, a_id));
                        if (j as int) < j2 {
                            assert(store.users@[j as int].username@ != store.users@[j2].username@);
                        } else if j2 < j as int {
                            assert(store.users@[j2].username@ != store.users@[j as int].username@);
                        }
                    }
                }
                r
            },
        },
    };
    tag_ok && author_ok && favby_ok
}

/// Read the pagination parameters of a query; without them, twenty articles
/// from offset zero.
fn read_paging(ps: &Vec<(String, String)>) -> (r: Result<(u64, u64), ValidationError>)
    ensures
        ({
            let pv = crate::query::pair_views(ps@);
            let limit_r = crate::query::param_last(pv, "limit"@);
            let offset_r = crate::query::param_last(pv, "offset"@);
            let bad = (limit_r is Some && crate::numstr::parse_dec(limit_r->0) is None) || (
            offset_r is Some && crate::numstr::parse_dec(offset_r->0) is None);
            match r {
                Err(_) => bad,
                Ok(p) => {
                    &&& !bad
                    &&& p.0 == if limit_r is Some {
                        crate::numstr::parse_dec(limit_r->0)->0
                    } else {
                        20
                    }
                    &&& p.1 == if offset_r is Some {
                        crate::numstr::parse_dec(offset_r->0)->0
                    } else {
                        0
                    }
                },
            }
        }),
{
    let limit_name = String::from_str("limit");
    let offset_name = String::from_str("offset");
    let limit_s = crate::query::param_value(ps, &limit_name);
    let limit: u64 = match &limit_s {
        None => 20,
        Some(v) => match crate::numstr::parse_u64(v.as_str()) {
            Some(x) => x,
            None => {
                return Err(ValidationError::BadNumber);
            },
        },
    };
    let offset_s = crate::query::param_value(ps, &offset_name);
    let offset: u64 = match &offset_s {
        None => 0,
        Some(v) => match crate::numstr::parse_u64(v.as_str()) {
            Some(x) => x,
            None => {
                return Err(ValidationError::BadNumber);
            },
        },
    };
    Ok((limit, offset))
}

/// Page through a selection of article indices, building the DTOs.
fn page_dtos(
    store: &Store,
    idxs: &Vec<usize>,
    Ghost(sel): Ghost<Seq<ArticleRecord>>,
    limit: u64,
    offset: u64,
    viewer: Option<u64>,
) -> (out: Vec<Article>)
    requires
        store.wf(),
        idxs@.len() == sel.len(),
        forall|k: int|
            0 <= k < idxs@.len() ==> (#[trigger] idxs@[k]) < store.articles@.len()
                && store.articles@[idxs@[k] as int] == sel[k],
    ensures
        out@.len() == page(sel, offset, limit).len(),
        forall|t: int|
            0 <= t < out@.len() ==> #[trigger] article_shown(
                out@[t],
                page(sel, offset, limit)[t],
                *store,
                viewer,
            ),
{
    let total = idxs.len();
    let start: usize = if offset > total as u64 {
        total
    } else {
        offset as usize
    };
    let end: usize = if limit > (total - start) as u64 {
        total
    } else {
        start + (limit as usize)
    };
    let ghost paged = page(sel, offset, limit);
    proof {
        assert(paged =~= sel.subrange(start as int, end as int));
    }
    let mut out: Vec<Article> = Vec::new();
    let mut k: usize = start;
    while k < end
        invariant
            store.wf(),
            start <= k <= end <= idxs@.len(),
            idxs@.len() == sel.len(),
            forall|t: int|
                0 <= t < idxs@.len() ==> (#[trigger] idxs@[t]) < store.articles@.len()
                    && store.articles@[idxs@[t] as int] == sel[t],
            paged == sel.subrange(start as int, end as int),
            out@.len() == k - start,
            forall|t: int|
                0 <= t < out@.len() ==> #[trigger] article_shown(
                    out@[t],
                    paged[t],
                    *store,
                    viewer,
                ),
        decreases end - k,
    {
        let ghost out0 = out@;
        let dto = article_dto(store, idxs[k], viewer);
        out.push(dto);
        proof {
            assert(article_shown(dto, store.articles@[idxs@[k as int] as int], *store, viewer));
            assert(paged[k - start] == sel[k as int]);
            assert forall|t: int| 0 <= t < out@.len() implies #[trigger] article_shown(
                out@[t],
                paged[t],
                *store,
                viewer,
            ) by {
                if t < out0.len() {
                    assert(out@[t] == out0[t]);
                    assert(article_shown(out0[t], paged[t], *store, viewer));
                } else {
                    assert(out@[t] == dto);
                }
            }
        }
        k += 1;
    }
    out
}

/// List articles, filtered conjunctively by `tag`, `author` and `favorited`
/// query parameters and paged by `limit`/`offset`, in creation order, as
/// `viewer` sees them.
pub fn list_article_handler(store: &Store, query: &str, viewer: Option<u64>) -> (r: Result<
    ArticlesResult,
    ValidationError,
>)
    requires
        store.wf(),
    ensures
        ({
            let pv = crate::query::qparams(query@);
            let tag = crate::query::param_last(pv, "tag"@);
            let author = crate::query::param_last(pv, "author"@);
            let favby = crate::query::param_last(pv, "favorited"@);
            let limit_r = crate::query::param_last(pv, "limit"@);
            let offset_r = crate::query::param_last(pv, "offset"@);
            let bad = (limit_r is Some && crate::numstr::parse_dec(limit_r->0) is None) || (
            offset_r is Some && crate::numstr::parse_dec(offset_r->0) is None);
            let limit = if limit_r is Some {
                crate::numstr::parse_dec(limit_r->0)->0
            } else {
                20
            };
            let offset = if offset_r is Some {
                crate::numstr::parse_dec(offset_r->0)->0
            } else {
                0
            };
            let sel = store.articles@.filter(list_pred(*store, tag, author, favby));
            match r {
                Err(_) => bad,
                Ok(res) => {
                    &&& !bad
                    &&& res.articles@.len() == page(sel, offset, limit).len()
                    &&& forall|t: int|
                        0 <= t < res.articles@.len() ==> #[trigger] article_shown(
                            res.articles@[t],
                            page(sel, offset, limit)[t],
                            *store,
                            viewer,
                        )
                },
            }
        }),
{
    let ps = crate::query::parse_query(query);
    let (limit, offset) = match read_paging(&ps) {
        Ok(p) => p,
        Err(e) => {
            return Err(e);
        },
    };
    let tag = crate::query::param_value(&ps, &String::from_str("tag"));
    let author = crate::query::param_value(&ps, &String::from_str("author"));
    let favby = crate::query::param_value(&ps, &String::from_str("favorited"));
    let ghost pred = list_pred(*store, opt_str(tag), opt_str(author), opt_str(favby));
    let n = store.articles.len();
    let mut idxs: Vec<usize> = Vec::new();
    let mut i: usize = 0;
    proof {
        assert(store.articles@.take(0).filter(pred) =~= Seq::<ArticleRecord>::empty());
    }
    while i < n
        invariant
            store.wf(),
            n == store.articles@.len(),
            i <= n,
            pred == list_pred(*store, opt_str(tag), opt_str(author), opt_str(favby)),
            idxs@.len() == store.articles@.take(i as int).filter(pred).len(),
            forall|k: int|
                0 <= k < idxs@.len() ==> (#[trigger] idxs@[k]) < n
                    && store.articles@[idxs@[k] as int] == store.articles@.take(i as int).filter(
                    pred,
                )[k],
        decreases n - i,
    {
        proof {
            lemma_filter_take_step(store.articles@, pred, i as int);
        }
        let ghost idxs0 = idxs@;
        let ghost pref = store.articles@.take(i as int).filter(pred);
        let ghost newpref = store.articles@.take(i + 1).filter(pred);
        if matches_list(store, i, &tag, &author, &favby) {
            idxs.push(i);
            proof {
                assert(newpref == pref.push(store.articles@[i as int]));
                assert forall|k: int| 0 <= k < idxs@.len() implies (#[trigger] idxs@[k]) < n
                    && store.articles@[idxs@[k] as int] == newpref[k] by {
                    if k < idxs0.len() {
                        assert(idxs@[k] == idxs0[k]);
                        assert(newpref[k] == pref[k]);
                    } else {
                        assert(idxs@[k] == i);
                        assert(newpref[k] == store.articles@[i as int]);
                    }
                }
            }
        } else {
            proof {
                assert(newpref == pref);
            }
        }
        i += 1;
    }
    proof {
        assert(store.articles@.take(n as int) =~= store.articles@);
    }
    let out = page_dtos(
        store,
        &idxs,
        Ghost(store.articles@.filter(pred)),
        limit,
        offset,
        viewer,
    );
    Ok(ArticlesResult { articles: out })
}

/// The follow feed: articles by followed authors, newest first, paged by
/// `limit`/`offset`; an anonymous caller's feed is empty.
pub fn feed_handler(store: &Store, query: &str, viewer: Option<u64>) -> (r: Result<
    ArticlesResult,
    ValidationError,
>)
    requires
        store.wf(),
    ensures
        ({
            let pv = crate::query::qparams(query@);
            let limit_r = crate::query::param_last(pv, "limit"@);
            let offset_r = crate::query::param_last(pv, "offset"@);
            let bad = (limit_r is Some && crate::numstr::parse_dec(limit_r->0) is None) || (
            offset_r is Some && crate::numstr::parse_dec(offset_r->0) is None);
            let limit = if limit_r is Some {
                crate::numstr::parse_dec(limit_r->0)->0
            } else {
                20
            };
            let offset = if offset_r is Some {
                crate::numstr::parse_dec(offset_r->0)->0
            } else {
                0
            };
            match r {
                Err(_) => bad,
                Ok(res) => {
                    &&& !bad
                    &&& (viewer is None ==> res.articles@.len() == 0)
                    &&& (viewer is Some ==> ({
                        let sel = store.articles@.reverse().filter(
                            feed_pred(*store, viewer->0),
                        );
                        &&& res.articles@.len() == page(sel, offset, limit).len()
                        &&& forall|t: int|
                            0 <= t < res.articles@.len() ==> #[trigger] article_shown(
                                res.articles@[t],
                                page(sel, offset, limit)[t],
                                *store,
                                viewer,
                            )
                    }))
                },
            }
        }),
{
    let ps = crate::query::parse_query(query);
    let (limit, offset) = match read_paging(&ps) {
        Ok(p) => p,
        Err(e) => {
            return Err(e);
        },
    };
    let v = match viewer {
        Some(v) => v,
        None => {
            return Ok(ArticlesResult { articles: Vec::new() });
        },
    };
    let ghost pred = feed_pred(*store, v);
    let ghost rev = store.articles@.reverse();
    let n = store.articles.len();
    let mut idxs: Vec<usize> = Vec::new();
    let mut m: usize = 0;
    proof {
        assert(rev.take(0).filter(pred) =~= Seq::<ArticleRecord>::empty());
    }
    while m < n
        invariant
            store.wf(),
            n == store.articles@.len(),
            m <= n,
            viewer == Some(v),
            pred == feed_pred(*store, v),
            rev == store.articles@.reverse(),
            idxs@.len() == rev.take(m as int).filter(pred).len(),
            forall|k: int|
                0 <= k < idxs@.len() ==> (#[trigger] idxs@[k]) < n
                    && store.articles@[idxs@[k] as int] == rev.take(m as int).filter(pred)[k],
        decreases n - m,
    {
        proof {
            lemma_filter_take_step(rev, pred, m as int);
            assert(rev[m as int] == store.articles@[n - 1 - m as int]);
        }
        let ghost idxs0 = idxs@;
        let ghost pref = rev.take(m as int).filter(pred);
        let ghost newpref = rev.take(m + 1).filter(pred);
        let idx = n - 1 - m;
        if contains_edge(&store.follows, v, store.articles[idx].author_id) {
            idxs.push(idx);
            proof {
                assert(pred(rev[m as int]));
                assert(newpref == pref.push(rev[m as int]));
                assert forall|k: int| 0 <= k < idxs@.len() implies (#[trigger] idxs@[k]) < n
                    && store.articles@[idxs@[k] as int] == newpref[k] by {
                    if k < idxs0.len() {
                        assert(idxs@[k] == idxs0[k]);
                        assert(newpref[k] == pref[k]);
                    } else {
                        assert(idxs@[k] == idx);
                        assert(newpref[k] == rev[m as int]);
                    }
                }
            }
        } else {
            proof {
                assert(!pred(rev[m as int]));
                assert(newpref == pref);
            }
        }
        m += 1;
    }
    proof {
        assert(rev.take(n as int) =~= rev);
    }
    let out = page_dtos(store, &idxs, Ghost(rev.filter(pred)), limit, offset, viewer);
    Ok(ArticlesResult { articles: out })
}


/// The feed shows followed authors: an article whose author the caller
/// follows stands in the feed selection, and — within the first page — in
/// the feed itself.
pub proof fn lemma_feed_contains_followed(s: Store, v: u64, i: int, limit: u64)
    requires
        0 <= i < s.articles@.len(),
        s.follows@.contains((v, s.articles@[i].author_id)),
        s.articles@.reverse().filter(feed_pred(s, v)).len() <= limit,
    ensures
        s.articles@.reverse().filter(feed_pred(s, v)).contains(s.articles@[i]),
        page(s.articles@.reverse().filter(feed_pred(s, v)), 0, limit).contains(s.articles@[i]),
{
    let rev = s.articles@.reverse();
    let sel = rev.filter(feed_pred(s, v));
    let ri = s.articles@.len() - 1 - i;
    assert(rev[ri] == s.articles@[i]);
    assert(feed_pred(s, v)(rev[ri]));
    rev.lemma_filter_contains(feed_pred(s, v), ri);
    assert(page(sel, 0, limit) =~= sel);
}

/// List every tag name that has been created.
pub fn get_tags_handler(store: &Store) -> (r: GetTagsResult)
    ensures
        str_views(r.tags@) == str_views(store.tags@),
{
    let n = store.tags.len();
    let mut out: Vec<String> = Vec::new();
    let mut i: usize = 0;
    while i < n
        invariant
            n == store.tags@.len(),
            i <= n,
            out@.len() == i,
            forall|k: int| 0 <= k < i ==> #[trigger] out@[k]@ == store.tags@[k]@,
        decreases n - i,
    {
        out.push(store.tags[i].clone());
        i += 1;
    }
    proof {
        assert(str_views(out@) =~= str_views(store.tags@));
    }
    GetTagsResult { tags: out }
}

} // verus!
