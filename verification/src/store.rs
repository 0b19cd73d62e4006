//! The resource model: users, articles, tags, favorites, follows and
//! comments, held as an explicit relational state with its consistency rules.
//!
//! Handlers operate on a [`Store`] as atomic statement groups over backing
//! tables: each operation happens in one step over the value, and its
//! contract states the new state as a function of the old one.

use vstd::prelude::*;

use crate::dto::{clone_opt_string, opt_str, Profile};
use crate::user::pbkdf2_formatted;
use crate::seq_util::{
    lemma_distinct_filter_single, lemma_filter_elements, lemma_filter_no_duplicates,
    lemma_filter_pairwise, lemma_filter_take_all, lemma_filter_take_step,
};

verus! {

/// A registered user. Users are never deleted.
pub struct UserRecord {
    pub id: u64,
    pub email: String,
    pub username: String,
    pub password_hash: String,
    pub bio: Option<String>,
    pub image: Option<String>,
}

/// An article row; `author_id` always names an existing user.
pub struct ArticleRecord {
    pub id: u64,
    pub slug: String,
    pub title: String,
    pub description: String,
    pub body: String,
    pub created_at: u64,
    pub updated_at: Option<u64>,
    pub author_id: u64,
}

/// A comment under an article.
pub struct CommentRecord {
    pub id: u64,
    pub article_id: u64,
    pub author_id: u64,
    pub body: String,
    pub created_at: u64,
}

/// The whole relational state. Follow edges are `(follower, followee)` user
/// ids; favorite edges are `(user, article)` ids; `article_tags` links an
/// article id to a tag name from `tags`.
pub struct Store {
    pub users: Vec<UserRecord>,
    pub articles: Vec<ArticleRecord>,
    pub comments: Vec<CommentRecord>,
    pub follows: Vec<(u64, u64)>,
    pub favorites: Vec<(u64, u64)>,
    pub tags: Vec<String>,
    pub article_tags: Vec<(u64, String)>,
    pub next_user_id: u64,
    pub next_article_id: u64,
    pub next_comment_id: u64,
}

// ----- existence predicates -----

pub open spec fn has_user_id(users: Seq<UserRecord>, id: u64) -> bool {
    exists|i: int| 0 <= i < users.len() && #[trigger] users[i].id == id
}

pub open spec fn has_email(users: Seq<UserRecord>, email: Seq<char>) -> bool {
    exists|i: int| 0 <= i < users.len() && #[trigger] users[i].email@ == email
}

pub open spec fn has_username(users: Seq<UserRecord>, username: Seq<char>) -> bool {
    exists|i: int| 0 <= i < users.len() && #[trigger] users[i].username@ == username
}

pub open spec fn has_article_id(arts: Seq<ArticleRecord>, id: u64) -> bool {
    exists|i: int| 0 <= i < arts.len() && #[trigger] arts[i].id == id
}

pub open spec fn has_slug(arts: Seq<ArticleRecord>, slug: Seq<char>) -> bool {
    exists|i: int| 0 <= i < arts.len() && #[trigger] arts[i].slug@ == slug
}

pub open spec fn has_tag(tags: Seq<String>, name: Seq<char>) -> bool {
    exists|i: int| 0 <= i < tags.len() && #[trigger] tags[i]@ == name
}

pub open spec fn has_article_tag(ats: Seq<(u64, String)>, id: u64, name: Seq<char>) -> bool {
    exists|i: int| 0 <= i < ats.len() && #[trigger] ats[i].0 == id && ats[i].1@ == name
}

// ----- named predicates and projections -----

/// Predicate holding of every edge other than `e`.
pub open spec fn edge_ne(e: (u64, u64)) -> spec_fn((u64, u64)) -> bool {
    |x: (u64, u64)| x != e
}

/// Predicate holding exactly of `e`.
pub open spec fn edge_eq(e: (u64, u64)) -> spec_fn((u64, u64)) -> bool {
    |x: (u64, u64)| x == e
}

/// Predicate holding of favorite edges that point at article `aid`.
pub open spec fn fav_at(aid: u64) -> spec_fn((u64, u64)) -> bool {
    |x: (u64, u64)| x.1 == aid
}

/// Predicate holding of tag links that belong to article `aid`.
pub open spec fn tag_of(aid: u64) -> spec_fn((u64, String)) -> bool {
    |x: (u64, String)| x.0 == aid
}

/// The character-level views of a sequence of strings.
pub open spec fn str_views(ss: Seq<String>) -> Seq<Seq<char>> {
    ss.map_values(|s: String| s@)
}

/// How many favorite edges point at article `aid`.
pub open spec fn fav_count(favs: Seq<(u64, u64)>, aid: u64) -> nat {
    favs.filter(fav_at(aid)).len()
}

/// The tag names linked to article `aid`, in link order.
pub open spec fn tag_names(ats: Seq<(u64, String)>, aid: u64) -> Seq<Seq<char>> {
    ats.filter(tag_of(aid)).map_values(|x: (u64, String)| x.1@)
}

// ----- well-formedness -----

pub open spec fn users_wf(users: Seq<UserRecord>, next: u64) -> bool {
    &&& forall|i: int| 0 <= i < users.len() ==> 1 <= #[trigger] users[i].id < next
    &&& forall|i: int, j: int|
        0 <= i < j < users.len() ==> #[trigger] users[i].id < #[trigger] users[j].id
    &&& forall|i: int, j: int|
        0 <= i < j < users.len() ==> #[trigger] users[i].email@ != #[trigger] users[j].email@
    &&& forall|i: int, j: int|
        0 <= i < j < users.len() ==> #[trigger] users[i].username@ != #[trigger] users[j].username@
}

pub open spec fn articles_wf(arts: Seq<ArticleRecord>, next: u64, users: Seq<UserRecord>) -> bool {
    &&& forall|i: int| 0 <= i < arts.len() ==> 1 <= #[trigger] arts[i].id < next
    &&& forall|i: int, j: int|
        0 <= i < j < arts.len() ==> #[trigger] arts[i].id < #[trigger] arts[j].id
    &&& forall|i: int, j: int|
        0 <= i < j < arts.len() ==> #[trigger] arts[i].slug@ != #[trigger] arts[j].slug@
    &&& forall|i: int| 0 <= i < arts.len() ==> has_user_id(users, #[trigger] arts[i].author_id)
}

pub open spec fn comments_wf(
    cs: Seq<CommentRecord>,
    next: u64,
    users: Seq<UserRecord>,
    arts: Seq<ArticleRecord>,
) -> bool {
    &&& forall|i: int| 0 <= i < cs.len() ==> 1 <= #[trigger] cs[i].id < next
    &&& forall|i: int, j: int| 0 <= i < j < cs.len() ==> #[trigger] cs[i].id < #[trigger] cs[j].id
    &&& forall|i: int| 0 <= i < cs.len() ==> has_user_id(users, #[trigger] cs[i].author_id)
    &&& forall|i: int| 0 <= i < cs.len() ==> has_article_id(arts, #[trigger] cs[i].article_id)
}

/// Every stored password hash came out of the password hasher, so checking
/// a password against it cannot go wrong.
pub open spec fn hashes_wf(users: Seq<UserRecord>) -> bool {
    forall|i: int| 0 <= i < users.len() ==> #[trigger] pbkdf2_formatted(users[i].password_hash@)
}

pub open spec fn tags_wf(tags: Seq<String>) -> bool {
    forall|i: int, j: int| 0 <= i < j < tags.len() ==> #[trigger] tags[i]@ != #[trigger] tags[j]@
}

/// Favorite edges only ever point at articles that exist.
pub open spec fn favorites_ref_wf(favs: Seq<(u64, u64)>, arts: Seq<ArticleRecord>) -> bool {
    forall|i: int| 0 <= i < favs.len() ==> has_article_id(arts, (#[trigger] favs[i]).1)
}

/// Tag links only ever point at articles that exist.
pub open spec fn article_tags_ref_wf(ats: Seq<(u64, String)>, arts: Seq<ArticleRecord>) -> bool {
    forall|i: int| 0 <= i < ats.len() ==> has_article_id(arts, (#[trigger] ats[i]).0)
}

pub open spec fn article_tags_wf(ats: Seq<(u64, String)>) -> bool {
    forall|i: int, j: int|
        0 <= i < j < ats.len() ==> !(#[trigger] ats[i].0 == #[trigger] ats[j].0 && ats[i].1@
            == ats[j].1@)
}

impl Store {
    /// The consistency rules of the state: unique ids in insertion order,
    /// unique emails, usernames, slugs and tag names, duplicate-free edges,
    /// and referential integrity of authors and commented articles.
    pub open spec fn wf(self) -> bool {
        &&& self.next_user_id >= 1
        &&& self.next_article_id >= 1
        &&& self.next_comment_id >= 1
        &&& users_wf(self.users@, self.next_user_id)
        &&& hashes_wf(self.users@)
        &&& articles_wf(self.articles@, self.next_article_id, self.users@)
        &&& comments_wf(self.comments@, self.next_comment_id, self.users@, self.articles@)
        &&& self.follows@.no_duplicates()
        &&& self.favorites@.no_duplicates()
        &&& tags_wf(self.tags@)
        &&& article_tags_wf(self.article_tags@)
        &&& favorites_ref_wf(self.favorites@, self.articles@)
        &&& article_tags_ref_wf(self.article_tags@, self.articles@)
    }

    /// An empty store.
    pub fn new() -> (s: Store)
        ensures
            s.wf(),
            s.users@ == Seq::<UserRecord>::empty(),
            s.articles@ == Seq::<ArticleRecord>::empty(),
            s.comments@ == Seq::<CommentRecord>::empty(),
            s.follows@ == Seq::<(u64, u64)>::empty(),
            s.favorites@ == Seq::<(u64, u64)>::empty(),
            s.tags@ == Seq::<String>::empty(),
            s.article_tags@ == Seq::<(u64, String)>::empty(),
            s.next_user_id == 1,
            s.next_article_id == 1,
            s.next_comment_id == 1,
    {
        let s = Store {
            users: Vec::new(),
            articles: Vec::new(),
            comments: Vec::new(),
            follows: Vec::new(),
            favorites: Vec::new(),
            tags: Vec::new(),
            article_tags: Vec::new(),
            next_user_id: 1,
            next_article_id: 1,
            next_comment_id: 1,
        };
        proof {
            assert(s.users@ =~= Seq::<UserRecord>::empty());
            assert(s.articles@ =~= Seq::<ArticleRecord>::empty());
            assert(s.comments@ =~= Seq::<CommentRecord>::empty());
            assert(s.follows@ =~= Seq::<(u64, u64)>::empty());
            assert(s.favorites@ =~= Seq::<(u64, u64)>::empty());
            assert(s.tags@ =~= Seq::<String>::empty());
            assert(s.article_tags@ =~= Seq::<(u64, String)>::empty());
        }
        s
    }
}

// ----- finders -----

pub fn find_user_by_id(users: &Vec<UserRecord>, id: u64) -> (r: Option<usize>)
    ensures
        match r {
            Some(i) => i < users@.len() && users@[i as int].id == id,
            None => !has_user_id(users@, id),
        },
{
    let n = users.len();
    let mut i: usize = 0;
    while i < n
        invariant
            n == users@.len(),
            i <= n,
            forall|k: int| 0 <= k < i ==> #[trigger] users@[k].id != id,
        decreases n - i,
    {
        if users[i].id == id {
            return Some(i);
        }
        i += 1;
    }
    None
}

pub fn find_user_by_email(users: &Vec<UserRecord>, email: &String) -> (r: Option<usize>)
    ensures
        match r {
            Some(i) => i < users@.len() && users@[i as int].email@ == email@,
            None => !has_email(users@, email@),
        },
{
    let n = users.len();
    let mut i: usize = 0;
    while i < n
        invariant
            n == users@.len(),
            i <= n,
            forall|k: int| 0 <= k < i ==> #[trigger] users@[k].email@ != email@,
        decreases n - i,
    {
        if users[i].email == *email {
            return Some(i);
        }
        i += 1;
    }
    None
}

pub fn find_user_by_username(users: &Vec<UserRecord>, username: &String) -> (r: Option<usize>)
    ensures
        match r {
            Some(i) => i < users@.len() && users@[i as int].username@ == username@,
            None => !has_username(users@, username@),
        },
{
    let n = users.len();
    let mut i: usize = 0;
    while i < n
        invariant
            n == users@.len(),
            i <= n,
            forall|k: int| 0 <= k < i ==> #[trigger] users@[k].username@ != username@,
        decreases n - i,
    {
        if users[i].username == *username {
            return Some(i);
        }
        i += 1;
    }
    None
}

pub fn find_article_by_slug(arts: &Vec<ArticleRecord>, slug: &String) -> (r: Option<usize>)
    ensures
        match r {
            Some(i) => i < arts@.len() && arts@[i as int].slug@ == slug@,
            None => !has_slug(arts@, slug@),
        },
{
    let n = arts.len();
    let mut i: usize = 0;
    while i < n
        invariant
            n == arts@.len(),
            i <= n,
            forall|k: int| 0 <= k < i ==> #[trigger] arts@[k].slug@ != slug@,
        decreases n - i,
    {
        if arts[i].slug == *slug {
            return Some(i);
        }
        i += 1;
    }
    None
}

pub fn find_comment_by_id(cs: &Vec<CommentRecord>, id: u64) -> (r: Option<usize>)
    ensures
        match r {
            Some(i) => i < cs@.len() && cs@[i as int].id == id,
            None => forall|k: int| 0 <= k < cs@.len() ==> #[trigger] cs@[k].id != id,
        },
{
    let n = cs.len();
    let mut i: usize = 0;
    while i < n
        invariant
            n == cs@.len(),
            i <= n,
            forall|k: int| 0 <= k < i ==> #[trigger] cs@[k].id != id,
        decreases n - i,
    {
        if cs[i].id == id {
            return Some(i);
        }
        i += 1;
    }
    None
}

pub fn find_tag(tags: &Vec<String>, name: &String) -> (r: Option<usize>)
    ensures
        match r {
            Some(i) => i < tags@.len() && tags@[i as int]@ == name@,
            None => !has_tag(tags@, name@),
        },
{
    let n = tags.len();
    let mut i: usize = 0;
    while i < n
        invariant
            n == tags@.len(),
            i <= n,
            forall|k: int| 0 <= k < i ==> #[trigger] tags@[k]@ != name@,
        decreases n - i,
    {
        if tags[i] == *name {
            return Some(i);
        }
        i += 1;
    }
    None
}

// ----- relationship edges -----

/// Idempotent insertion: the edge set after inserting `e`.
pub open spec fn spec_add_edge(edges: Seq<(u64, u64)>, e: (u64, u64)) -> Seq<(u64, u64)> {
    if edges.contains(e) {
        edges
    } else {
        edges.push(e)
    }
}

/// Removal of an edge (a no-op when the edge is absent).
pub open spec fn spec_remove_edge(edges: Seq<(u64, u64)>, e: (u64, u64)) -> Seq<(u64, u64)> {
    edges.filter(edge_ne(e))
}

pub fn contains_edge(edges: &Vec<(u64, u64)>, a: u64, b: u64) -> (r: bool)
    ensures
        r == edges@.contains((a, b)),
{
    let n = edges.len();
    let mut i: usize = 0;
    while i < n
        invariant
            n == edges@.len(),
            i <= n,
            forall|k: int| 0 <= k < i ==> #[trigger] edges@[k] != (a, b),
        decreases n - i,
    {
        if edges[i].0 == a && edges[i].1 == b {
            proof {
                assert(edges@[i as int] == (a, b));
            }
            return true;
        }
        i += 1;
    }
    false
}

/// Insert an edge unless it is already present (the insert-except-existing
/// pattern of the follow and favorite statements).
pub fn add_edge(edges: &mut Vec<(u64, u64)>, a: u64, b: u64)
    requires
        old(edges)@.no_duplicates(),
    ensures
        final(edges)@ == spec_add_edge(old(edges)@, (a, b)),
        final(edges)@.no_duplicates(),
        final(edges)@.contains((a, b)),
{
    let present = contains_edge(edges, a, b);
    if !present {
        edges.push((a, b));
        proof {
            let olds = old(edges)@;
            let news = edges@;
            assert(news == olds.push((a, b)));
            assert forall|i: int, j: int| 0 <= i < j < news.len() implies news[i] != news[j] by {
                if j == news.len() - 1 {
                    assert(olds[i] == news[i]);
                    if news[i] == (a, b) {
                        assert(olds.contains((a, b)));
                    }
                }
            }
            assert(news[news.len() - 1] == (a, b));
        }
    }
}

/// Remove an edge; removing an absent edge leaves the set unchanged.
pub fn remove_edge(edges: &mut Vec<(u64, u64)>, a: u64, b: u64)
    requires
        old(edges)@.no_duplicates(),
    ensures
        final(edges)@ == spec_remove_edge(old(edges)@, (a, b)),
        final(edges)@.no_duplicates(),
        !final(edges)@.contains((a, b)),
{
    let n = edges.len();
    let mut out: Vec<(u64, u64)> = Vec::new();
    let mut i: usize = 0;
    proof {
        assert(out@ =~= edges@.take(0).filter(edge_ne((a, b))));
    }
    while i < n
        invariant
            n == edges@.len(),
            edges@ == old(edges)@,
            i <= n,
            out@ == edges@.take(i as int).filter(edge_ne((a, b))),
        decreases n - i,
    {
        proof {
            lemma_filter_take_step(edges@, edge_ne((a, b)), i as int);
        }
        if !(edges[i].0 == a && edges[i].1 == b) {
            proof {
                assert(edges@[i as int] != (a, b));
                assert(edge_ne((a, b))(edges@[i as int]));
            }
            let e = (edges[i].0, edges[i].1);
            proof {
                assert(e == edges@[i as int]);
            }
            out.push(e);
        } else {
            proof {
                assert(edges@[i as int] == (a, b));
                assert(!edge_ne((a, b))(edges@[i as int]));
            }
        }
        i += 1;
    }
    proof {
        lemma_filter_take_all(edges@, edge_ne((a, b)));
    }
    *edges = out;
    proof {
        let olds = old(edges)@;
        let news = edges@;
        assert(news == olds.filter(edge_ne((a, b))));
        lemma_filter_no_duplicates(olds, edge_ne((a, b)));
        if news.contains((a, b)) {
            let k = choose|k: int| 0 <= k < news.len() && news[k] == (a, b);
            olds.lemma_filter_pred(edge_ne((a, b)), k);
        }
    }
}

/// Count how many favorite edges point at article `aid`.
pub fn count_favorites(favorites: &Vec<(u64, u64)>, aid: u64) -> (n: u64)
    ensures
        n == fav_count(favorites@, aid),
{
    let len = favorites.len();
    let mut n: u64 = 0;
    let mut i: usize = 0;
    proof {
        assert(favorites@.take(0).filter(fav_at(aid)) =~= Seq::<(u64, u64)>::empty());
    }
    while i < len
        invariant
            len == favorites@.len(),
            i <= len,
            n <= i,
            n == fav_count(favorites@.take(i as int), aid),
        decreases len - i,
    {
        proof {
            lemma_filter_take_step(favorites@, fav_at(aid), i as int);
            favorites@.take(i as int).lemma_filter_len(fav_at(aid));
        }
        if favorites[i].1 == aid {
            n = n + 1;
        }
        i += 1;
    }
    proof {
        lemma_filter_take_all(favorites@, fav_at(aid));
    }
    n
}

// ----- laws about edges -----

/// Inserting an edge a second time changes nothing.
pub proof fn lemma_add_edge_idempotent(edges: Seq<(u64, u64)>, e: (u64, u64))
    ensures
        spec_add_edge(spec_add_edge(edges, e), e) == spec_add_edge(edges, e),
{
    let once = spec_add_edge(edges, e);
    if !edges.contains(e) {
        assert(once[once.len() - 1] == e);
        assert(once.contains(e));
    }
}

/// After insertion into a duplicate-free edge set, the edge is present
/// exactly once.
pub proof fn lemma_add_edge_once(edges: Seq<(u64, u64)>, e: (u64, u64))
    requires
        edges.no_duplicates(),
    ensures
        spec_add_edge(edges, e).filter(edge_eq(e)).len() == 1,
{
    let once = spec_add_edge(edges, e);
    if edges.contains(e) {
        lemma_distinct_filter_single(edges, e, edge_eq(e));
    } else {
        assert(once == edges.push(e));
        assert forall|i: int, j: int| 0 <= i < j < once.len() implies once[i] != once[j] by {
            if j == once.len() - 1 {
                if once[i] == e {
                    assert(edges.contains(e));
                }
            }
        }
        assert(once[once.len() - 1] == e);
        assert(once.contains(e));
        lemma_distinct_filter_single(once, e, edge_eq(e));
    }
}

/// Removing an absent edge is a no-op, not an error.
pub proof fn lemma_remove_edge_absent(edges: Seq<(u64, u64)>, e: (u64, u64))
    requires
        !edges.contains(e),
    ensures
        spec_remove_edge(edges, e) == edges,
    decreases edges.len(),
{
    reveal(Seq::filter);
    let pred = edge_ne(e);
    if edges.len() > 0 {
        let rest = edges.drop_last();
        assert(!rest.contains(e)) by {
            if rest.contains(e) {
                let j = choose|j: int| 0 <= j < rest.len() && rest[j] == e;
                assert(edges[j] == e);
            }
        }
        assert(edges[edges.len() - 1] != e);
        lemma_remove_edge_absent(rest, e);
        assert(spec_remove_edge(edges, e) =~= edges);
    } else {
        assert(spec_remove_edge(edges, e) =~= edges);
    }
}


// ----- cascade deletion -----

/// Keep articles other than `aid`.
pub open spec fn art_keep(aid: u64) -> spec_fn(ArticleRecord) -> bool {
    |a: ArticleRecord| a.id != aid
}

/// Keep comments not under article `aid`.
pub open spec fn comment_keep(aid: u64) -> spec_fn(CommentRecord) -> bool {
    |c: CommentRecord| c.article_id != aid
}

/// Keep favorite edges not pointing at article `aid`.
pub open spec fn fav_keep(aid: u64) -> spec_fn((u64, u64)) -> bool {
    |x: (u64, u64)| x.1 != aid
}

/// Keep tag links not belonging to article `aid`.
pub open spec fn atag_keep(aid: u64) -> spec_fn((u64, String)) -> bool {
    |x: (u64, String)| x.0 != aid
}

/// Drop every comment under article `aid`.
pub fn retain_comments(cs: &mut Vec<CommentRecord>, aid: u64)
    ensures
        final(cs)@ == old(cs)@.filter(comment_keep(aid)),
{
    let n = cs.len();
    let mut out: Vec<CommentRecord> = Vec::new();
    let mut i: usize = 0;
    proof {
        assert(out@ =~= cs@.take(0).filter(comment_keep(aid)));
    }
    while i < n
        invariant
            n == cs@.len(),
            cs@ == old(cs)@,
            i <= n,
            out@ == cs@.take(i as int).filter(comment_keep(aid)),
        decreases n - i,
    {
        proof {
            lemma_filter_take_step(cs@, comment_keep(aid), i as int);
        }
        if cs[i].article_id != aid {
            let c = CommentRecord {
                id: cs[i].id,
                article_id: cs[i].article_id,
                author_id: cs[i].author_id,
                body: cs[i].body.clone(),
                created_at: cs[i].created_at,
            };
            proof {
                assert(c.body@ == cs@[i as int].body@);
            }
            out.push(c);
            proof {
                assert(out@.last().body@ == cs@[i as int].body@);
                assert(out@ =~= cs@.take(i + 1).filter(comment_keep(aid)));
            }
        }
        i += 1;
    }
    proof {
        lemma_filter_take_all(cs@, comment_keep(aid));
    }
    *cs = out;
}

/// Drop every favorite edge pointing at article `aid`.
pub fn retain_favorites(favs: &mut Vec<(u64, u64)>, aid: u64)
    ensures
        final(favs)@ == old(favs)@.filter(fav_keep(aid)),
{
    let n = favs.len();
    let mut out: Vec<(u64, u64)> = Vec::new();
    let mut i: usize = 0;
    proof {
        assert(out@ =~= favs@.take(0).filter(fav_keep(aid)));
    }
    while i < n
        invariant
            n == favs@.len(),
            favs@ == old(favs)@,
            i <= n,
            out@ == favs@.take(i as int).filter(fav_keep(aid)),
        decreases n - i,
    {
        proof {
            lemma_filter_take_step(favs@, fav_keep(aid), i as int);
        }
        if favs[i].1 != aid {
            let e = (favs[i].0, favs[i].1);
            proof {
                assert(e == favs@[i as int]);
            }
            out.push(e);
        }
        i += 1;
    }
    proof {
        lemma_filter_take_all(favs@, fav_keep(aid));
    }
    *favs = out;
}

/// Drop every tag link belonging to article `aid`.
pub fn retain_article_tags(ats: &mut Vec<(u64, String)>, aid: u64)
    ensures
        final(ats)@ == old(ats)@.filter(atag_keep(aid)),
{
    let n = ats.len();
    let mut out: Vec<(u64, String)> = Vec::new();
    let mut i: usize = 0;
    proof {
        assert(out@ =~= ats@.take(0).filter(atag_keep(aid)));
    }
    while i < n
        invariant
            n == ats@.len(),
            ats@ == old(ats)@,
            i <= n,
            out@ == ats@.take(i as int).filter(atag_keep(aid)),
        decreases n - i,
    {
        proof {
            lemma_filter_take_step(ats@, atag_keep(aid), i as int);
        }
        if ats[i].0 != aid {
            let e = (ats[i].0, ats[i].1.clone());
            proof {
                assert(e.0 == ats@[i as int].0 && e.1@ == ats@[i as int].1@);
            }
            out.push(e);
            proof {
                assert(out@ =~= ats@.take(i + 1).filter(atag_keep(aid)));
            }
        }
        i += 1;
    }
    proof {
        lemma_filter_take_all(ats@, atag_keep(aid));
    }
    *ats = out;
}

/// Drop the article row `aid` itself.
pub fn retain_articles(arts: &mut Vec<ArticleRecord>, aid: u64)
    ensures
        final(arts)@ == old(arts)@.filter(art_keep(aid)),
{
    let n = arts.len();
    let mut out: Vec<ArticleRecord> = Vec::new();
    let mut i: usize = 0;
    proof {
        assert(out@ =~= arts@.take(0).filter(art_keep(aid)));
    }
    while i < n
        invariant
            n == arts@.len(),
            arts@ == old(arts)@,
            i <= n,
            out@ == arts@.take(i as int).filter(art_keep(aid)),
        decreases n - i,
    {
        proof {
            lemma_filter_take_step(arts@, art_keep(aid), i as int);
        }
        if arts[i].id != aid {
            let a = ArticleRecord {
                id: arts[i].id,
                slug: arts[i].slug.clone(),
                title: arts[i].title.clone(),
                description: arts[i].description.clone(),
                body: arts[i].body.clone(),
                created_at: arts[i].created_at,
                updated_at: arts[i].updated_at,
                author_id: arts[i].author_id,
            };
            proof {
                assert(a.slug@ == arts@[i as int].slug@);
            }
            out.push(a);
            proof {
                assert(out@ =~= arts@.take(i + 1).filter(art_keep(aid)));
            }
        }
        i += 1;
    }
    proof {
        lemma_filter_take_all(arts@, art_keep(aid));
    }
    *arts = out;
}

/// Cascade-deleting one article — its comments, favorites and tag links go
/// with the row itself — preserves every consistency rule.
pub proof fn lemma_delete_article_wf(s0: Store, s1: Store, aid: u64)
    requires
        s0.wf(),
        s1.users@ == s0.users@,
        s1.follows@ == s0.follows@,
        s1.tags@ == s0.tags@,
        s1.next_user_id == s0.next_user_id,
        s1.next_article_id == s0.next_article_id,
        s1.next_comment_id == s0.next_comment_id,
        s1.articles@ == s0.articles@.filter(art_keep(aid)),
        s1.comments@ == s0.comments@.filter(comment_keep(aid)),
        s1.favorites@ == s0.favorites@.filter(fav_keep(aid)),
        s1.article_tags@ == s0.article_tags@.filter(atag_keep(aid)),
    ensures
        s1.wf(),
{
    let arts0 = s0.articles@;
    let arts1 = s1.articles@;
    lemma_filter_elements(arts0, art_keep(aid));
    lemma_filter_pairwise(
        arts0,
        art_keep(aid),
        |a: ArticleRecord, b: ArticleRecord| a.id < b.id && a.slug@ != b.slug@,
    );
    assert forall|k: int| 0 <= k < arts1.len() implies 1 <= (#[trigger] arts1[k]).id
        < s1.next_article_id && has_user_id(s1.users@, arts1[k].author_id) by {
        assert(arts0.contains(arts1[k]));
        let m = choose|m: int| 0 <= m < arts0.len() && arts0[m] == arts1[k];
        assert(1 <= arts0[m].id < s0.next_article_id);
        assert(has_user_id(s0.users@, arts0[m].author_id));
    }
    let cs0 = s0.comments@;
    let cs1 = s1.comments@;
    lemma_filter_elements(cs0, comment_keep(aid));
    lemma_filter_pairwise(cs0, comment_keep(aid), |a: CommentRecord, b: CommentRecord| a.id < b.id);
    assert forall|k: int| 0 <= k < cs1.len() implies 1 <= (#[trigger] cs1[k]).id
        < s1.next_comment_id && has_user_id(s1.users@, cs1[k].author_id) && has_article_id(
        arts1,
        cs1[k].article_id,
    ) by {
        assert(cs0.contains(cs1[k]));
        let m = choose|m: int| 0 <= m < cs0.len() && cs0[m] == cs1[k];
        assert(1 <= cs0[m].id < s0.next_comment_id);
        assert(has_user_id(s0.users@, cs0[m].author_id));
        assert(has_article_id(arts0, cs0[m].article_id));
        let w = choose|w: int| 0 <= w < arts0.len() && #[trigger] arts0[w].id == cs0[m].article_id;
        cs0.lemma_filter_pred(comment_keep(aid), k);
        assert(cs1[k].article_id != aid);
        arts0.lemma_filter_contains(art_keep(aid), w);
        let w1 = choose|w1: int| 0 <= w1 < arts1.len() && arts1[w1] == arts0[w];
        assert(arts1[w1].id == cs1[k].article_id);
    }
    lemma_filter_no_duplicates(s0.favorites@, fav_keep(aid));
    let favs1 = s1.favorites@;
    lemma_filter_elements(s0.favorites@, fav_keep(aid));
    assert forall|k: int| 0 <= k < favs1.len() implies has_article_id(
        arts1,
        (#[trigger] favs1[k]).1,
    ) by {
        assert(s0.favorites@.contains(favs1[k]));
        let m = choose|m: int| 0 <= m < s0.favorites@.len() && s0.favorites@[m] == favs1[k];
        assert(has_article_id(arts0, s0.favorites@[m].1));
        let w = choose|w: int|
            0 <= w < arts0.len() && #[trigger] arts0[w].id == s0.favorites@[m].1;
        s0.favorites@.lemma_filter_pred(fav_keep(aid), k);
        assert(favs1[k].1 != aid);
        arts0.lemma_filter_contains(art_keep(aid), w);
        let w1 = choose|w1: int| 0 <= w1 < arts1.len() && arts1[w1] == arts0[w];
        assert(arts1[w1].id == favs1[k].1);
    }
    let ats0 = s0.article_tags@;
    let ats1 = s1.article_tags@;
    lemma_filter_elements(ats0, atag_keep(aid));
    lemma_filter_pairwise(
        ats0,
        atag_keep(aid),
        |a: (u64, String), b: (u64, String)| !(a.0 == b.0 && a.1@ == b.1@),
    );
    assert forall|k: int| 0 <= k < ats1.len() implies has_article_id(
        arts1,
        (#[trigger] ats1[k]).0,
    ) by {
        assert(ats0.contains(ats1[k]));
        let m = choose|m: int| 0 <= m < ats0.len() && ats0[m] == ats1[k];
        assert(has_article_id(arts0, ats0[m].0));
        let w = choose|w: int| 0 <= w < arts0.len() && #[trigger] arts0[w].id == ats0[m].0;
        ats0.lemma_filter_pred(atag_keep(aid), k);
        assert(ats1[k].0 != aid);
        arts0.lemma_filter_contains(art_keep(aid), w);
        let w1 = choose|w1: int| 0 <= w1 < arts1.len() && arts1[w1] == arts0[w];
        assert(arts1[w1].id == ats1[k].0);
    }
}

/// Updating one article in place — same id and author, a new slug nobody
/// else holds — preserves every consistency rule.
pub proof fn lemma_update_article_wf(s0: Store, s1: Store, i: int)
    requires
        s0.wf(),
        0 <= i < s0.articles@.len(),
        s1.articles@ == s0.articles@.update(i, s1.articles@[i]),
        s1.articles@[i].id == s0.articles@[i].id,
        s1.articles@[i].author_id == s0.articles@[i].author_id,
        forall|j: int|
            0 <= j < s0.articles@.len() && j != i ==> #[trigger] s0.articles@[j].slug@
                != s1.articles@[i].slug@,
        s1.users@ == s0.users@,
        s1.comments@ == s0.comments@,
        s1.follows@ == s0.follows@,
        s1.favorites@ == s0.favorites@,
        s1.tags@ == s0.tags@,
        s1.article_tags@ == s0.article_tags@,
        s1.next_user_id == s0.next_user_id,
        s1.next_article_id == s0.next_article_id,
        s1.next_comment_id == s0.next_comment_id,
    ensures
        s1.wf(),
{
    assert forall|a: int, b: int|
        0 <= a < b < s1.articles@.len() implies #[trigger] s1.articles@[a].slug@
        != #[trigger] s1.articles@[b].slug@ by {
        if a != i && b != i {
            assert(s0.articles@[a].slug@ != s0.articles@[b].slug@);
        }
    }
    assert forall|k: int| 0 <= k < s1.comments@.len() implies has_article_id(
        s1.articles@,
        #[trigger] s1.comments@[k].article_id,
    ) by {
        lemma_update_preserves_has_article_id(
            s0.articles@,
            i,
            s1.articles@[i],
            s1.comments@[k].article_id,
        );
    }
    assert forall|k: int| 0 <= k < s1.favorites@.len() implies has_article_id(
        s1.articles@,
        (#[trigger] s1.favorites@[k]).1,
    ) by {
        lemma_update_preserves_has_article_id(
            s0.articles@,
            i,
            s1.articles@[i],
            s1.favorites@[k].1,
        );
    }
    assert forall|k: int| 0 <= k < s1.article_tags@.len() implies has_article_id(
        s1.articles@,
        (#[trigger] s1.article_tags@[k]).0,
    ) by {
        lemma_update_preserves_has_article_id(
            s0.articles@,
            i,
            s1.articles@[i],
            s1.article_tags@[k].0,
        );
    }
}


/// Keep comments with an id other than `cid`.
pub open spec fn comment_id_keep(cid: u64) -> spec_fn(CommentRecord) -> bool {
    |c: CommentRecord| c.id != cid
}

/// The comments under article `aid`.
pub open spec fn comment_at(aid: u64) -> spec_fn(CommentRecord) -> bool {
    |c: CommentRecord| c.article_id == aid
}

/// Drop the comment with id `cid`.
pub fn retain_comments_by_id(cs: &mut Vec<CommentRecord>, cid: u64)
    ensures
        final(cs)@ == old(cs)@.filter(comment_id_keep(cid)),
{
    let n = cs.len();
    let mut out: Vec<CommentRecord> = Vec::new();
    let mut i: usize = 0;
    proof {
        assert(out@ =~= cs@.take(0).filter(comment_id_keep(cid)));
    }
    while i < n
        invariant
            n == cs@.len(),
            cs@ == old(cs)@,
            i <= n,
            out@ == cs@.take(i as int).filter(comment_id_keep(cid)),
        decreases n - i,
    {
        proof {
            lemma_filter_take_step(cs@, comment_id_keep(cid), i as int);
        }
        if cs[i].id != cid {
            let c = CommentRecord {
                id: cs[i].id,
                article_id: cs[i].article_id,
                author_id: cs[i].author_id,
                body: cs[i].body.clone(),
                created_at: cs[i].created_at,
            };
            proof {
                assert(c.body@ == cs@[i as int].body@);
            }
            out.push(c);
            proof {
                assert(out@ =~= cs@.take(i + 1).filter(comment_id_keep(cid)));
            }
        }
        i += 1;
    }
    proof {
        lemma_filter_take_all(cs@, comment_id_keep(cid));
    }
    *cs = out;
}

/// Inserting a fresh comment with the next id, an existing author and an
/// existing article preserves every consistency rule.
pub proof fn lemma_add_comment_wf(s0: Store, s1: Store)
    requires
        s0.wf(),
        s0.next_comment_id < u64::MAX,
        s1.users@ == s0.users@,
        s1.articles@ == s0.articles@,
        s1.follows@ == s0.follows@,
        s1.favorites@ == s0.favorites@,
        s1.tags@ == s0.tags@,
        s1.article_tags@ == s0.article_tags@,
        s1.next_user_id == s0.next_user_id,
        s1.next_article_id == s0.next_article_id,
        s1.comments@.len() == s0.comments@.len() + 1,
        s1.comments@ == s0.comments@.push(s1.comments@.last()),
        s1.comments@.last().id == s0.next_comment_id,
        has_user_id(s0.users@, s1.comments@.last().author_id),
        has_article_id(s0.articles@, s1.comments@.last().article_id),
        s1.next_comment_id == s0.next_comment_id + 1,
    ensures
        s1.wf(),
{
    let n0 = s0.comments@.len() as int;
    assert forall|i: int| 0 <= i < s1.comments@.len() implies 1 <= (
    #[trigger] s1.comments@[i]).id < s1.next_comment_id && has_user_id(
        s1.users@,
        s1.comments@[i].author_id,
    ) && has_article_id(s1.articles@, s1.comments@[i].article_id) by {
        if i < n0 {
            assert(s1.comments@[i] == s0.comments@[i]);
            assert(has_user_id(s0.users@, s0.comments@[i].author_id));
            assert(has_article_id(s0.articles@, s0.comments@[i].article_id));
        }
    }
    assert forall|i: int, j: int|
        0 <= i < j < s1.comments@.len() implies (#[trigger] s1.comments@[i]).id
        < (#[trigger] s1.comments@[j]).id by {
        if j < n0 {
            assert(s1.comments@[i] == s0.comments@[i] && s1.comments@[j] == s0.comments@[j]);
        } else {
            assert(s1.comments@[i] == s0.comments@[i]);
            assert(s1.comments@[i].id < s0.next_comment_id);
        }
    }
}

/// Deleting one comment preserves every consistency rule.
pub proof fn lemma_delete_comment_wf(s0: Store, s1: Store, cid: u64)
    requires
        s0.wf(),
        s1.users@ == s0.users@,
        s1.articles@ == s0.articles@,
        s1.follows@ == s0.follows@,
        s1.favorites@ == s0.favorites@,
        s1.tags@ == s0.tags@,
        s1.article_tags@ == s0.article_tags@,
        s1.next_user_id == s0.next_user_id,
        s1.next_article_id == s0.next_article_id,
        s1.next_comment_id == s0.next_comment_id,
        s1.comments@ == s0.comments@.filter(comment_id_keep(cid)),
    ensures
        s1.wf(),
{
    let cs0 = s0.comments@;
    let cs1 = s1.comments@;
    lemma_filter_elements(cs0, comment_id_keep(cid));
    lemma_filter_pairwise(
        cs0,
        comment_id_keep(cid),
        |a: CommentRecord, b: CommentRecord| a.id < b.id,
    );
    assert forall|k: int| 0 <= k < cs1.len() implies 1 <= (#[trigger] cs1[k]).id
        < s1.next_comment_id && has_user_id(s1.users@, cs1[k].author_id) && has_article_id(
        s1.articles@,
        cs1[k].article_id,
    ) by {
        assert(cs0.contains(cs1[k]));
        let m = choose|m: int| 0 <= m < cs0.len() && cs0[m] == cs1[k];
        assert(1 <= cs0[m].id < s0.next_comment_id);
        assert(has_user_id(s0.users@, cs0[m].author_id));
        assert(has_article_id(s0.articles@, cs0[m].article_id));
    }
}

// ----- derived views (row mappers) -----

/// Does `viewer` follow the user with id `author`?
pub open spec fn viewer_follows(viewer: Option<u64>, author: u64, follows: Seq<(u64, u64)>) -> bool {
    viewer is Some && follows.contains((viewer->0, author))
}

/// The profile DTO shows the user's fields and whether the viewer follows
/// them; an anonymous viewer follows nobody.
pub open spec fn profile_matches(
    p: Profile,
    u: UserRecord,
    viewer: Option<u64>,
    follows: Seq<(u64, u64)>,
) -> bool {
    &&& p.username@ == u.username@
    &&& opt_str(p.bio) == opt_str(u.bio)
    &&& opt_str(p.image) == opt_str(u.image)
    &&& p.following == viewer_follows(viewer, u.id, follows)
}



/// The views of the tag links.
pub open spec fn at_views(ats: Seq<(u64, String)>) -> Seq<(u64, Seq<char>)> {
    ats.map_values(|x: (u64, String)| (x.0, x.1@))
}

/// Lazily create one tag name.
pub open spec fn add_tag(tags: Seq<Seq<char>>, name: Seq<char>) -> Seq<Seq<char>> {
    if tags.contains(name) {
        tags
    } else {
        tags.push(name)
    }
}

/// Lazily create each of the names, left to right.
pub open spec fn add_tags(tags: Seq<Seq<char>>, names: Seq<Seq<char>>) -> Seq<Seq<char>>
    decreases names.len(),
{
    if names.len() == 0 {
        tags
    } else {
        add_tag(add_tags(tags, names.drop_last()), names.last())
    }
}

/// Link one tag name to article `aid` unless that link already exists.
pub open spec fn link_tag(
    ats: Seq<(u64, Seq<char>)>,
    aid: u64,
    name: Seq<char>,
) -> Seq<(u64, Seq<char>)> {
    if ats.contains((aid, name)) {
        ats
    } else {
        ats.push((aid, name))
    }
}

/// Link each of the names to article `aid`, left to right.
pub open spec fn link_tags(
    ats: Seq<(u64, Seq<char>)>,
    aid: u64,
    names: Seq<Seq<char>>,
) -> Seq<(u64, Seq<char>)>
    decreases names.len(),
{
    if names.len() == 0 {
        ats
    } else {
        link_tag(link_tags(ats, aid, names.drop_last()), aid, names.last())
    }
}

/// Appending an article keeps every previously referenced article reachable.
pub proof fn lemma_push_preserves_has_article_id(
    arts: Seq<ArticleRecord>,
    a: ArticleRecord,
    id: u64,
)
    requires
        has_article_id(arts, id),
    ensures
        has_article_id(arts.push(a), id),
{
    let j = choose|j: int| 0 <= j < arts.len() && #[trigger] arts[j].id == id;
    assert(arts.push(a)[j].id == id);
}

/// Replacing an article record without changing its id keeps every article
/// id reachable that was reachable before, and vice versa.
pub proof fn lemma_update_preserves_has_article_id(
    arts: Seq<ArticleRecord>,
    i: int,
    a: ArticleRecord,
    id: u64,
)
    requires
        0 <= i < arts.len(),
        a.id == arts[i].id,
    ensures
        has_article_id(arts.update(i, a), id) == has_article_id(arts, id),
{
    let upd = arts.update(i, a);
    if has_article_id(arts, id) {
        let j = choose|j: int| 0 <= j < arts.len() && #[trigger] arts[j].id == id;
        assert(upd[j].id == id);
    }
    if has_article_id(upd, id) {
        let j = choose|j: int| 0 <= j < upd.len() && #[trigger] upd[j].id == id;
        assert(arts[j].id == id);
    }
}

/// An article DTO shows this record, the derived favorite and follow state
/// as `viewer` sees it, and the linked tag names.
pub open spec fn article_matches(
    a: crate::dto::Article,
    art: ArticleRecord,
    author: UserRecord,
    follows: Seq<(u64, u64)>,
    favorites: Seq<(u64, u64)>,
    ats: Seq<(u64, String)>,
    viewer: Option<u64>,
) -> bool {
    &&& author.id == art.author_id
    &&& a.slug@ == art.slug@
    &&& a.title@ == art.title@
    &&& a.description@ == art.description@
    &&& a.body@ == art.body@
    &&& a.createdAt == art.created_at
    &&& a.updatedAt == art.updated_at
    &&& a.favorited == (viewer is Some && favorites.contains((viewer->0, art.id)))
    &&& a.favoritesCount == fav_count(favorites, art.id)
    &&& str_views(a.tagList@) == tag_names(ats, art.id)
    &&& profile_matches(a.author, author, viewer, follows)
}

/// Some stored user is the article's author and the DTO shows the article
/// through that author's profile.
pub open spec fn article_shown(
    a: crate::dto::Article,
    rec: ArticleRecord,
    s: Store,
    viewer: Option<u64>,
) -> bool {
    exists|j: int|
        {
            &&& 0 <= j < s.users@.len()
            &&& (#[trigger] s.users@[j]).id == rec.author_id
            &&& article_matches(a, rec, s.users@[j], s.follows@, s.favorites@, s.article_tags@, viewer)
        }
}

/// Build the article DTO at `idx` as `viewer` sees it.
pub fn article_dto(store: &Store, idx: usize, viewer: Option<u64>) -> (a: crate::dto::Article)
    requires
        store.wf(),
        idx < store.articles@.len(),
    ensures
        article_shown(a, store.articles@[idx as int], *store, viewer),
        exists|j: int|
            {
                &&& 0 <= j < store.users@.len()
                &&& (#[trigger] store.users@[j]).id == store.articles@[idx as int].author_id
                &&& article_matches(
                    a,
                    store.articles@[idx as int],
                    store.users@[j],
                    store.follows@,
                    store.favorites@,
                    store.article_tags@,
                    viewer,
                )
            },
{
    let art = &store.articles[idx];
    let j = match find_user_by_id(&store.users, art.author_id) {
        Some(j) => j,
        None => {
            proof {
                assert(has_user_id(store.users@, store.articles@[idx as int].author_id));
                assert(false);
            }
            0
        },
    };
    let author = profile_dto(&store.users[j], &store.follows, viewer);
    let favorited = match viewer {
        None => false,
        Some(v) => contains_edge(&store.favorites, v, art.id),
    };
    let count = count_favorites(&store.favorites, art.id);
    let tag_list = collect_tags(&store.article_tags, art.id);
    crate::dto::Article {
        slug: art.slug.clone(),
        title: art.title.clone(),
        description: art.description.clone(),
        body: art.body.clone(),
        tagList: tag_list,
        createdAt: art.created_at,
        updatedAt: art.updated_at,
        favorited,
        favoritesCount: count,
        author,
    }
}

/// Inserting a fresh article with the next id, a slug nobody holds and an
/// existing author preserves every consistency rule, whatever happened to
/// the tag tables, as long as they stay well formed and reference existing
/// articles.
pub proof fn lemma_create_article_wf(s0: Store, s1: Store)
    requires
        s0.wf(),
        s0.next_article_id < u64::MAX,
        s1.users@ == s0.users@,
        s1.comments@ == s0.comments@,
        s1.follows@ == s0.follows@,
        s1.favorites@ == s0.favorites@,
        s1.next_user_id == s0.next_user_id,
        s1.next_comment_id == s0.next_comment_id,
        s1.articles@.len() == s0.articles@.len() + 1,
        s1.articles@ == s0.articles@.push(s1.articles@.last()),
        s1.articles@.last().id == s0.next_article_id,
        !has_slug(s0.articles@, s1.articles@.last().slug@),
        has_user_id(s0.users@, s1.articles@.last().author_id),
        s1.next_article_id == s0.next_article_id + 1,
        tags_wf(s1.tags@),
        article_tags_wf(s1.article_tags@),
        article_tags_ref_wf(s1.article_tags@, s1.articles@),
    ensures
        s1.wf(),
{
    let na = s1.articles@.last();
    let n0 = s0.articles@.len() as int;
    assert forall|i: int| 0 <= i < s1.articles@.len() implies 1 <= (
    #[trigger] s1.articles@[i]).id < s1.next_article_id by {
        if i < n0 {
            assert(s1.articles@[i] == s0.articles@[i]);
        }
    }
    assert forall|i: int, j: int|
        0 <= i < j < s1.articles@.len() implies (#[trigger] s1.articles@[i]).id
        < (#[trigger] s1.articles@[j]).id by {
        if j < n0 {
            assert(s1.articles@[i] == s0.articles@[i] && s1.articles@[j] == s0.articles@[j]);
        } else {
            assert(s1.articles@[i] == s0.articles@[i]);
            assert(s1.articles@[i].id < s0.next_article_id);
        }
    }
    assert forall|i: int, j: int|
        0 <= i < j < s1.articles@.len() implies (#[trigger] s1.articles@[i]).slug@
        != (#[trigger] s1.articles@[j]).slug@ by {
        if j < n0 {
            assert(s1.articles@[i] == s0.articles@[i] && s1.articles@[j] == s0.articles@[j]);
            assert(s0.articles@[i].slug@ != s0.articles@[j].slug@);
        } else {
            assert(s1.articles@[i] == s0.articles@[i]);
            assert(s1.articles@[j] == na);
            if s0.articles@[i].slug@ == na.slug@ {
                assert(has_slug(s0.articles@, na.slug@));
            }
        }
    }
    assert forall|i: int| 0 <= i < s1.articles@.len() implies has_user_id(
        s1.users@,
        #[trigger] s1.articles@[i].author_id,
    ) by {
        if i < n0 {
            assert(s1.articles@[i] == s0.articles@[i]);
            assert(has_user_id(s0.users@, s0.articles@[i].author_id));
        }
    }
    assert forall|i: int| 0 <= i < s1.comments@.len() implies has_article_id(
        s1.articles@,
        #[trigger] s1.comments@[i].article_id,
    ) by {
        lemma_push_preserves_has_article_id(s0.articles@, na, s1.comments@[i].article_id);
    }
    assert forall|i: int| 0 <= i < s1.favorites@.len() implies has_article_id(
        s1.articles@,
        (#[trigger] s1.favorites@[i]).1,
    ) by {
        lemma_push_preserves_has_article_id(s0.articles@, na, s1.favorites@[i].1);
    }
}

// ----- whole-store relations -----

/// Both states hold exactly the same data.
pub open spec fn same_store(a: Store, b: Store) -> bool {
    &&& a.users@ == b.users@
    &&& a.articles@ == b.articles@
    &&& a.comments@ == b.comments@
    &&& a.follows@ == b.follows@
    &&& a.favorites@ == b.favorites@
    &&& a.tags@ == b.tags@
    &&& a.article_tags@ == b.article_tags@
    &&& a.next_user_id == b.next_user_id
    &&& a.next_article_id == b.next_article_id
    &&& a.next_comment_id == b.next_comment_id
}

/// Appending a user keeps every previously referenced user reachable.
pub proof fn lemma_push_preserves_has_user_id(users: Seq<UserRecord>, u: UserRecord, id: u64)
    requires
        has_user_id(users, id),
    ensures
        has_user_id(users.push(u), id),
{
    let j = choose|j: int| 0 <= j < users.len() && #[trigger] users[j].id == id;
    assert(users.push(u)[j].id == id);
}

/// Replacing a user record without changing its id keeps every user id
/// reachable that was reachable before, and vice versa.
pub proof fn lemma_update_preserves_has_user_id(
    users: Seq<UserRecord>,
    i: int,
    u: UserRecord,
    id: u64,
)
    requires
        0 <= i < users.len(),
        u.id == users[i].id,
    ensures
        has_user_id(users.update(i, u), id) == has_user_id(users, id),
{
    let upd = users.update(i, u);
    if has_user_id(users, id) {
        let j = choose|j: int| 0 <= j < users.len() && #[trigger] users[j].id == id;
        assert(upd[j].id == id);
    }
    if has_user_id(upd, id) {
        let j = choose|j: int| 0 <= j < upd.len() && #[trigger] upd[j].id == id;
        assert(users[j].id == id);
    }
}

/// Inserting a fresh user with the next id preserves every consistency rule.
pub proof fn lemma_register_wf(s0: Store, s1: Store)
    requires
        s0.wf(),
        s0.next_user_id < u64::MAX,
        s1.users@.len() == s0.users@.len() + 1,
        s1.users@ == s0.users@.push(s1.users@.last()),
        s1.users@.last().id == s0.next_user_id,
        !has_email(s0.users@, s1.users@.last().email@),
        !has_username(s0.users@, s1.users@.last().username@),
        pbkdf2_formatted(s1.users@.last().password_hash@),
        s1.next_user_id == s0.next_user_id + 1,
        s1.articles@ == s0.articles@,
        s1.comments@ == s0.comments@,
        s1.follows@ == s0.follows@,
        s1.favorites@ == s0.favorites@,
        s1.tags@ == s0.tags@,
        s1.article_tags@ == s0.article_tags@,
        s1.next_article_id == s0.next_article_id,
        s1.next_comment_id == s0.next_comment_id,
    ensures
        s1.wf(),
{
    let nu = s1.users@.last();
    let n0 = s0.users@.len() as int;
    assert forall|i: int| 0 <= i < s1.users@.len() implies 1 <= (#[trigger] s1.users@[i]).id
        < s1.next_user_id by {
        if i < n0 {
            assert(s1.users@[i] == s0.users@[i]);
        }
    }
    assert forall|i: int| 0 <= i < s1.users@.len() implies #[trigger] pbkdf2_formatted(
        s1.users@[i].password_hash@,
    ) by {
        if i < n0 {
            assert(s1.users@[i] == s0.users@[i]);
            assert(pbkdf2_formatted(s0.users@[i].password_hash@));
        }
    }
    assert forall|i: int, j: int|
        0 <= i < j < s1.users@.len() implies (#[trigger] s1.users@[i]).id
        < (#[trigger] s1.users@[j]).id by {
        if j < n0 {
            assert(s1.users@[i] == s0.users@[i] && s1.users@[j] == s0.users@[j]);
        } else {
            assert(s1.users@[i] == s0.users@[i]);
            assert(s1.users@[i].id < s0.next_user_id);
        }
    }
    assert forall|i: int, j: int|
        0 <= i < j < s1.users@.len() implies (#[trigger] s1.users@[i]).email@
        != (#[trigger] s1.users@[j]).email@ by {
        if j < n0 {
            assert(s1.users@[i] == s0.users@[i] && s1.users@[j] == s0.users@[j]);
            assert(s0.users@[i].email@ != s0.users@[j].email@);
        } else {
            assert(s1.users@[i] == s0.users@[i]);
            assert(s1.users@[j] == nu);
            if s0.users@[i].email@ == nu.email@ {
                assert(has_email(s0.users@, nu.email@));
            }
        }
    }
    assert forall|i: int, j: int|
        0 <= i < j < s1.users@.len() implies (#[trigger] s1.users@[i]).username@
        != (#[trigger] s1.users@[j]).username@ by {
        if j < n0 {
            assert(s1.users@[i] == s0.users@[i] && s1.users@[j] == s0.users@[j]);
            assert(s0.users@[i].username@ != s0.users@[j].username@);
        } else {
            assert(s1.users@[i] == s0.users@[i]);
            assert(s1.users@[j] == nu);
            if s0.users@[i].username@ == nu.username@ {
                assert(has_username(s0.users@, nu.username@));
            }
        }
    }
    assert forall|i: int| 0 <= i < s1.articles@.len() implies has_user_id(
        s1.users@,
        #[trigger] s1.articles@[i].author_id,
    ) by {
        lemma_push_preserves_has_user_id(s0.users@, nu, s1.articles@[i].author_id);
    }
    assert forall|i: int| 0 <= i < s1.comments@.len() implies has_user_id(
        s1.users@,
        #[trigger] s1.comments@[i].author_id,
    ) by {
        lemma_push_preserves_has_user_id(s0.users@, nu, s1.comments@[i].author_id);
    }
}


/// Updating one user in place — same id, and a new email and username that
/// no other user holds — preserves every consistency rule.
pub proof fn lemma_update_user_wf(s0: Store, s1: Store, i: int)
    requires
        s0.wf(),
        0 <= i < s0.users@.len(),
        s1.users@ == s0.users@.update(i, s1.users@[i]),
        s1.users@[i].id == s0.users@[i].id,
        pbkdf2_formatted(s1.users@[i].password_hash@),
        forall|j: int|
            0 <= j < s0.users@.len() && j != i ==> #[trigger] s0.users@[j].email@
                != s1.users@[i].email@,
        forall|j: int|
            0 <= j < s0.users@.len() && j != i ==> #[trigger] s0.users@[j].username@
                != s1.users@[i].username@,
        s1.next_user_id == s0.next_user_id,
        s1.articles@ == s0.articles@,
        s1.comments@ == s0.comments@,
        s1.follows@ == s0.follows@,
        s1.favorites@ == s0.favorites@,
        s1.tags@ == s0.tags@,
        s1.article_tags@ == s0.article_tags@,
        s1.next_article_id == s0.next_article_id,
        s1.next_comment_id == s0.next_comment_id,
    ensures
        s1.wf(),
{
    assert forall|k: int| 0 <= k < s1.users@.len() implies #[trigger] pbkdf2_formatted(
        s1.users@[k].password_hash@,
    ) by {
        if k != i {
            assert(s1.users@[k] == s0.users@[k]);
            assert(pbkdf2_formatted(s0.users@[k].password_hash@));
        }
    }
    assert forall|a: int, b: int|
        0 <= a < b < s1.users@.len() implies #[trigger] s1.users@[a].email@
        != #[trigger] s1.users@[b].email@ by {
        if a != i && b != i {
            assert(s0.users@[a].email@ != s0.users@[b].email@);
        }
    }
    assert forall|a: int, b: int|
        0 <= a < b < s1.users@.len() implies #[trigger] s1.users@[a].username@
        != #[trigger] s1.users@[b].username@ by {
        if a != i && b != i {
            assert(s0.users@[a].username@ != s0.users@[b].username@);
        }
    }
    assert forall|k: int| 0 <= k < s1.articles@.len() implies has_user_id(
        s1.users@,
        #[trigger] s1.articles@[k].author_id,
    ) by {
        lemma_update_preserves_has_user_id(s0.users@, i, s1.users@[i], s1.articles@[k].author_id);
    }
    assert forall|k: int| 0 <= k < s1.comments@.len() implies has_user_id(
        s1.users@,
        #[trigger] s1.comments@[k].author_id,
    ) by {
        lemma_update_preserves_has_user_id(s0.users@, i, s1.users@[i], s1.comments@[k].author_id);
    }
}

/// Build the profile DTO of a user as `viewer` sees it.
pub fn profile_dto(u: &UserRecord, follows: &Vec<(u64, u64)>, viewer: Option<u64>) -> (p: Profile)
    ensures
        profile_matches(p, *u, viewer, follows@),
{
    let following = match viewer {
        None => false,
        Some(v) => contains_edge(follows, v, u.id),
    };
    Profile {
        username: u.username.clone(),
        bio: clone_opt_string(&u.bio),
        image: clone_opt_string(&u.image),
        following,
    }
}

/// Collect the tag names linked to article `aid`.
pub fn collect_tags(ats: &Vec<(u64, String)>, aid: u64) -> (ts: Vec<String>)
    ensures
        str_views(ts@) == tag_names(ats@, aid),
{
    let len = ats.len();
    let mut ts: Vec<String> = Vec::new();
    let mut i: usize = 0;
    proof {
        assert(str_views(ts@) =~= tag_names(ats@.take(0), aid));
    }
    while i < len
        invariant
            len == ats@.len(),
            i <= len,
            str_views(ts@) == tag_names(ats@.take(i as int), aid),
        decreases len - i,
    {
        proof {
            lemma_filter_take_step(ats@, tag_of(aid), i as int);
        }
        if ats[i].0 == aid {
            let ghost ts0 = ts@;
            let name = ats[i].1.clone();
            proof {
                assert(name@ == ats@[i as int].1@);
            }
            ts.push(name);
            proof {
                let s = ats@;
                assert(tag_of(aid)(s[i as int]));
                assert(s.take(i + 1).filter(tag_of(aid)) == s.take(i as int).filter(tag_of(aid)).push(
                    s[i as int],
                ));
                assert(str_views(ts@) =~= str_views(ts0).push(s[i as int].1@));
                assert(tag_names(s.take(i + 1), aid) =~= tag_names(s.take(i as int), aid).push(
                    s[i as int].1@,
                ));
            }
        } else {
            proof {
                assert(!tag_of(aid)(ats@[i as int]));
                assert(str_views(ts@) =~= tag_names(ats@.take(i + 1), aid));
            }
        }
        i += 1;
    }
    proof {
        assert(ats@.take(len as int) =~= ats@);
    }
    ts
}

} // verus!
