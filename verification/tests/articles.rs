use conduit::article::{
    create_article_handler, delete_article_handler, favorite_article_handler, feed_handler,
    get_article_handler, get_tags_handler, list_article_handler, unfavorite_article_handler,
    update_article_handler, ArticleError, ValidationError,
};
use conduit::dto::{
    CreateArticle, CreateArticleDetail, Login, LoginDetails, Registration, RegistrationDetails,
    UpdateArticle, UpdateArticleDetail,
};
use conduit::store::Store;
use conduit::token::SessionMiddleware;
use conduit::user::{authentication_handler, follow_handler, login, registration_handler};

const NOW: u64 = 1700000000;
const JACOB_PASSWORD: &str = "jakejake";

fn service() -> SessionMiddleware {
    SessionMiddleware::new("secret_key").issuer("conduit")
}

fn register_and_login(store: &mut Store, username: &str, email: &str) -> (String, Option<u64>) {
    let reg = Registration {
        user: RegistrationDetails {
            email: email.to_string(),
            username: username.to_string(),
            password: JACOB_PASSWORD.to_string(),
        },
    };
    registration_handler(store, &service(), &reg, NOW).unwrap();
    let req = Login {
        user: LoginDetails {
            email: email.to_string(),
            password: JACOB_PASSWORD.to_string(),
        },
    };
    let res = authentication_handler(store, &service(), &req, NOW).unwrap();
    let jwt = res.user.token;
    let uid = login(&service(), &jwt, NOW);
    (jwt, uid)
}

fn login_create_article(store: &mut Store, follow: bool) -> (Option<u64>, String, String) {
    let user_name = "Jacob".to_string();
    let (_jwt, uid) = register_and_login(store, &user_name, "jake@jake.jake");
    if follow {
        let profile = follow_handler(store, &user_name, uid).unwrap();
        assert!(profile.profile.following);
    }

    let title = "How to train your dragon".to_string();
    let body = CreateArticle {
        article: CreateArticleDetail {
            title: title.clone(),
            description: "Ever wonder how?".to_string(),
            body: "You have to believe".to_string(),
            tagList: Some(vec![
                "reactjs".to_string(),
                "angularjs".to_string(),
                "dragons".to_string(),
            ]),
        },
    };
    let res = create_article_handler(store, &body, uid, NOW).unwrap();
    let article = res.article;
    assert_eq!(article.title, title);
    assert_eq!(article.slug, "how-to-train-your-dragon");
    assert!(!article.favorited);
    assert_eq!(article.author.username, user_name);
    assert_eq!(article.tagList.len(), 3);

    (uid, article.slug, user_name)
}

#[test]
fn create_article_test() {
    let mut store = Store::new();
    login_create_article(&mut store, false);
}

#[test]
fn favorite_article_test() {
    let mut store = Store::new();
    let (uid, slug, user_name) = login_create_article(&mut store, false);

    let res = favorite_article_handler(&mut store, &slug, uid).unwrap();
    let article = res.article;
    assert_eq!(article.slug, slug);
    assert!(article.favorited);
    assert_eq!(article.favoritesCount, 1);
    assert_eq!(article.author.username, user_name);
}

#[test]
fn unfavorite_article_test() {
    let mut store = Store::new();
    let (uid, slug, user_name) = login_create_article(&mut store, false);

    let res = unfavorite_article_handler(&mut store, &slug, uid).unwrap();
    let article = res.article;
    assert_eq!(article.slug, slug);
    assert!(!article.favorited);
    assert_eq!(article.favoritesCount, 0);
    assert_eq!(article.author.username, user_name);
}

#[test]
fn favorite_cycle_test() {
    let mut store = Store::new();
    let (uid, slug, _user_name) = login_create_article(&mut store, false);

    let first = favorite_article_handler(&mut store, &slug, uid).unwrap();
    assert!(first.article.favorited);
    assert_eq!(first.article.favoritesCount, 1);

    let second = favorite_article_handler(&mut store, &slug, uid).unwrap();
    assert!(second.article.favorited);
    assert_eq!(second.article.favoritesCount, 1);
    assert_eq!(store.favorites.len(), 1);

    let reverted = unfavorite_article_handler(&mut store, &slug, uid).unwrap();
    assert!(!reverted.article.favorited);
    assert_eq!(reverted.article.favoritesCount, 0);
}

#[test]
fn get_article_test() {
    let mut store = Store::new();
    let (_uid, slug, user_name) = login_create_article(&mut store, false);

    let res = get_article_handler(&store, &slug, None).unwrap();
    let article = res.article;
    assert_eq!(article.slug, slug);
    assert!(!article.favorited);
    assert_eq!(article.favoritesCount, 0);
    assert_eq!(article.author.username, user_name);
}

#[test]
fn list_article_test() {
    let mut store = Store::new();
    let (_uid, _slug, _user_name) = login_create_article(&mut store, false);

    let res = list_article_handler(&store, "tag=dragons", None).unwrap();
    assert!(res.articles.len() > 0);
}

#[test]
fn list_article_filters_test() {
    let mut store = Store::new();
    let (_uid, slug, user_name) = login_create_article(&mut store, false);

    let by_author = list_article_handler(&store, "author=Jacob", None).unwrap();
    assert_eq!(by_author.articles.len(), 1);
    assert_eq!(by_author.articles[0].slug, slug);
    assert_eq!(by_author.articles[0].author.username, user_name);

    let no_match = list_article_handler(&store, "tag=dragons&author=Nobody", None).unwrap();
    assert_eq!(no_match.articles.len(), 0);

    let paged_out = list_article_handler(&store, "offset=5", None).unwrap();
    assert_eq!(paged_out.articles.len(), 0);

    let bad = list_article_handler(&store, "limit=abc", None).unwrap_err();
    assert_eq!(bad, ValidationError::BadNumber);
}

#[test]
fn unfollowed_feed_article_test() {
    let mut store = Store::new();
    let (uid, _slug, _user_name) = login_create_article(&mut store, false);

    let res = feed_handler(&store, "", uid).unwrap();
    assert!(res.articles.len() == 0);
}

#[test]
fn followed_feed_article_test() {
    let mut store = Store::new();
    let (uid, _slug, _user_name) = login_create_article(&mut store, true);

    let res = feed_handler(&store, "", uid).unwrap();
    assert!(res.articles.len() == 1);
}

#[test]
fn feed_of_follower_and_stranger_test() {
    let mut store = Store::new();
    let (_uid, slug, _user_name) = login_create_article(&mut store, false);

    let (_jwt, b) = register_and_login(&mut store, "Bea", "bea@jake.jake");
    follow_handler(&mut store, &"Jacob".to_string(), b).unwrap();
    let feed = feed_handler(&store, "", b).unwrap();
    assert_eq!(feed.articles.len(), 1);
    assert_eq!(feed.articles[0].slug, slug);

    let (_jwt, c) = register_and_login(&mut store, "Cara", "cara@jake.jake");
    let empty = feed_handler(&store, "", c).unwrap();
    assert_eq!(empty.articles.len(), 0);
}

#[test]
fn update_article_test() {
    let mut store = Store::new();
    let (uid, slug, user_name) = login_create_article(&mut store, false);

    let title2 = "How to train your dragon NOT".to_string();
    let upd = UpdateArticle {
        article: UpdateArticleDetail {
            title: Some(title2.clone()),
            description: Some("CHANGED1".to_string()),
            body: Some("CHANGED2".to_string()),
        },
    };
    let res = update_article_handler(&mut store, &slug, &upd, uid, NOW).unwrap();
    let article = res.article;
    assert_eq!(article.slug, "how-to-train-your-dragon-not");
    assert_eq!(article.title, title2);
    assert_eq!(article.description, "CHANGED1");
    assert_eq!(article.body, "CHANGED2");
    assert!(!article.favorited);
    assert_eq!(article.favoritesCount, 0);
    assert_eq!(article.author.username, user_name);
}

#[test]
fn delete_article_test() {
    let mut store = Store::new();
    let (uid, slug, _user_name) = login_create_article(&mut store, false);

    assert!(delete_article_handler(&mut store, &slug, uid));
    assert!(get_article_handler(&store, &slug, None).is_none());
}

#[test]
fn update_article_ownership_test() {
    let mut store = Store::new();
    let (_uid, slug, _user_name) = login_create_article(&mut store, false);
    let (_jwt, b) = register_and_login(&mut store, "Bea", "bea@jake.jake");

    let upd = UpdateArticle {
        article: UpdateArticleDetail {
            title: None,
            description: Some("HIJACKED".to_string()),
            body: None,
        },
    };
    let err = update_article_handler(&mut store, &slug, &upd, b, NOW).unwrap_err();
    assert_eq!(err, ArticleError::NotFound);

    assert!(!delete_article_handler(&mut store, &slug, b));

    let unchanged = get_article_handler(&store, &slug, None).unwrap();
    assert_eq!(unchanged.article.description, "Ever wonder how?");
}

#[test]
fn create_article_duplicate_slug_test() {
    let mut store = Store::new();
    let (uid, _slug, _user_name) = login_create_article(&mut store, false);

    let body = CreateArticle {
        article: CreateArticleDetail {
            title: "How to train your dragon".to_string(),
            description: "again".to_string(),
            body: "again".to_string(),
            tagList: None,
        },
    };
    let err = create_article_handler(&mut store, &body, uid, NOW).unwrap_err();
    assert_eq!(err, ArticleError::DuplicateSlug);

    let err = create_article_handler(&mut store, &body, None, NOW).unwrap_err();
    assert_eq!(err, ArticleError::Unauthorized);
}

#[test]
fn get_tags_test() {
    let mut store = Store::new();
    let (_uid, _slug, _user_name) = login_create_article(&mut store, false);

    let res = get_tags_handler(&store);
    assert_eq!(res.tags.len(), 3);
    assert!(res.tags.iter().any(|t| t == "dragons"));
}

#[test]
fn create_article_single_tag_test() {
    let mut store = Store::new();
    let (_jwt, uid) = register_and_login(&mut store, "Jacob", "jake@jake.jake");
    let body = CreateArticle {
        article: CreateArticleDetail {
            title: "How to train your dragon".to_string(),
            description: "Ever wonder how?".to_string(),
            body: "You have to believe".to_string(),
            tagList: Some(vec!["dragons".to_string()]),
        },
    };
    let res = create_article_handler(&mut store, &body, uid, NOW).unwrap();
    assert_eq!(res.article.slug, "how-to-train-your-dragon");
    assert!(!res.article.favorited);
    assert_eq!(res.article.tagList, vec!["dragons".to_string()]);
    assert_eq!(res.article.createdAt, NOW);
    assert!(res.article.updatedAt.is_none());
}
