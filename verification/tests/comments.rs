use conduit::article::create_article_handler;
use conduit::comment::{add_comment_handler, delete_comment_handler, get_comments_handler};
use conduit::dto::{
    AddComment, AddCommentDetail, CreateArticle, CreateArticleDetail, Login, LoginDetails,
    Registration, RegistrationDetails,
};
use conduit::store::Store;
use conduit::token::SessionMiddleware;
use conduit::user::{authentication_handler, login, registration_handler};

const NOW: u64 = 1700000000;

fn service() -> SessionMiddleware {
    SessionMiddleware::new("secret_key").issuer("conduit")
}

fn comment_setup(store: &mut Store, username: &str, email: &str) -> Option<u64> {
    let reg = Registration {
        user: RegistrationDetails {
            email: email.to_string(),
            username: username.to_string(),
            password: "jakejake".to_string(),
        },
    };
    registration_handler(store, &service(), &reg, NOW).unwrap();
    let req = Login {
        user: LoginDetails {
            email: email.to_string(),
            password: "jakejake".to_string(),
        },
    };
    let res = authentication_handler(store, &service(), &req, NOW).unwrap();
    login(&service(), &res.user.token, NOW)
}

fn create_dragon_article(store: &mut Store, uid: Option<u64>) -> String {
    let body = CreateArticle {
        article: CreateArticleDetail {
            title: "How to train your dragon".to_string(),
            description: "Ever wonder how?".to_string(),
            body: "You have to believe".to_string(),
            tagList: Some(vec!["dragons".to_string()]),
        },
    };
    create_article_handler(store, &body, uid, NOW).unwrap().article.slug
}

#[test]
fn add_comment_test() {
    let mut store = Store::new();
    let uid = comment_setup(&mut store, "Jacob", "jake@jake.jake");
    let slug = create_dragon_article(&mut store, uid);

    let comment_body = format!("His name was my name too {}-{}.", NOW, 0);
    let req = AddComment { comment: AddCommentDetail { body: comment_body.clone() } };
    let res = add_comment_handler(&mut store, &slug, &req, uid, NOW).unwrap();
    assert_eq!(res.comment.body, comment_body);
    assert_eq!(res.comment.author.username, "Jacob");

    let comments = get_comments_handler(&store, &slug, uid).unwrap();
    assert_eq!(comments.comments.len(), 1);
}

#[test]
fn delete_comment_test() {
    let mut store = Store::new();
    let uid = comment_setup(&mut store, "Jacob", "jake@jake.jake");
    let slug = create_dragon_article(&mut store, uid);

    let req = AddComment {
        comment: AddCommentDetail { body: "His name was my name too.".to_string() },
    };
    let res = add_comment_handler(&mut store, &slug, &req, uid, NOW).unwrap();

    assert!(delete_comment_handler(&mut store, res.comment.id, uid));

    let comments = get_comments_handler(&store, &slug, uid).unwrap();
    assert_eq!(comments.comments.len(), 0);
}

#[test]
fn delete_comment_ownership_test() {
    let mut store = Store::new();
    let jacob = comment_setup(&mut store, "Jacob", "jake@jake.jake");
    let bea = comment_setup(&mut store, "Bea", "bea@jake.jake");
    let slug = create_dragon_article(&mut store, jacob);

    let req = AddComment {
        comment: AddCommentDetail { body: "His name was my name too.".to_string() },
    };
    let res = add_comment_handler(&mut store, &slug, &req, jacob, NOW).unwrap();
    let before = get_comments_handler(&store, &slug, None).unwrap().comments.len();

    assert!(!delete_comment_handler(&mut store, res.comment.id, bea));
    assert!(!delete_comment_handler(&mut store, res.comment.id, None));

    let after = get_comments_handler(&store, &slug, None).unwrap().comments.len();
    assert_eq!(before, after);
    assert_eq!(after, 1);
}

#[test]
fn comments_gone_with_article_test() {
    let mut store = Store::new();
    let uid = comment_setup(&mut store, "Jacob", "jake@jake.jake");
    let slug = create_dragon_article(&mut store, uid);

    let req = AddComment {
        comment: AddCommentDetail { body: "His name was my name too.".to_string() },
    };
    add_comment_handler(&mut store, &slug, &req, uid, NOW).unwrap();
    assert!(conduit::article::delete_article_handler(&mut store, &slug, uid));
    assert_eq!(store.comments.len(), 0);
    assert!(get_comments_handler(&store, &slug, None).is_none());
}
