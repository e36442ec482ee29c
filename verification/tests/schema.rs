use rusty_unsplash::schema::full_urls;
use rusty_unsplash::schema::read_page;
use rusty_unsplash::Animals;
use rusty_unsplash::Json;
use rusty_unsplash::People;
use rusty_unsplash::ProfileImage;
use rusty_unsplash::Social;
use rusty_unsplash::Status;
use rusty_unsplash::TopicSubmissions;
use rusty_unsplash::Urls;
use rusty_unsplash::User;
use rusty_unsplash::UserLinks;
use rusty_unsplash::WelcomeElement;
use rusty_unsplash::WelcomeLinks;

const URLS: &str = "{\"raw\": \"https://img/raw\", \"full\": \"https://img/full\", \
    \"regular\": \"https://img/regular\", \"small\": \"https://img/small\", \
    \"thumb\": \"https://img/thumb\", \"small_s3\": \"https://img/s3\"}";

const LINKS: &str = "{\"self\": \"https://api/p\", \"html\": \"https://site/p\", \
    \"download\": \"https://site/p/download\", \"download_location\": \"https://api/p/download\"}";

const USER: &str = "{\"id\": \"u1\", \"updated_at\": \"2023-01-02T03:04:05Z\", \
    \"username\": \"ann\", \"name\": \"Ann Lee\", \"first_name\": \"Ann\", \"last_name\": \"Lee\", \
    \"twitter_username\": null, \"portfolio_url\": \"https://ann.example\", \"bio\": null, \
    \"location\": \"Oslo\", \
    \"links\": {\"self\": \"s\", \"html\": \"h\", \"photos\": \"p\", \"likes\": \"l\", \
        \"portfolio\": \"pf\", \"following\": \"fg\", \"followers\": \"fs\"}, \
    \"profile_image\": {\"small\": \"ps\", \"medium\": \"pm\", \"large\": \"pl\"}, \
    \"instagram_username\": \"ann_ig\", \"total_collections\": 3, \"total_likes\": 40, \
    \"total_photos\": 500, \"accepted_tos\": true, \"for_hire\": false, \
    \"social\": {\"instagram_username\": \"ann_ig\", \"portfolio_url\": null, \
        \"twitter_username\": null, \"paypal_email\": null}}";

fn photo_with(urls: &str, topics: &str, user: &str) -> String {
    format!(
        "{{\"id\": \"photo-1\", \"created_at\": \"2022-05-06T07:08:09Z\", \
         \"updated_at\": \"2022-06-06T07:08:09Z\", \"promoted_at\": null, \
         \"width\": 4000, \"height\": 3000, \"color\": \"#a0b0c0\", \"blur_hash\": \"LKO2\", \
         \"description\": null, \"alt_description\": \"a fjord\", \
         \"urls\": {}, \"links\": {}, \"likes\": 12, \"liked_by_user\": false, \
         \"current_user_collections\": [], \"sponsorship\": null, \
         \"topic_submissions\": {}, \"user\": {}}}",
        urls, LINKS, topics, user
    )
}

fn photo() -> String {
    photo_with(URLS, "{}", USER)
}

fn parsed(text: &str) -> Json {
    Json::parse(text).expect("the text is JSON")
}

fn without(text: &str, member: &str) -> Json {
    match parsed(text) {
        Json::Object(entries) => {
            let before = entries.len();
            let kept: Vec<(String, Json)> = entries.into_iter().filter(|e| e.0 != member).collect();
            assert_eq!(kept.len() + 1, before, "the member {} is there once", member);
            Json::Object(kept)
        }
        other => panic!("not an object: {:?}", other),
    }
}

fn with(text: &str, member: &str, value: Json) -> Json {
    match parsed(text) {
        Json::Object(entries) => {
            let mut kept: Vec<(String, Json)> =
                entries.into_iter().filter(|e| e.0 != member).collect();
            kept.push((member.to_string(), value));
            Json::Object(kept)
        }
        other => panic!("not an object: {:?}", other),
    }
}

#[test]
fn status_reads_the_two_texts() {
    assert_eq!(Status::from_json(&parsed("\"approved\"")), Some(Status::Approved));
    assert_eq!(Status::from_json(&parsed("\"rejected\"")), Some(Status::Rejected));
}

#[test]
fn status_refuses_every_other_value() {
    assert_eq!(Status::from_json(&parsed("\"pending\"")), None);
    assert_eq!(Status::from_json(&parsed("\"Approved\"")), None);
    assert_eq!(Status::from_json(&parsed("\"approved \"")), None);
    assert_eq!(Status::from_json(&parsed("\"\"")), None);
    assert_eq!(Status::from_json(&parsed("null")), None);
    assert_eq!(Status::from_json(&parsed("true")), None);
    assert_eq!(Status::from_json(&parsed("1")), None);
    assert_eq!(Status::from_json(&parsed("{\"approved\": null}")), None);
    assert_eq!(Status::from_json(&parsed("[\"approved\"]")), None);
}

#[test]
fn urls_reads_every_size() {
    let urls = Urls::from_json(&parsed(URLS)).unwrap();
    assert_eq!(urls.raw, "https://img/raw");
    assert_eq!(urls.full, "https://img/full");
    assert_eq!(urls.regular, "https://img/regular");
    assert_eq!(urls.small, "https://img/small");
    assert_eq!(urls.thumb, "https://img/thumb");
    assert_eq!(urls.small_s3, "https://img/s3");
}

#[test]
fn urls_wants_every_size() {
    for member in ["raw", "full", "regular", "small", "thumb", "small_s3"] {
        assert!(Urls::from_json(&without(URLS, member)).is_none(), "{}", member);
    }
}

#[test]
fn urls_wants_text_in_every_size() {
    for member in ["raw", "full", "regular", "small", "thumb", "small_s3"] {
        assert!(Urls::from_json(&with(URLS, member, Json::Null)).is_none(), "{}", member);
        assert!(
            Urls::from_json(&with(URLS, member, Json::Number(Some(1)))).is_none(),
            "{}",
            member
        );
    }
}

#[test]
fn urls_allows_members_that_are_not_listed() {
    let urls = Urls::from_json(&with(URLS, "huge", Json::Bool(true))).unwrap();
    assert_eq!(urls.full, "https://img/full");
}

#[test]
fn urls_must_be_an_object() {
    assert!(Urls::from_json(&parsed("[\"a\", \"b\", \"c\", \"d\", \"e\", \"f\"]")).is_none());
    assert!(Urls::from_json(&parsed("\"https://img/full\"")).is_none());
    assert!(Urls::from_json(&parsed("null")).is_none());
    assert!(Urls::from_json(&parsed("{}")).is_none());
}

#[test]
fn welcome_links_reads_the_renamed_member() {
    let links = WelcomeLinks::from_json(&parsed(LINKS)).unwrap();
    assert_eq!(links.links_self, "https://api/p");
    assert_eq!(links.html, "https://site/p");
    assert_eq!(links.download, "https://site/p/download");
    assert_eq!(links.download_location, "https://api/p/download");
    assert!(WelcomeLinks::from_json(&without(LINKS, "self")).is_none());
    let renamed = with(LINKS, "links_self", Json::Text("x".to_string()));
    assert_eq!(WelcomeLinks::from_json(&renamed).unwrap().links_self, "https://api/p");
}

#[test]
fn animals_reads_status_and_time() {
    let a = Animals::from_json(&parsed(
        "{\"status\": \"approved\", \"approved_on\": \"2020-01-01T00:00:00Z\"}",
    ))
    .unwrap();
    assert_eq!(a.status, Status::Approved);
    assert_eq!(a.approved_on, Some("2020-01-01T00:00:00Z".to_string()));
}

#[test]
fn animals_allows_the_time_to_be_missing_or_null() {
    let a = Animals::from_json(&parsed("{\"status\": \"rejected\"}")).unwrap();
    assert_eq!(a.status, Status::Rejected);
    assert_eq!(a.approved_on, None);
    let b = Animals::from_json(&parsed("{\"status\": \"rejected\", \"approved_on\": null}")).unwrap();
    assert_eq!(b.approved_on, None);
}

#[test]
fn animals_wants_a_known_status() {
    assert!(Animals::from_json(&parsed("{\"approved_on\": null}")).is_none());
    assert!(Animals::from_json(&parsed("{\"status\": \"unknown\"}")).is_none());
    assert!(Animals::from_json(&parsed("{\"status\": null}")).is_none());
    assert!(Animals::from_json(&parsed("{\"status\": \"approved\", \"approved_on\": 5}")).is_none());
}

#[test]
fn people_reads_the_status() {
    assert_eq!(
        People::from_json(&parsed("{\"status\": \"approved\"}")).unwrap().status,
        Status::Approved
    );
    assert!(People::from_json(&parsed("{}")).is_none());
    assert!(People::from_json(&parsed("\"approved\"")).is_none());
}

#[test]
fn optional_record_is_none_when_left_out() {
    assert!(matches!(Animals::from_optional(None), Some(None)));
    assert!(matches!(People::from_optional(None), Some(None)));
    let good = parsed("{\"status\": \"approved\"}");
    assert!(matches!(Animals::from_optional(Some(&good)), Some(Some(_))));
    let bad = parsed("{\"status\": \"no\"}");
    assert!(Animals::from_optional(Some(&bad)).is_none());
    assert!(People::from_optional(Some(&bad)).is_none());
}

#[test]
fn topic_submissions_may_be_empty() {
    let t = TopicSubmissions::from_json(&parsed("{}")).unwrap();
    assert!(t.nature.is_none());
    assert!(t.wallpapers.is_none());
    assert!(t.arts_culture.is_none());
    assert!(t.color_theory.is_none());
    assert!(t.textures_patterns.is_none());
    assert!(t.animals.is_none());
    assert!(t.people.is_none());
    assert!(t.street_photography.is_none());
    assert!(t.architecture_interior.is_none());
    assert!(t.architecture.is_none());
}

#[test]
fn topic_submissions_reads_the_hyphenated_members() {
    let t = TopicSubmissions::from_json(&parsed(
        "{\"arts-culture\": {\"status\": \"approved\", \"approved_on\": \"t1\"}, \
          \"color-theory\": {\"status\": \"rejected\"}, \
          \"textures-patterns\": {\"status\": \"approved\"}, \
          \"street-photography\": {\"status\": \"rejected\"}, \
          \"architecture-interior\": {\"status\": \"approved\"}, \
          \"people\": {\"status\": \"approved\"}, \
          \"nature\": null}",
    ))
    .unwrap();
    assert_eq!(t.arts_culture.as_ref().unwrap().status, Status::Approved);
    assert_eq!(t.arts_culture.as_ref().unwrap().approved_on, Some("t1".to_string()));
    assert_eq!(t.color_theory.as_ref().unwrap().status, Status::Rejected);
    assert_eq!(t.textures_patterns.as_ref().unwrap().status, Status::Approved);
    assert_eq!(t.street_photography.as_ref().unwrap().status, Status::Rejected);
    assert_eq!(t.architecture_interior.as_ref().unwrap().status, Status::Approved);
    assert_eq!(t.people.as_ref().unwrap().status, Status::Approved);
    assert!(t.nature.is_none());
    assert!(t.animals.is_none());
}

#[test]
fn topic_submissions_ignores_the_underscored_spellings() {
    let t = TopicSubmissions::from_json(&parsed("{\"arts_culture\": {\"status\": \"bogus\"}}")).unwrap();
    assert!(t.arts_culture.is_none());
}

#[test]
fn topic_submissions_fails_on_an_unknown_status() {
    assert!(TopicSubmissions::from_json(&parsed("{\"nature\": {\"status\": \"pending\"}}")).is_none());
    assert!(TopicSubmissions::from_json(&parsed("{\"people\": {\"status\": \"pending\"}}")).is_none());
    assert!(TopicSubmissions::from_json(&parsed("{\"animals\": \"approved\"}")).is_none());
}

#[test]
fn topic_submissions_must_be_an_object() {
    assert!(TopicSubmissions::from_json(&parsed("[]")).is_none());
    assert!(TopicSubmissions::from_json(&parsed("\"none\"")).is_none());
    assert!(TopicSubmissions::from_json(&parsed("null")).is_none());
}

#[test]
fn social_may_be_empty_but_must_be_an_object() {
    let s = Social::from_json(&parsed("{}")).unwrap();
    assert_eq!(s.instagram_username, None);
    assert_eq!(s.portfolio_url, None);
    assert_eq!(s.twitter_username, None);
    assert_eq!(s.paypal_email, None);
    assert!(Social::from_json(&parsed("[]")).is_none());
    assert!(Social::from_json(&parsed("7")).is_none());
}

#[test]
fn social_keeps_any_value_of_the_free_member() {
    let s = Social::from_json(&parsed(
        "{\"instagram_username\": \"ig\", \"paypal_email\": {\"address\": [1, 2]}}",
    ))
    .unwrap();
    assert_eq!(s.instagram_username, Some("ig".to_string()));
    assert_eq!(s.paypal_email, Some(parsed("{\"address\": [1, 2]}")));
    assert!(Social::from_json(&parsed("{\"twitter_username\": 3}")).is_none());
}

#[test]
fn profile_image_and_user_links_want_every_member() {
    let image = "{\"small\": \"ps\", \"medium\": \"pm\", \"large\": \"pl\"}";
    let p = ProfileImage::from_json(&parsed(image)).unwrap();
    assert_eq!((p.small.as_str(), p.medium.as_str(), p.large.as_str()), ("ps", "pm", "pl"));
    for member in ["small", "medium", "large"] {
        assert!(ProfileImage::from_json(&without(image, member)).is_none());
    }
    let links = "{\"self\": \"s\", \"html\": \"h\", \"photos\": \"p\", \"likes\": \"l\", \
        \"portfolio\": \"pf\", \"following\": \"fg\", \"followers\": \"fs\"}";
    let l = UserLinks::from_json(&parsed(links)).unwrap();
    assert_eq!(l.links_self, "s");
    assert_eq!(l.html, "h");
    assert_eq!(l.photos, "p");
    assert_eq!(l.likes, "l");
    assert_eq!(l.portfolio, "pf");
    assert_eq!(l.following, "fg");
    assert_eq!(l.followers, "fs");
    for member in ["self", "html", "photos", "likes", "portfolio", "following", "followers"] {
        assert!(UserLinks::from_json(&without(links, member)).is_none());
    }
}

#[test]
fn user_reads_every_member() {
    let u = User::from_json(&parsed(USER)).unwrap();
    assert_eq!(u.id, "u1");
    assert_eq!(u.updated_at, "2023-01-02T03:04:05Z");
    assert_eq!(u.username, "ann");
    assert_eq!(u.name, "Ann Lee");
    assert_eq!(u.first_name, "Ann");
    assert_eq!(u.last_name, "Lee");
    assert_eq!(u.twitter_username, None);
    assert_eq!(u.portfolio_url, Some("https://ann.example".to_string()));
    assert_eq!(u.bio, None);
    assert_eq!(u.location, Some("Oslo".to_string()));
    assert_eq!(u.links.photos, "p");
    assert_eq!(u.profile_image.medium, "pm");
    assert_eq!(u.instagram_username, Some("ann_ig".to_string()));
    assert_eq!(u.total_collections, 3);
    assert_eq!(u.total_likes, 40);
    assert_eq!(u.total_photos, 500);
    assert!(u.accepted_tos);
    assert!(!u.for_hire);
    assert_eq!(u.social.instagram_username, Some("ann_ig".to_string()));
}

#[test]
fn user_wants_its_required_members() {
    for member in [
        "id", "updated_at", "username", "name", "first_name", "last_name", "links",
        "profile_image", "total_collections", "total_likes", "total_photos", "accepted_tos",
        "for_hire", "social",
    ] {
        assert!(User::from_json(&without(USER, member)).is_none(), "{}", member);
        assert!(User::from_json(&with(USER, member, Json::Null)).is_none(), "{}", member);
    }
}

#[test]
fn user_allows_its_optional_members_to_be_missing() {
    for member in ["twitter_username", "portfolio_url", "bio", "location", "instagram_username"] {
        assert!(User::from_json(&without(USER, member)).is_some(), "{}", member);
        assert!(User::from_json(&with(USER, member, Json::Null)).is_some(), "{}", member);
        assert!(User::from_json(&with(USER, member, Json::Bool(true))).is_none(), "{}", member);
    }
}

#[test]
fn user_wants_whole_numbers() {
    assert!(User::from_json(&with(USER, "total_likes", Json::Number(None))).is_none());
    assert!(User::from_json(&with(USER, "total_likes", Json::Text("40".to_string()))).is_none());
    let u = User::from_json(&with(USER, "total_likes", Json::Number(Some(-1)))).unwrap();
    assert_eq!(u.total_likes, -1);
}

#[test]
fn photo_reads_every_member() {
    let p = WelcomeElement::from_json(&parsed(&photo())).unwrap();
    assert_eq!(p.id, "photo-1");
    assert_eq!(p.created_at, "2022-05-06T07:08:09Z");
    assert_eq!(p.updated_at, "2022-06-06T07:08:09Z");
    assert_eq!(p.promoted_at, None);
    assert_eq!(p.width, 4000);
    assert_eq!(p.height, 3000);
    assert_eq!(p.color, "#a0b0c0");
    assert_eq!(p.blur_hash, "LKO2");
    assert_eq!(p.description, None);
    assert_eq!(p.alt_description, Some("a fjord".to_string()));
    assert_eq!(p.urls.full, "https://img/full");
    assert_eq!(p.links.html, "https://site/p");
    assert_eq!(p.likes, 12);
    assert!(!p.liked_by_user);
    assert!(p.current_user_collections.is_empty());
    assert_eq!(p.sponsorship, None);
    assert!(p.topic_submissions.nature.is_none());
    assert_eq!(p.user.username, "ann");
}

#[test]
fn photo_wants_its_required_members() {
    for member in [
        "id", "created_at", "updated_at", "width", "height", "color", "blur_hash", "urls",
        "links", "likes", "liked_by_user", "current_user_collections", "topic_submissions",
        "user",
    ] {
        assert!(WelcomeElement::from_json(&without(&photo(), member)).is_none(), "{}", member);
        assert!(
            WelcomeElement::from_json(&with(&photo(), member, Json::Null)).is_none(),
            "{}",
            member
        );
    }
}

#[test]
fn photo_allows_its_optional_members_to_be_missing() {
    for member in ["promoted_at", "description", "alt_description", "sponsorship"] {
        assert!(WelcomeElement::from_json(&without(&photo(), member)).is_some(), "{}", member);
        assert!(
            WelcomeElement::from_json(&with(&photo(), member, Json::Null)).is_some(),
            "{}",
            member
        );
    }
}

#[test]
fn photo_keeps_free_members_as_they_are() {
    let doc = with(
        &photo(),
        "current_user_collections",
        parsed("[{\"id\": 1}, null, \"x\"]"),
    );
    let p = WelcomeElement::from_json(&doc).unwrap();
    assert_eq!(
        p.current_user_collections,
        vec![Some(parsed("{\"id\": 1}")), None, Some(Json::Text("x".to_string()))]
    );
    let doc = with(&photo(), "sponsorship", parsed("{\"sponsor\": {\"id\": \"s\"}}"));
    let p = WelcomeElement::from_json(&doc).unwrap();
    assert_eq!(p.sponsorship, Some(parsed("{\"sponsor\": {\"id\": \"s\"}}")));
}

#[test]
fn photo_fails_on_a_mismatch_deep_inside() {
    let bad_topic = photo_with(URLS, "{\"nature\": {\"status\": \"waiting\"}}", USER);
    assert!(WelcomeElement::from_json(&parsed(&bad_topic)).is_none());
    let bad_urls = photo_with("{\"full\": \"only\"}", "{}", USER);
    assert!(WelcomeElement::from_json(&parsed(&bad_urls)).is_none());
    let bad_user = photo_with(URLS, "{}", "{\"id\": \"u\"}");
    assert!(WelcomeElement::from_json(&parsed(&bad_user)).is_none());
    assert!(WelcomeElement::from_json(&with(&photo(), "width", Json::Number(None))).is_none());
    assert!(
        WelcomeElement::from_json(&with(&photo(), "liked_by_user", Json::Number(Some(0))))
            .is_none()
    );
}

#[test]
fn photo_allows_members_that_are_not_listed() {
    let doc = with(&photo(), "views", Json::Number(Some(99)));
    assert!(WelcomeElement::from_json(&doc).is_some());
}

#[test]
fn read_page_reads_every_record_in_order() {
    let a = photo_with(&URLS.replace("https://img/full", "https://img/1"), "{}", USER);
    let b = photo_with(&URLS.replace("https://img/full", "https://img/2"), "{}", USER);
    let c = photo_with(&URLS.replace("https://img/full", "https://img/3"), "{}", USER);
    let page = parsed(&format!("[{}, {}, {}]", a, b, c));
    let records = read_page(&page).unwrap();
    assert_eq!(records.len(), 3);
    assert_eq!(records[0].urls.full, "https://img/1");
    assert_eq!(records[1].urls.full, "https://img/2");
    assert_eq!(records[2].urls.full, "https://img/3");
    assert_eq!(
        full_urls(&records),
        vec!["https://img/1", "https://img/2", "https://img/3"]
    );
}

#[test]
fn read_page_reads_the_empty_page() {
    let records = read_page(&parsed("[]")).unwrap();
    assert!(records.is_empty());
    assert!(full_urls(&records).is_empty());
}

#[test]
fn read_page_fails_when_one_record_fails() {
    let good = photo();
    let bad = photo_with("{\"full\": 1}", "{}", USER);
    assert!(read_page(&parsed(&format!("[{}, {}]", good, bad))).is_none());
    assert!(read_page(&parsed(&format!("[{}, {}]", bad, good))).is_none());
    assert!(read_page(&parsed(&format!("[{}, null]", good))).is_none());
}

#[test]
fn read_page_wants_an_array() {
    assert!(read_page(&parsed(&photo())).is_none());
    assert!(read_page(&parsed("{\"errors\": [\"OAuth error\"]}")).is_none());
    assert!(read_page(&parsed("null")).is_none());
    assert!(read_page(&parsed("\"[]\"")).is_none());
}
